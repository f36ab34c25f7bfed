//! What playing, pausing, moving on, stopping and upkeep come to, answer by answer:
//! what is asked of the engines and of the store, and what the player is left with.

use vstd::prelude::*;

use crate::engine::EngineSnapshot;
use crate::error::ErrorView;
use crate::fixed::Fixed;
use crate::player_model::{
    after_eof, choose_row_of, does, end_of_file_of, ends, ensure_indexed_of, find_track_of,
    learn_duration_of, load_of, loop_text, next_of, persist_queue_of, persist_resume_of,
    play_path_of, play_track_of, previous_of, quit_of, requeued, set_paused_of, set_queue_of,
    start_track_of, stop_of, tick_of, toggle_paused_of, walk_of, ActionView, Answer, EngineCall,
    PlayerView, Run, SettingKey,
};
use crate::queue::{mode_text, QueueView, RepeatMode};
use crate::script::Progress;
use crate::selection::Choice;
use crate::track::Track;

verus! {

/// Whether a run waits for this to be done.
pub open spec fn wants<T>(o: Run<T>, a: ActionView) -> bool {
    o.end == Progress::<ActionView, T, ErrorView>::Ask(a)
}

/// Whether a run is over, and this is the player it leaves.
pub open spec fn leaves<T>(o: Run<T>, p: PlayerView) -> bool {
    o.end is Done && o.state == p
}

/// A call to an engine.
pub open spec fn call(index: usize, call: EngineCall) -> ActionView {
    ActionView::Engine { index, call }
}

/// Whether a minute is left after `a` billionths of a second, as far as the length
/// is known.
pub open spec fn has_room(a: i128, duration: Option<Fixed>) -> bool {
    duration matches Some(Fixed::Nanos(d)) ==> d > 0 ==> d - a >= 60_000_000_000
}

/// The length that an engine reports, else the one that the index holds.
pub open spec fn length(snap: EngineSnapshot, track: Track) -> Option<Fixed> {
    if snap.duration_secs is Some {
        snap.duration_secs
    } else {
        track.duration_secs
    }
}

/// Where playback is, half a minute in and a minute from the end at least: what is
/// to be saved of it.
pub open spec fn is_due(p: PlayerView, snap: EngineSnapshot) -> bool {
    &&& p.active is Some
    &&& p.current is Some
    &&& snap.position_secs matches Some(Fixed::Nanos(a)) && a >= 30_000_000_000 && has_room(
        a,
        length(snap, p.current->0),
    )
}

/// The answers while a position is saved.
pub open spec fn saving(p: PlayerView, snap: EngineSnapshot) -> Seq<Answer> {
    if p.active is None {
        Seq::empty()
    } else if is_due(p, snap) {
        seq![Answer::Snapshot(snap), Answer::Finished]
    } else {
        seq![Answer::Snapshot(snap)]
    }
}

/// The player once its position has been saved, where it was due.
pub open spec fn saved(p: PlayerView, snap: EngineSnapshot) -> PlayerView {
    if is_due(p, snap) {
        PlayerView { last_written: snap.position_secs->0, ..p }
    } else {
        p
    }
}

/// Whether an operation, after the answers `front`, looks at what plays and saves
/// the position that is due, for the track that is current.
pub open spec fn saves<T>(
    op: spec_fn(Seq<Answer>) -> Run<T>,
    front: Seq<Answer>,
    p: PlayerView,
    snap: EngineSnapshot,
) -> bool {
    &&& p.active is Some ==> wants(op(front), call(p.active->0, EngineCall::Snapshot))
    &&& is_due(p, snap) ==> wants(
        op(front + seq![Answer::Snapshot(snap)]),
        ActionView::SetResume(p.current->0.id, snap.position_secs->0),
    )
}

/// Every operation that leaves a track behind, or pauses it, saves the position it
/// had come to, before anything else is changed.
pub proof fn law_position_is_saved(
    p: PlayerView,
    snap: EngineSnapshot,
    first: EngineSnapshot,
    track: Track,
    flag: bool,
)
    ensures
        saves(|s: Seq<Answer>| stop_of(p, s, 0), Seq::empty(), p, snap),
        saves(|s: Seq<Answer>| quit_of(p, s, 0), Seq::empty(), p, snap),
        saves(|s: Seq<Answer>| next_of(p, s, 0), Seq::empty(), p, snap),
        saves(|s: Seq<Answer>| previous_of(p, s, 0), Seq::empty(), p, snap),
        saves(|s: Seq<Answer>| play_track_of(p, s, 0, track, flag), Seq::empty(), p, snap),
        saves(|s: Seq<Answer>| set_paused_of(p, s, 0, flag), seq![Answer::Finished], p, snap),
        saves(
            |s: Seq<Answer>| toggle_paused_of(p, s, 0),
            seq![Answer::Snapshot(first), Answer::Finished],
            p,
            snap,
        ),
{
}

/// Stopping saves the position, stops the engine, and leaves nothing current. The
/// queue, its selection and its rules stay.
pub proof fn law_stopping(p: PlayerView, snap: EngineSnapshot)
    ensures
        ({
            let f = saving(p, snap);
            let rest = PlayerView { current: None, last_written: Fixed::NaN, ..p };
            &&& p.active is None ==> leaves(stop_of(p, f, 0), rest)
            &&& p.active is Some ==> {
                &&& wants(stop_of(p, f, 0), call(p.active->0, EngineCall::Stop))
                &&& leaves(stop_of(p, f + seq![Answer::Finished], 0), rest)
            }
        }),
{
}

/// Pausing and going on tell the engine that is addressed, and nothing where none
/// is. The position is saved, and the track stays current.
pub proof fn law_pausing(p: PlayerView, snap: EngineSnapshot, paused: bool)
    ensures
        p.active is None ==> set_paused_of(p, Seq::empty(), 0, paused).end == Progress::<
            ActionView,
            (),
            ErrorView,
        >::Failed(ErrorView::NothingPlaying),
        p.active is Some ==> {
            &&& wants(
                set_paused_of(p, Seq::empty(), 0, paused),
                call(p.active->0, EngineCall::SetPaused(paused)),
            )
            &&& leaves(
                set_paused_of(p, seq![Answer::Finished] + saving(p, snap), 0, paused),
                saved(p, snap),
            )
        },
{
}

/// Toggling pauses what plays, and lets go on what is paused; it says which.
pub proof fn law_toggling(p: PlayerView, first: EngineSnapshot, snap: EngineSnapshot)
    requires
        p.active is Some,
    ensures
        ({
            let look = seq![Answer::Snapshot(first)];
            let told = seq![Answer::Snapshot(first), Answer::Finished];
            &&& wants(toggle_paused_of(p, Seq::empty(), 0), call(p.active->0, EngineCall::Snapshot))
            &&& wants(
                toggle_paused_of(p, look, 0),
                call(p.active->0, EngineCall::SetPaused(!first.paused)),
            )
            &&& leaves(toggle_paused_of(p, told + saving(p, snap), 0), saved(p, snap))
            &&& toggle_paused_of(p, told + saving(p, snap), 0).end == Progress::<
                ActionView,
                bool,
                ErrorView,
            >::Done(!first.paused)
        }),
{
}

/// Quitting saves the position and then the queue with its rules, and shuts every
/// engine down.
pub proof fn law_quitting(p: PlayerView, snap: EngineSnapshot, more: Seq<Answer>)
    requires
        more.len() <= p.registry.engines.len(),
    ensures
        ({
            let f = saving(p, snap);
            let one = f + seq![Answer::Finished];
            let two = f + seq![Answer::Finished, Answer::Finished];
            let all = f + seq![Answer::Finished, Answer::Finished, Answer::Finished] + more;
            &&& wants(
                quit_of(p, f, 0),
                ActionView::SaveQueue { items: p.queue.items, current: p.queue.current },
            )
            &&& wants(
                quit_of(p, one, 0),
                ActionView::SetSetting {
                    key: SettingKey::Repeat,
                    value: mode_text(p.queue.repeat),
                },
            )
            &&& wants(
                quit_of(p, two, 0),
                ActionView::SetSetting {
                    key: SettingKey::Loop,
                    value: loop_text(p.queue.loop_set),
                },
            )
            &&& more.len() < p.registry.engines.len() ==> wants(
                quit_of(p, all, 0),
                call(more.len() as usize, EngineCall::Shutdown),
            )
            &&& more.len() == p.registry.engines.len() ==> quit_of(p, all, 0).end is Done
        }),
{
    let f = saving(p, snap);
    let all = f + seq![Answer::Finished, Answer::Finished, Answer::Finished] + more;
    crate::player_laws::law_quitting_shuts_every_engine_down(
        saved(p, snap),
        all,
        f.len() as int + 3,
        0,
        more.len() as int,
    );
}

/// Where a track is started: where it was left, if that is half a minute in and a
/// minute from its end at least.
pub open spec fn start_for(track: Track, stored: Option<Fixed>) -> Option<Fixed> {
    match stored {
        Some(Fixed::Nanos(a)) => if a >= 30_000_000_000 && has_room(a, track.duration_secs) {
            stored
        } else {
            None
        },
        _ => None,
    }
}

/// A position that is saved uses the answers to that, and nothing else changes.
proof fn lemma_saving(p: PlayerView, snap: EngineSnapshot, said: Seq<Answer>)
    requires
        saving(p, snap).len() <= said.len(),
        forall|i: int| 0 <= i < saving(p, snap).len() ==> said[i] == saving(p, snap)[i],
    ensures
        persist_resume_of(p, said, 0) == ends(saved(p, snap), saving(p, snap).len() as int, ()),
{
}

/// Loading a track, answer by answer.
proof fn lemma_loading(
    p: PlayerView,
    said: Seq<Answer>,
    at: int,
    track: Track,
    engine: int,
    stored: Option<Fixed>,
)
    requires
        0 <= at <= said.len(),
    ensures
        ({
            let left = p.active is Some && p.registry.engines[p.active->0 as int].id
                != p.registry.engines[engine].id;
            let k = if left {
                at + 1
            } else {
                at
            };
            let o = load_of(p, said, at, track, engine);
            let start = start_for(track, stored);
            &&& left && said.len() == at ==> wants(o, call(p.active->0, EngineCall::Stop))
            &&& said.len() == k ==> wants(o, ActionView::ResumeFor(track.id))
            &&& said.len() > k && said[k] == Answer::Position(stored) ==> {
                &&& said.len() == k + 1 ==> wants(
                    o,
                    call(engine as usize, EngineCall::Load { path: track.path, start_at: start }),
                )
                &&& said.len() == k + 2 && said[k + 1] is Finished ==> wants(
                    o,
                    ActionView::MarkPlayed(track.id),
                )
                &&& said.len() == k + 3 && said[k + 1] is Finished && said[k + 2] is Finished
                    ==> leaves(
                    o,
                    PlayerView {
                        active: Some(engine as usize),
                        current: Some(track),
                        last_written: match start {
                            Some(s) => s,
                            None => Fixed::Nanos(0),
                        },
                        ..p
                    },
                )
            }
        }),
{
}

/// Playing a track, after what played has been saved: the restart, and then the
/// load.
proof fn lemma_playing(
    p: PlayerView,
    snap: EngineSnapshot,
    said: Seq<Answer>,
    track: Track,
    restart: bool,
    engine: int,
)
    requires
        p.registry.chosen(track.path@) == Choice::Engine(engine),
        saving(p, snap).len() <= said.len(),
        forall|i: int| 0 <= i < saving(p, snap).len() ==> said[i] == saving(p, snap)[i],
    ensures
        ({
            let n = saving(p, snap).len() as int;
            let o = play_track_of(p, said, 0, track, restart);
            &&& !restart ==> o == load_of(saved(p, snap), said, n, track, engine)
            &&& restart && said.len() == n ==> wants(o, ActionView::ClearResume(track.id))
            &&& restart && said.len() > n && said[n] is Finished ==> o == load_of(
                saved(p, snap),
                said,
                n + 1,
                track,
                engine,
            )
        }),
{
    lemma_saving(p, snap, said);
}

/// Playing a track, answer by answer. What played is saved; a restart forgets the
/// track's own position; an engine that is left is stopped, whatever it says; the
/// track's position is looked up, and its file is loaded on the engine that was
/// chosen, from there; it is noted as played; and it is current.
pub proof fn law_playing(
    p: PlayerView,
    snap: EngineSnapshot,
    track: Track,
    restart: bool,
    engine: int,
    word: Answer,
    stored: Option<Fixed>,
)
    requires
        p.registry.chosen(track.path@) == Choice::Engine(engine),
    ensures
        ({
            let f = saving(p, snap);
            let g = f + (if restart {
                seq![Answer::Finished]
            } else {
                Seq::empty()
            });
            let left = p.active is Some && p.registry.engines[p.active->0 as int].id
                != p.registry.engines[engine].id;
            let h = g + (if left {
                seq![word]
            } else {
                Seq::empty()
            });
            let k = h + seq![Answer::Position(stored)];
            let start = start_for(track, stored);
            &&& restart ==> wants(
                play_track_of(p, f, 0, track, restart),
                ActionView::ClearResume(track.id),
            )
            &&& left ==> wants(
                play_track_of(p, g, 0, track, restart),
                call(p.active->0, EngineCall::Stop),
            )
            &&& wants(play_track_of(p, h, 0, track, restart), ActionView::ResumeFor(track.id))
            &&& wants(
                play_track_of(p, k, 0, track, restart),
                call(engine as usize, EngineCall::Load { path: track.path, start_at: start }),
            )
            &&& wants(
                play_track_of(p, k + seq![Answer::Finished], 0, track, restart),
                ActionView::MarkPlayed(track.id),
            )
            &&& leaves(
                play_track_of(p, k + seq![Answer::Finished, Answer::Finished], 0, track, restart),
                PlayerView {
                    active: Some(engine as usize),
                    current: Some(track),
                    last_written: match start {
                        Some(s) => s,
                        None => Fixed::Nanos(0),
                    },
                    ..p
                },
            )
        }),
{
    let f = saving(p, snap);
    let g = f + (if restart {
        seq![Answer::Finished]
    } else {
        Seq::empty()
    });
    let left = p.active is Some && p.registry.engines[p.active->0 as int].id
        != p.registry.engines[engine].id;
    let h = g + (if left {
        seq![word]
    } else {
        Seq::empty()
    });
    let k = h + seq![Answer::Position(stored)];
    let l = k + seq![Answer::Finished];
    let m = k + seq![Answer::Finished, Answer::Finished];
    let q = saved(p, snap);
    let n = g.len() as int;
    lemma_playing(p, snap, f, track, restart, engine);
    lemma_playing(p, snap, g, track, restart, engine);
    lemma_playing(p, snap, h, track, restart, engine);
    lemma_playing(p, snap, k, track, restart, engine);
    lemma_playing(p, snap, l, track, restart, engine);
    lemma_playing(p, snap, m, track, restart, engine);
    lemma_loading(q, g, n, track, engine, stored);
    lemma_loading(q, h, n, track, engine, stored);
    lemma_loading(q, k, n, track, engine, stored);
    lemma_loading(q, l, n, track, engine, stored);
    lemma_loading(q, m, n, track, engine, stored);
}

/// A track that no engine may play is not loaded: what played is saved, and the
/// reason is told.
pub proof fn law_unplayable_track_is_refused(
    p: PlayerView,
    snap: EngineSnapshot,
    track: Track,
    e: ErrorView,
)
    requires
        p.registry.chosen(track.path@) == Choice::Failed(e),
    ensures
        play_track_of(p, saving(p, snap), 0, track, false).end == Progress::<
            ActionView,
            (),
            ErrorView,
        >::Failed(e),
{
}

/// Upkeep looks at the engine that is addressed. A length that was not known is
/// learned from it first.
pub proof fn law_upkeep_learns_the_length(p: PlayerView, snap: EngineSnapshot, length: Fixed)
    requires
        p.active is Some,
        p.current is Some,
        p.current->0.duration_secs is None,
        snap.duration_secs == Some(length),
    ensures
        wants(tick_of(p, Seq::empty(), 0), call(p.active->0, EngineCall::Snapshot)),
        wants(
            tick_of(p, seq![Answer::Snapshot(snap)], 0),
            ActionView::SetDuration(p.current->0.id, length),
        ),
        ({
            let o = tick_of(p, seq![Answer::Snapshot(snap), Answer::Finished], 0);
            o.state.current == Some(Track { duration_secs: Some(length), ..p.current->0 })
        }),
{
}

/// Upkeep writes the position as playback goes on: exactly where it is fifteen
/// seconds or more from what was written last, on either side. Where it is not worth
/// keeping, what was written is cleared.
pub proof fn law_upkeep_follows_playback(p: PlayerView, snap: EngineSnapshot, a: i128, b: i128)
    requires
        p.active is Some,
        p.current is Some,
        p.current->0.duration_secs is Some || snap.duration_secs is None,
        !snap.eof,
        snap.position_secs == Some(Fixed::Nanos(a)),
        p.last_written == Fixed::Nanos(b),
    ensures
        ({
            let look = seq![Answer::Snapshot(snap)];
            let told = seq![Answer::Snapshot(snap), Answer::Finished];
            let far = a >= b + 15_000_000_000 || a <= b - 15_000_000_000;
            &&& far && is_due(p, snap) ==> wants(
                tick_of(p, look, 0),
                ActionView::SetResume(p.current->0.id, Fixed::Nanos(a)),
            )
            &&& far && !is_due(p, snap) ==> wants(
                tick_of(p, look, 0),
                ActionView::ClearResume(p.current->0.id),
            )
            &&& far ==> leaves(
                tick_of(p, told, 0),
                PlayerView { last_written: Fixed::Nanos(a), ..p },
            )
            &&& !far ==> leaves(tick_of(p, look, 0), p)
        }),
{
}

/// After upkeep that was not at the end of a file, what was written last is less
/// than fifteen seconds from where playback is.
pub proof fn law_written_position_is_near(
    p: PlayerView,
    said: Seq<Answer>,
    snap: EngineSnapshot,
    a: i128,
)
    requires
        p.active is Some,
        p.current is Some,
        said.len() > 0,
        said[0] == Answer::Snapshot(snap),
        !snap.eof,
        snap.position_secs == Some(Fixed::Nanos(a)),
        tick_of(p, said, 0).end is Done,
    ensures
        tick_of(p, said, 0).state.last_written matches Fixed::Nanos(b) && -15_000_000_000 < a - b
            < 15_000_000_000,
{
}

/// The first upkeep after a track was taken over, when nothing counts as written,
/// writes its position.
pub proof fn law_first_upkeep_writes(p: PlayerView, snap: EngineSnapshot)
    requires
        p.active is Some,
        p.current is Some,
        p.current->0.duration_secs is Some || snap.duration_secs is None,
        !snap.eof,
        is_due(p, snap),
        p.last_written is NaN,
    ensures
        wants(
            tick_of(p, seq![Answer::Snapshot(snap)], 0),
            ActionView::SetResume(p.current->0.id, snap.position_secs->0),
        ),
{
}

/// Where nothing is addressed, upkeep does nothing; where nothing is current, or the
/// engine does not say where it is, it writes nothing.
pub proof fn law_idle_upkeep_does_nothing(p: PlayerView, snap: EngineSnapshot)
    requires
        !snap.eof,
        p.current is None || (snap.position_secs is None && (p.current->0.duration_secs is Some
            || snap.duration_secs is None)),
    ensures
        p.active is None ==> leaves(tick_of(p, Seq::empty(), 0), p),
        p.active is Some ==> leaves(tick_of(p, seq![Answer::Snapshot(snap)], 0), p),
{
}

/// Whether an operation, after the answers `front`, stores a queue with the rules
/// that go with it.
pub open spec fn stores_queue<T>(
    op: spec_fn(Seq<Answer>) -> Run<T>,
    front: Seq<Answer>,
    items: Seq<i64>,
    current: Option<usize>,
    queue: QueueView,
) -> bool {
    &&& wants(op(front), ActionView::SaveQueue { items, current })
    &&& wants(
        op(front + seq![Answer::Finished]),
        ActionView::SetSetting { key: SettingKey::Repeat, value: mode_text(queue.repeat) },
    )
    &&& wants(
        op(front + seq![Answer::Finished, Answer::Finished]),
        ActionView::SetSetting { key: SettingKey::Loop, value: loop_text(queue.loop_set) },
    )
}

/// The answers to storing a queue.
pub open spec fn stored() -> Seq<Answer> {
    seq![Answer::Finished, Answer::Finished, Answer::Finished]
}

/// Going on, once the position is saved: the row that comes next is stored as the
/// current one, and its track is looked up. Where there is no next row, the selection
/// stays, and the engine is stopped.
pub proof fn law_going_on(p: PlayerView, snap: EngineSnapshot)
    ensures
        ({
            let to = p.queue.next_position();
            let f = saving(p, snap);
            let g = f + stored();
            let row = if to is Some {
                to
            } else {
                p.queue.current
            };
            &&& stores_queue(|s: Seq<Answer>| next_of(p, s, 0), f, p.queue.items, row, p.queue)
            &&& to is Some ==> wants(
                next_of(p, g, 0),
                ActionView::TrackById(p.queue.items[to->0 as int]),
            )
            &&& to is Some ==> next_of(p, g + seq![Answer::Track(None)], 0).end is Failed
            &&& to is None && p.active is Some ==> wants(
                next_of(p, g + saving(saved(p, snap), snap), 0),
                call(p.active->0, EngineCall::Stop),
            )
            &&& to is None && p.active is None ==> next_of(p, g, 0).end == Progress::<
                ActionView,
                Option<Track>,
                ErrorView,
            >::Done(None)
        }),
{
}

/// Going back, in the same way, to the row before.
pub proof fn law_going_back(p: PlayerView, snap: EngineSnapshot)
    ensures
        ({
            let to = p.queue.previous_position();
            let f = saving(p, snap);
            let g = f + stored();
            let row = if to is Some {
                to
            } else {
                p.queue.current
            };
            &&& stores_queue(|s: Seq<Answer>| previous_of(p, s, 0), f, p.queue.items, row, p.queue)
            &&& to is Some ==> wants(
                previous_of(p, g, 0),
                ActionView::TrackById(p.queue.items[to->0 as int]),
            )
            &&& to is Some ==> previous_of(p, g + seq![Answer::Track(None)], 0).end is Failed
            &&& to is None && p.active is Some ==> wants(
                previous_of(p, g + saving(saved(p, snap), snap), 0),
                call(p.active->0, EngineCall::Stop),
            )
            &&& to is None && p.active is None ==> previous_of(p, g, 0).end == Progress::<
                ActionView,
                Option<Track>,
                ErrorView,
            >::Done(None)
        }),
{
}

/// Saving a position changes nothing but what counts as written.
proof fn lemma_saving_keeps_the_rest(p: PlayerView, said: Seq<Answer>, at: int)
    ensures
        ({
            let q = persist_resume_of(p, said, at).state;
            q == (PlayerView { last_written: q.last_written, ..p })
        }),
{
}

/// Storing a queue changes nothing but the queue.
proof fn lemma_storing_keeps_the_rest(
    p: PlayerView,
    said: Seq<Answer>,
    at: int,
    queue: QueueView,
)
    ensures
        requeued(p, said, at, queue).state == p.with_queue(queue),
{
}

/// A track that has been played is current, and the queue is as it was.
proof fn lemma_played(p: PlayerView, said: Seq<Answer>, at: int, track: Track, restart: bool)
    ensures
        play_track_of(p, said, at, track, restart).end is Done ==> {
            let q = play_track_of(p, said, at, track, restart).state;
            &&& q.current == Some(track)
            &&& q.queue == p.queue
            &&& q.registry == p.registry
        },
{
    if play_track_of(p, said, at, track, restart).end is Done {
        crate::player_laws::law_played_track_is_current(p, said, at, track, restart);
    }
}

/// Stopping leaves nothing current, and the queue as it was.
proof fn lemma_stopped(p: PlayerView, said: Seq<Answer>, at: int)
    ensures
        stop_of(p, said, at).end is Done ==> {
            let q = stop_of(p, said, at).state;
            q == (PlayerView { current: None, last_written: Fixed::NaN, ..p })
        },
{
    lemma_saving_keeps_the_rest(p, said, at);
}

/// On to a row that was looked up, or stopped.
proof fn lemma_walked(p: PlayerView, said: Seq<Answer>, at: int, to: Option<usize>)
    ensures
        walk_of(p, said, at, to).end matches Progress::Done(found) ==> {
            let q = walk_of(p, said, at, to).state;
            &&& q.current == found
            &&& found is Some <==> to is Some
            &&& q.queue == p.queue.gone_to(to)
            &&& q.registry == p.registry
        },
{
    let queue = p.queue.gone_to(to);
    let o = requeued(p, said, at, queue);
    lemma_storing_keeps_the_rest(p, said, at, queue);
    if o.end is Done {
        match to {
            Some(c) => {
                if 0 <= o.at < said.len() {
                    if let Answer::Track(Some(track)) = said[o.at] {
                        lemma_played(o.state, said, o.at + 1, track, false);
                    }
                }
            },
            None => {
                lemma_stopped(o.state, said, o.at);
            },
        }
    }
}

/// When the walk has come to its end, the track it came to is current, in the row it
/// went to; the rest of the queue is as it was.
pub proof fn law_walk_plays_its_row(p: PlayerView, said: Seq<Answer>, forward: bool)
    ensures
        ({
            let to = if forward {
                p.queue.next_position()
            } else {
                p.queue.previous_position()
            };
            let o = if forward {
                next_of(p, said, 0)
            } else {
                previous_of(p, said, 0)
            };
            o.end matches Progress::Done(found) ==> {
                &&& o.state.current == found
                &&& found is Some <==> to is Some
                &&& o.state.queue == (QueueView {
                    current: if to is Some {
                        to
                    } else {
                        p.queue.current
                    },
                    ..p.queue
                })
                &&& o.state.registry == p.registry
            }
        }),
{
    let a = persist_resume_of(p, said, 0);
    lemma_saving_keeps_the_rest(p, said, 0);
    lemma_walked(
        a.state,
        said,
        a.at,
        if forward {
            p.queue.next_position()
        } else {
            p.queue.previous_position()
        },
    );
}

/// The end of a file: its position is cleared, the row that comes next is stored as
/// the current one, and its track is looked up. A queue that repeats one track stays
/// on its row.
pub proof fn law_end_of_file(p: PlayerView, snap: EngineSnapshot)
    requires
        p.active is Some,
        p.current is Some,
        p.current->0.duration_secs is Some || snap.duration_secs is None,
        snap.eof,
        p.queue.current matches Some(c) ==> c < p.queue.items.len(),
    ensures
        ({
            let one = p.queue.repeat == RepeatMode::One;
            let to = if one {
                p.queue.current
            } else {
                p.queue.next_position()
            };
            let row = if to is Some {
                to
            } else {
                p.queue.current
            };
            let f = seq![Answer::Snapshot(snap), Answer::Finished];
            let g = f + stored();
            &&& wants(
                tick_of(p, seq![Answer::Snapshot(snap)], 0),
                ActionView::ClearResume(p.current->0.id),
            )
            &&& stores_queue(|s: Seq<Answer>| tick_of(p, s, 0), f, p.queue.items, row, p.queue)
            &&& to is Some ==> wants(
                tick_of(p, g, 0),
                ActionView::TrackById(p.queue.items[to->0 as int]),
            )
            &&& to is None ==> wants(tick_of(p, g, 0), call(p.active->0, EngineCall::Snapshot))
        }),
{
}

proof fn lemma_ended(p: PlayerView, said: Seq<Answer>, at: int)
    ensures
        end_of_file_of(p, said, at).end is Done ==> {
            let q = end_of_file_of(p, said, at).state;
            let (queue, id) = after_eof(p.queue);
            &&& q.queue == queue
            &&& id is None ==> q.current is None
            &&& q.registry == p.registry
        },
{
    let a = match p.current {
        Some(track) => does(p, said, at, ActionView::ClearResume(track.id)),
        None => ends(p, at, ()),
    };
    if a.end is Done {
        let (queue, id) = after_eof(p.queue);
        let w = p.written(Fixed::NaN);
        let b = requeued(w, said, a.at, queue);
        lemma_storing_keeps_the_rest(w, said, a.at, queue);
        if b.end is Done {
            if id is Some && 0 <= b.at < said.len() {
                match said[b.at] {
                    Answer::Track(Some(track)) => {
                        lemma_played(b.state, said, b.at + 1, track, false);
                    },
                    _ => {
                        lemma_stopped(b.state, said, b.at + 1);
                    },
                }
            }
            lemma_stopped(b.state, said, b.at);
        }
    }
}

/// What the end of a file comes to: the next row's track is current, or nothing is.
pub proof fn law_end_of_file_moves_on(p: PlayerView, said: Seq<Answer>, snap: EngineSnapshot)
    requires
        p.active is Some,
        said.len() > 0,
        said[0] == Answer::Snapshot(snap),
        snap.eof,
        tick_of(p, said, 0).end is Done,
    ensures
        ({
            let q = tick_of(p, said, 0).state;
            let to = if p.queue.repeat == RepeatMode::One {
                p.queue.current
            } else {
                p.queue.next_position()
            };
            &&& q.queue == (QueueView {
                current: if to is Some {
                    to
                } else {
                    p.queue.current
                },
                ..p.queue
            })
            &&& to is None ==> q.current is None
            &&& q.registry == p.registry
        }),
{
    let a = learn_duration_of(p, said, 1, snap);
    assert(a.state.queue == p.queue && a.state.registry == p.registry);
    lemma_ended(a.state, said, a.at);
    assert(tick_of(p, said, 0).end == end_of_file_of(a.state, said, a.at).end);
    assert(tick_of(p, said, 0).state == end_of_file_of(a.state, said, a.at).state);
}

/// The first row that holds an id.
pub open spec fn is_first_row(items: Seq<i64>, id: i64, row: usize) -> bool {
    &&& row < items.len()
    &&& items[row as int] == id
    &&& forall|k: int| 0 <= k < row ==> items[k] != id
}

/// Starting a track of the queue selects its first row and stores that. Its id is
/// looked up first; one that the library does not have is no match.
pub proof fn law_starting_a_queued_track(
    p: PlayerView,
    id: i64,
    restart: bool,
    row: usize,
    track: Track,
)
    requires
        is_first_row(p.queue.items, id, row),
    ensures
        wants(start_track_of(p, Seq::empty(), 0, id, restart), ActionView::TrackById(id)),
        start_track_of(p, seq![Answer::Track(None)], 0, id, restart).end matches Progress::Failed(
            ErrorView::NoMatch { query: _ },
        ),
        stores_queue(
            |s: Seq<Answer>| start_track_of(p, s, 0, id, restart),
            seq![Answer::Track(Some(track))],
            p.queue.items,
            Some(row),
            p.queue,
        ),
{
    lemma_first_row(p.queue.items, id, row);
}

proof fn lemma_first_row(items: Seq<i64>, id: i64, row: usize)
    requires
        is_first_row(items, id, row),
    ensures
        items.contains(id),
        items.index_of_first(id) == Some(row as int),
{
    assert(items[row as int] == id);
    items.index_of_first_ensures(id);
}

/// Starting a track that is not in the queue puts it at its end, and selects it.
pub proof fn law_starting_another_track(
    p: PlayerView,
    id: i64,
    restart: bool,
    track: Track,
    seed: u64,
)
    requires
        !p.queue.items.contains(id),
        p.queue.items.len() < usize::MAX,
    ensures
        wants(
            start_track_of(p, seq![Answer::Track(Some(track))], 0, id, restart),
            ActionView::Seed,
        ),
        stores_queue(
            |s: Seq<Answer>| start_track_of(p, s, 0, id, restart),
            seq![Answer::Track(Some(track)), Answer::Seed(seed)],
            p.queue.items + seq![id],
            Some(p.queue.items.len() as usize),
            p.queue,
        ),
{
    let items = p.queue.items + seq![id];
    assert(items[p.queue.items.len() as int] == id);
    lemma_first_row(items, id, p.queue.items.len() as usize);
}

/// When a track has been started, it is current, and it is what was looked up.
pub proof fn law_started_track_is_current(
    p: PlayerView,
    said: Seq<Answer>,
    id: i64,
    restart: bool,
)
    ensures
        start_track_of(p, said, 0, id, restart).end matches Progress::Done(track) ==> {
            &&& start_track_of(p, said, 0, id, restart).state.current == Some(track)
            &&& said[0] == Answer::Track(Some(track))
        },
{
    if 0 < said.len() {
        if let Answer::Track(Some(track)) = said[0] {
            let a = choose_row_of(p, said, 1, id);
            if a.end is Done {
                let b = persist_queue_of(a.state, said, a.at);
                if b.end is Done {
                    lemma_played(b.state, said, b.at, track, restart);
                }
            }
        }
    }
}

/// A file that is played makes up the whole queue, and is selected in it.
pub proof fn law_played_file_is_the_queue(p: PlayerView, said: Seq<Answer>, path: Seq<char>)
    ensures
        play_path_of(p, said, 0, path).end matches Progress::Done(track) ==> {
            let q = play_path_of(p, said, 0, path).state;
            &&& q.queue.items == seq![track.id]
            &&& q.queue.current == Some(0usize)
            &&& q.queue.loop_set is None
            &&& q.queue.repeat == p.queue.repeat
            &&& q.queue.shuffle == p.queue.shuffle
            &&& q.current == Some(track)
        },
{
    let a = ensure_indexed_of(p, said, 0, path);
    assert(a.state == p);
    if let Progress::Done(track) = a.end {
        let b = set_queue_of(p, said, a.at, seq![track.id], Some(0));
        if b.end is Done {
            lemma_played(b.state, said, b.at, track, false);
        }
    }
}

/// The track that a search finds is the library's best match; none is no match.
pub proof fn law_finding(p: PlayerView, query: Seq<char>, track: Track)
    ensures
        wants(find_track_of(p, Seq::empty(), 0, query), ActionView::Search(query)),
        find_track_of(p, seq![Answer::Track(Some(track))], 0, query).end == Progress::<
            ActionView,
            Track,
            ErrorView,
        >::Done(track),
        find_track_of(p, seq![Answer::Track(None)], 0, query).end == Progress::<
            ActionView,
            Track,
            ErrorView,
        >::Failed(ErrorView::NoMatch { query }),
{
}

} // verus!
