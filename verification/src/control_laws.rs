//! What the other operations of the player come to, answer by answer: seeking and
//! the window, the queue and its rules, the library, and what is shown.

use vstd::prelude::*;

use crate::engine::EngineSnapshot;
use crate::error::ErrorView;
use crate::fixed::Fixed;
use crate::layout::{layout_text, VideoWindowLayout};
use crate::library::ScanReport;
use crate::playback_laws::{call, leaves, stored, stores_queue, wants};
use crate::player_model::{
    begin_placement_of, command_of, ensure_indexed_of, folder_tracks_of, ids_of, layout_setting_of,
    prune_of, queue_add_of, queue_move_of, queue_scramble_of, queue_tracks_of, requeued, rescan_of,
    seek_relative_of, set_layout_of, set_loop_of, set_policy_of, set_queue_of, set_repeat_of,
    set_shuffle_of, stage_path_of, status_of, tell_all_of, toggle_video_of, ActionView, Answer,
    EngineCall, PlayerView, Run, SettingKey,
};
use crate::probe::Probed;
use crate::queue::{mode_text, QueueView, RepeatMode};
use crate::script::Progress;
use crate::selection::{policy_text, PolicyView, RegistryView};
use crate::store::ScannedFile;
use crate::track::{media_extension, path_extension, Track};

verus! {

/// Whether a run is over with this.
pub open spec fn gives<T>(o: Run<T>, t: T) -> bool {
    o.end == Progress::<ActionView, T, ErrorView>::Done(t)
}

/// Whether a run has failed with this.
pub open spec fn refuses<T>(o: Run<T>, e: ErrorView) -> bool {
    o.end == Progress::<ActionView, T, ErrorView>::Failed(e)
}

/// A call goes to the engine that is addressed, as it is; where none is, nothing is
/// playing.
pub proof fn law_calls_go_to_the_addressed_engine(p: PlayerView, c: EngineCall)
    ensures
        p.active is None ==> refuses(
            command_of(p, Seq::empty(), 0, c),
            ErrorView::NothingPlaying,
        ),
        p.active is Some ==> wants(command_of(p, Seq::empty(), 0, c), call(p.active->0, c)),
        p.active is Some ==> leaves(command_of(p, seq![Answer::Finished], 0, c), p),
{
}

/// A relative seek goes as far from where playback is as it was asked to, but not
/// before the start, and not past the end where that is known. It says where it went.
pub proof fn law_seeking_by_a_distance(p: PlayerView, snap: EngineSnapshot, a: i128, by: i128)
    requires
        p.active is Some,
        snap.position_secs == Some(Fixed::Nanos(a)) || (snap.position_secs is None && a == 0),
        i128::MIN <= a + by <= i128::MAX,
        snap.duration_secs is None || (snap.duration_secs matches Some(Fixed::Nanos(d)) && d >= 0),
    ensures
        ({
            let there = a + by;
            let target = if there < 0 {
                0
            } else if snap.duration_secs is Some && there > snap.duration_secs->0->Nanos_0 {
                snap.duration_secs->0->Nanos_0 as int
            } else {
                there
            };
            let to = Fixed::Nanos(target as i128);
            let look = seq![Answer::Snapshot(snap)];
            &&& wants(
                seek_relative_of(p, Seq::empty(), 0, Fixed::Nanos(by)),
                call(p.active->0, EngineCall::Snapshot),
            )
            &&& wants(
                seek_relative_of(p, look, 0, Fixed::Nanos(by)),
                call(p.active->0, EngineCall::SeekAbsolute(to)),
            )
            &&& gives(
                seek_relative_of(p, look + seq![Answer::Finished], 0, Fixed::Nanos(by)),
                to,
            )
        }),
{
}

/// The picture is popped out where it is not, and taken back where it is.
pub proof fn law_toggling_the_picture(p: PlayerView, snap: EngineSnapshot)
    requires
        p.active is Some,
        snap.has_video,
    ensures
        ({
            let look = seq![Answer::Snapshot(snap)];
            &&& wants(
                toggle_video_of(p, look, 0),
                call(p.active->0, EngineCall::SetVideoVisible(!snap.video_visible)),
            )
            &&& gives(
                toggle_video_of(p, look + seq![Answer::Finished], 0),
                !snap.video_visible,
            )
            &&& leaves(toggle_video_of(p, look + seq![Answer::Finished], 0), p)
        }),
{
}

/// Every engine is told the same, in order.
pub proof fn law_all_engines_are_told(
    p: PlayerView,
    said: Seq<Answer>,
    at: int,
    c: EngineCall,
    i: int,
)
    requires
        0 <= at <= said.len(),
        0 <= i <= p.registry.engines.len(),
        said.len() - at <= p.registry.engines.len() - i,
        forall|k: int| at <= k < said.len() ==> (#[trigger] said[k]) is Finished,
    ensures
        said.len() - at < p.registry.engines.len() - i ==> wants(
            tell_all_of(p, said, at, c, i),
            call((i + (said.len() - at)) as usize, c),
        ),
        said.len() - at == p.registry.engines.len() - i ==> leaves(
            tell_all_of(p, said, at, c, i),
            p,
        ),
    decreases said.len() - at,
{
    if at < said.len() {
        assert(said[at] is Finished);
        law_all_engines_are_told(p, said, at + 1, c, i + 1);
    }
}

/// A layout is stored in its settings form, and then every engine is told of it.
pub proof fn law_setting_a_layout(
    p: PlayerView,
    layout: VideoWindowLayout,
    more: Seq<Answer>,
)
    requires
        more.len() <= p.registry.engines.len(),
        forall|k: int| 0 <= k < more.len() ==> (#[trigger] more[k]) is Finished,
    ensures
        wants(
            set_layout_of(p, Seq::empty(), 0, layout),
            ActionView::SetSetting { key: SettingKey::VideoWindow, value: layout_text(layout) },
        ),
        more.len() < p.registry.engines.len() ==> wants(
            set_layout_of(p, seq![Answer::Finished] + more, 0, layout),
            call(more.len() as usize, EngineCall::SetLayout(layout)),
        ),
        more.len() == p.registry.engines.len() ==> leaves(
            set_layout_of(p, seq![Answer::Finished] + more, 0, layout),
            p,
        ),
{
    let said = seq![Answer::Finished] + more;
    assert forall|k: int| 1 <= k < said.len() implies (#[trigger] said[k]) is Finished by {
        assert(said[k] == more[k - 1]);
    }
    law_all_engines_are_told(p, said, 1, EngineCall::SetLayout(layout), 0);
}

/// The layout that was chosen is the one that is stored.
pub proof fn law_layout_is_read_back(p: PlayerView, text: String, layout: VideoWindowLayout)
    requires
        crate::layout::settled(layout),
        text@ == layout_text(layout),
    ensures
        wants(
            layout_setting_of(p, Seq::empty(), 0),
            ActionView::Setting(SettingKey::VideoWindow),
        ),
        gives(layout_setting_of(p, seq![Answer::Text(Some(text))], 0), Some(layout)),
        gives(layout_setting_of(p, seq![Answer::Text(None)], 0), None),
{
    crate::layout::law_layout_round_trips(layout);
}

/// The engines are asked for a window to place in order; the first that shows one
/// says by which process.
pub proof fn law_first_window_is_placed(
    p: PlayerView,
    said: Seq<Answer>,
    at: int,
    i: int,
)
    requires
        0 <= at <= said.len(),
        0 <= i <= p.registry.engines.len(),
        said.len() - at <= p.registry.engines.len() - i,
        forall|k: int| at <= k < said.len() - 1 ==> (#[trigger] said[k]) == Answer::Process(None),
    ensures
        said.len() == at && i < p.registry.engines.len() ==> wants(
            begin_placement_of(p, said, at, i),
            call(i as usize, EngineCall::BeginPlacement),
        ),
        said.len() > at && said.last() is Process ==> {
            let answer = said.last()->Process_0;
            &&& answer is Some ==> gives(begin_placement_of(p, said, at, i), answer)
            &&& answer is None && said.len() - at < p.registry.engines.len() - i ==> wants(
                begin_placement_of(p, said, at, i),
                call((i + (said.len() - at)) as usize, EngineCall::BeginPlacement),
            )
            &&& answer is None && said.len() - at == p.registry.engines.len() - i ==> gives(
                begin_placement_of(p, said, at, i),
                None,
            )
        },
        begin_placement_of(p, said, at, i).state == p,
    decreases said.len() - at,
{
    if at < said.len() && i < p.registry.engines.len() {
        if said[at] == Answer::Process(None) {
            law_first_window_is_placed(p, said, at + 1, i + 1);
        }
    }
}

/// A queue that is set is stored with the row that was selected, if it has that row,
/// and without a loop. Repeat mode and shuffle stay.
pub proof fn law_setting_the_queue(
    p: PlayerView,
    ids: Seq<i64>,
    start: Option<usize>,
    seed: u64,
)
    ensures
        ({
            let s = seq![Answer::Seed(seed)];
            let row = if start is Some && start->0 < ids.len() {
                start
            } else {
                None
            };
            let o = set_queue_of(p, s + stored(), 0, ids, start);
            &&& wants(set_queue_of(p, Seq::empty(), 0, ids, start), ActionView::Seed)
            &&& stores_queue(
                |t: Seq<Answer>| set_queue_of(p, t, 0, ids, start),
                s,
                ids,
                row,
                QueueView { loop_set: None, ..p.queue },
            )
            &&& o.end is Done
            &&& o.state.queue.items == ids
            &&& o.state.queue.current == row
            &&& o.state.queue.loop_set is None
            &&& o.state.queue.repeat == p.queue.repeat
            &&& o.state.queue.shuffle == p.queue.shuffle
            &&& o.state.current == p.current
            &&& o.state.active == p.active
        }),
{
}

/// Tracks that are added go to the end of the queue. What is selected, and what
/// plays, stays.
pub proof fn law_adding_to_the_queue(p: PlayerView, ids: Seq<i64>, seed: u64)
    requires
        p.queue.items.len() + ids.len() <= usize::MAX,
    ensures
        ({
            let s = seq![Answer::Seed(seed)];
            let o = queue_add_of(p, s + stored(), 0, ids);
            &&& stores_queue(
                |t: Seq<Answer>| queue_add_of(p, t, 0, ids),
                s,
                p.queue.items + ids,
                p.queue.current,
                p.queue,
            )
            &&& o.end is Done
            &&& o.state.queue.items == p.queue.items + ids
            &&& o.state.queue.current == p.queue.current
            &&& o.state.queue.loop_set == p.queue.loop_set
            &&& o.state.current == p.current
            &&& o.state.active == p.active
        }),
{
    assert(p.queue.items + Seq::<i64>::empty() =~= p.queue.items);
    if ids.len() == 0 {
        assert(ids =~= Seq::<i64>::empty());
    }
}

/// A file that is staged goes to the top of the queue, and the selection moves down
/// with its row. Nothing is played.
pub proof fn law_staging(p: PlayerView, said: Seq<Answer>, path: Seq<char>)
    requires
        p.queue.wf(),
        stage_path_of(p, said, 0, path).end is Done,
    ensures
        ({
            let o = stage_path_of(p, said, 0, path);
            let tracks = o.end->Done_0;
            &&& o.state.queue.items == ids_of(tracks) + p.queue.items
            &&& p.queue.current is None ==> o.state.queue.current is None
            &&& p.queue.current matches Some(c) ==> o.state.queue.current == Some(
                (c + tracks.len()) as usize,
            )
            &&& o.state.queue.repeat == p.queue.repeat
            &&& o.state.queue.shuffle == p.queue.shuffle
            &&& o.state.current == p.current
            &&& o.state.active == p.active
        }),
{
    let a = crate::player_model::staged_of(p, said, 0, path);
    assert(a.state == p);
    if let Progress::Done(tracks) = a.end {
        if tracks.len() == 0 {
            assert(ids_of(tracks) + p.queue.items =~= p.queue.items);
        }
        assert(ids_of(tracks).len() == tracks.len());
        assert(ids_of(tracks) =~= Seq::new(tracks.len(), |i: int| tracks[i].id));
    }
}

/// What is staged of a folder is what the library has under it, once it has been
/// scanned; a folder without anything is no match.
pub proof fn law_folders_are_scanned_first(
    p: PlayerView,
    path: Seq<char>,
    root: String,
    report: ScanReport,
    found: Vec<Track>,
)
    ensures
        ({
            let a = seq![Answer::Path(root)];
            let b = seq![Answer::Path(root), Answer::Report(report)];
            let c = seq![Answer::Path(root), Answer::Report(report), Answer::Tracks(found)];
            &&& wants(folder_tracks_of(p, Seq::empty(), 0, path), ActionView::Canonical(path))
            &&& wants(folder_tracks_of(p, a, 0, path), ActionView::ScanFolder(root@))
            &&& wants(folder_tracks_of(p, b, 0, path), ActionView::TracksUnder(root@))
            &&& found@.len() > 0 ==> gives(folder_tracks_of(p, c, 0, path), found@)
            &&& found@.len() == 0 ==> refuses(
                folder_tracks_of(p, c, 0, path),
                ErrorView::NoMatch { query: root@ },
            )
        }),
{
}

/// A row that is moved is stored where it was moved to; a move that goes nowhere
/// changes nothing and stores nothing.
pub proof fn law_moving(p: PlayerView, from: usize, to: usize, seed: u64)
    requires
        p.queue.wf(),
    ensures
        ({
            let effective = from < p.queue.items.len() && to < p.queue.items.len() && from != to;
            let s = seq![Answer::Seed(seed)];
            let o = queue_move_of(p, s + stored(), 0, from, to);
            &&& !effective ==> gives(queue_move_of(p, Seq::empty(), 0, from, to), false) && leaves(
                queue_move_of(p, Seq::empty(), 0, from, to),
                p,
            )
            &&& effective ==> {
                &&& gives(o, true)
                &&& o.state.queue.items.len() == p.queue.items.len()
                &&& o.state.queue.items[to as int] == p.queue.items[from as int]
                &&& o.state.queue.items.remove(to as int) == p.queue.items.remove(from as int)
                &&& p.queue.current == Some(from) ==> o.state.queue.current == Some(to)
                &&& wants(
                    queue_move_of(p, s, 0, from, to),
                    ActionView::SaveQueue {
                        items: o.state.queue.items,
                        current: o.state.queue.current,
                    },
                )
                &&& o.state.current == p.current
                &&& o.state.active == p.active
            }
        }),
{
    if from < p.queue.items.len() && to < p.queue.items.len() && from != to {
        let rest = p.queue.items.remove(from as int);
        let x = p.queue.items[from as int];
        p.queue.items.remove_ensures(from as int);
        rest.insert_ensures(to as int, x);
        assert(rest.insert(to as int, x).remove(to as int) =~= rest);
    }
}

/// A scramble is stored, with the selection on the track it was on.
pub proof fn law_scrambling(
    p: PlayerView,
    chosen: Option<Seq<usize>>,
    a: u64,
    b: u64,
)
    requires
        p.queue.wf(),
    ensures
        ({
            let s = seq![Answer::Seed(a), Answer::Seed(b)];
            let o = queue_scramble_of(p, s + stored(), 0, chosen);
            &&& o.end is Done
            &&& wants(
                queue_scramble_of(p, s, 0, chosen),
                ActionView::SaveQueue {
                    items: o.state.queue.items,
                    current: o.state.queue.current,
                },
            )
            &&& o.state.queue.playing() == p.queue.playing()
            &&& o.state.queue.items.to_multiset() == p.queue.items.to_multiset()
            &&& o.state.current == p.current
            &&& o.state.active == p.active
        }),
{
    crate::queue_laws::law_scramble_permutes_the_chosen_rows(p.queue, chosen, a, b);
}

/// A repeat mode takes effect and is stored, and a loop with it ends. Both are
/// stored.
pub proof fn law_setting_repeat(p: PlayerView, mode: RepeatMode)
    ensures
        ({
            let two = seq![Answer::Finished, Answer::Finished];
            &&& wants(
                set_repeat_of(p, Seq::empty(), 0, mode),
                ActionView::SetSetting { key: SettingKey::Repeat, value: mode_text(mode) },
            )
            &&& wants(
                set_repeat_of(p, seq![Answer::Finished], 0, mode),
                ActionView::SetSetting { key: SettingKey::Loop, value: Seq::empty() },
            )
            &&& leaves(
                set_repeat_of(p, two, 0, mode),
                PlayerView {
                    queue: QueueView { repeat: mode, loop_set: None, ..p.queue },
                    ..p
                },
            )
        }),
{
}

/// A loop over rows that are there takes effect, and ends a repeat mode. Both are
/// stored.
pub proof fn law_setting_a_loop(p: PlayerView, chosen: Seq<usize>)
    requires
        p.queue.wf(),
    ensures
        ({
            let two = seq![Answer::Finished, Answer::Finished];
            let q = set_loop_of(p, two, 0, Some(chosen)).state.queue;
            let effective = exists|row: usize| #[trigger]
                chosen.contains(row) && row < p.queue.items.len();
            &&& set_loop_of(p, two, 0, Some(chosen)).end is Done
            &&& effective ==> q.loop_set is Some && q.repeat == RepeatMode::Off
            &&& effective ==> forall|row: usize| #[trigger]
                q.loop_set->0.contains(row) <==> chosen.contains(row) && row < p.queue.items.len()
            &&& !effective ==> q.loop_set is None && q.repeat == p.queue.repeat
            &&& q.items == p.queue.items
            &&& q.current == p.queue.current
            &&& q.shuffle == p.queue.shuffle
            &&& wants(
                set_loop_of(p, Seq::empty(), 0, Some(chosen)),
                ActionView::SetSetting { key: SettingKey::Repeat, value: mode_text(q.repeat) },
            )
            &&& wants(
                set_loop_of(p, seq![Answer::Finished], 0, Some(chosen)),
                ActionView::SetSetting {
                    key: SettingKey::Loop,
                    value: crate::player_model::loop_text(q.loop_set),
                },
            )
            &&& leaves(
                set_loop_of(p, two, 0, None),
                PlayerView { queue: QueueView { loop_set: None, ..p.queue }, ..p },
            )
        }),
{
    crate::queue::lemma_slots(chosen, p.queue.items.len());
    let set = crate::queue::slots(chosen, p.queue.items.len());
    if set.len() > 0 {
        assert(set.contains(set[0]));
    }
    if exists|row: usize| #[trigger] chosen.contains(row) && row < p.queue.items.len() {
        let row = choose|row: usize| #[trigger]
            chosen.contains(row) && row < p.queue.items.len();
        assert(set.contains(row));
    }
}

/// Shuffle takes effect and is stored as a switch. Rows, selection and what plays
/// stay.
pub proof fn law_setting_shuffle(p: PlayerView, on: bool, seed: u64)
    ensures
        ({
            let s = seq![Answer::Seed(seed)];
            let o = set_shuffle_of(p, s + seq![Answer::Finished], 0, on);
            &&& wants(set_shuffle_of(p, Seq::empty(), 0, on), ActionView::Seed)
            &&& wants(
                set_shuffle_of(p, s, 0, on),
                ActionView::SetSetting {
                    key: SettingKey::Shuffle,
                    value: if on {
                        "on"@
                    } else {
                        "off"@
                    },
                },
            )
            &&& o.end is Done
            &&& o.state.queue.shuffle == on
            &&& o.state.queue.items == p.queue.items
            &&& o.state.queue.current == p.queue.current
            &&& o.state.queue.repeat == p.queue.repeat
            &&& o.state.queue.loop_set == p.queue.loop_set
            &&& o.state.current == p.current
            &&& o.state.active == p.active
        }),
{
}

/// A queue that is cleared is stored empty, with nothing selected and no loop. What
/// plays goes on.
pub proof fn law_clearing_the_queue(p: PlayerView)
    ensures
        ({
            let o = requeued(p, stored(), 0, p.queue.cleared());
            &&& stores_queue(
                |t: Seq<Answer>| requeued(p, t, 0, p.queue.cleared()),
                Seq::empty(),
                Seq::empty(),
                None,
                QueueView { loop_set: None, ..p.queue },
            )
            &&& o.end is Done
            &&& o.state.queue.items.len() == 0
            &&& o.state.queue.current is None
            &&& o.state.queue.loop_set is None
            &&& o.state.queue.repeat == p.queue.repeat
            &&& o.state.queue.shuffle == p.queue.shuffle
            &&& o.state.current == p.current
            &&& o.state.active == p.active
        }),
{
}

/// The library is asked which of the queued tracks it has. Where some are gone, the
/// queue without them is stored; where none is, nothing is stored.
pub proof fn law_pruning(p: PlayerView, alive: Vec<i64>, seed: u64)
    requires
        p.queue.wf(),
        p.queue.items.len() > 0,
    ensures
        ({
            let all = forall|i: int|
                0 <= i < p.queue.items.len() ==> alive@.contains(#[trigger] p.queue.items[i]);
            let s = seq![Answer::Ids(alive)];
            let t = seq![Answer::Ids(alive), Answer::Seed(seed)];
            let o = prune_of(p, t + stored(), 0);
            &&& wants(prune_of(p, Seq::empty(), 0), ActionView::ExistingTracks(p.queue.items))
            &&& all ==> gives(prune_of(p, s, 0), false) && leaves(prune_of(p, s, 0), p)
            &&& !all ==> {
                &&& wants(prune_of(p, s, 0), ActionView::Seed)
                &&& wants(
                    prune_of(p, t, 0),
                    ActionView::SaveQueue {
                        items: o.state.queue.items,
                        current: o.state.queue.current,
                    },
                )
                &&& gives(o, true)
                &&& o.state.queue.items == p.queue.items.filter(|id: i64| alive@.contains(id))
                &&& o.state.current == p.current
            }
        }),
{
    crate::queue_laws::law_pruning_keeps_what_plays(p.queue, alive@, seed);
    let keep = |id: i64| alive@.contains(id);
    let all = forall|i: int|
        0 <= i < p.queue.items.len() ==> alive@.contains(#[trigger] p.queue.items[i]);
    assert(all == p.queue.items.all(keep)) by {
        if all {
            assert forall|i: int| 0 <= i < p.queue.items.len() implies keep(
                #[trigger] p.queue.items[i],
            ) by {}
        }
        if p.queue.items.all(keep) {
            assert forall|i: int| 0 <= i < p.queue.items.len() implies alive@.contains(
                #[trigger] p.queue.items[i],
            ) by {
                assert(keep(p.queue.items[i]));
            }
        }
    }
}

/// A rescan reports what the scan came to. Where it removed anything, the queue is
/// checked against the library.
pub proof fn law_rescanning(p: PlayerView, report: ScanReport)
    requires
        p.queue.items.len() > 0,
    ensures
        ({
            let s = seq![Answer::Report(report)];
            &&& wants(rescan_of(p, Seq::empty(), 0), ActionView::ScanLibrary)
            &&& report.removed == 0 ==> gives(rescan_of(p, s, 0), report) && leaves(
                rescan_of(p, s, 0),
                p,
            )
            &&& report.removed > 0 ==> wants(
                rescan_of(p, s, 0),
                ActionView::ExistingTracks(p.queue.items),
            )
        }),
{
}

/// The queued tracks are looked up row by row, and those that are there are listed
/// in the order of their rows.
pub proof fn law_listing_the_queue(
    p: PlayerView,
    said: Seq<Answer>,
    at: int,
    i: int,
    found: Seq<Option<Track>>,
)
    requires
        0 <= at,
        0 <= i <= p.queue.items.len(),
        said.len() == at + found.len(),
        found.len() <= p.queue.items.len() - i,
        forall|k: int| 0 <= k < found.len() ==> said[at + k] == Answer::Track(#[trigger] found[k]),
    ensures
        found.len() < p.queue.items.len() - i ==> wants(
            queue_tracks_of(p, said, at, i),
            ActionView::TrackById(p.queue.items[i + found.len()]),
        ),
        found.len() == p.queue.items.len() - i ==> gives(
            queue_tracks_of(p, said, at, i),
            present(found),
        ),
    decreases found.len(),
{
    if found.len() > 0 {
        assert(said[at + 0] == Answer::Track(found[0]));
        let rest = found.skip(1);
        assert forall|k: int| 0 <= k < rest.len() implies said[at + 1 + k] == Answer::Track(
            #[trigger] rest[k],
        ) by {
            assert(rest[k] == found[k + 1]);
            assert(said[at + (k + 1)] == Answer::Track(found[k + 1]));
        }
        law_listing_the_queue(p, said, at + 1, i + 1, rest);
    }
}

/// The tracks that are there.
pub open spec fn present(found: Seq<Option<Track>>) -> Seq<Track>
    decreases found.len(),
{
    if found.len() == 0 {
        Seq::empty()
    } else {
        match found[0] {
            Some(t) => seq![t] + present(found.skip(1)),
            None => present(found.skip(1)),
        }
    }
}

/// An engine policy that can be met is stored in its settings form, and then in
/// force.
pub proof fn law_setting_the_policy(p: PlayerView, policy: PolicyView)
    requires
        policy matches PolicyView::Force(id) ==> p.registry.has(id),
    ensures
        wants(
            set_policy_of(p, Seq::empty(), 0, policy),
            ActionView::SetSetting { key: SettingKey::EnginePolicy, value: policy_text(policy) },
        ),
        leaves(
            set_policy_of(p, seq![Answer::Finished], 0, policy),
            PlayerView { registry: RegistryView { policy, ..p.registry }, ..p },
        ),
{
}

/// What is shown is what the engine reports of the current track, and what the queue
/// holds. A length that the engine does not say is the one in the index.
pub proof fn law_status_of_what_plays(p: PlayerView, snap: EngineSnapshot)
    requires
        p.active is Some,
        p.current is Some,
    ensures
        wants(status_of(p, Seq::empty(), 0), call(p.active->0, EngineCall::Snapshot)),
        status_of(p, seq![Answer::Snapshot(snap)], 0).end matches Progress::Done(s) && {
            &&& s.track == p.current
            &&& s.position_secs == snap.position_secs
            &&& snap.duration_secs is Some ==> s.duration_secs == snap.duration_secs
            &&& snap.duration_secs is None ==> s.duration_secs == p.current->0.duration_secs
            &&& s.paused == snap.paused
            &&& s.idle == snap.idle
            &&& s.has_video == (snap.has_video || p.current->0.has_video)
            &&& s.video_visible == snap.video_visible
            &&& s.queue_len == p.queue.items.len()
            &&& s.queue_index == p.queue.current
            &&& s.repeat == p.queue.repeat
            &&& s.shuffle == p.queue.shuffle
            &&& p.queue.loop_set matches Some(set) ==> s.loop_positions == set
            &&& p.queue.loop_set is None ==> s.loop_positions.len() == 0
            &&& s.engine_id == Some(p.registry.engines[p.active->0 as int].id)
        },
{
}

/// A file that an engine plays and that is not current is looked up by its path.
pub proof fn law_status_of_another_file(
    p: PlayerView,
    snap: EngineSnapshot,
    found: Option<Track>,
)
    requires
        p.active is Some,
        p.current is None,
        snap.path is Some,
    ensures
        wants(
            status_of(p, seq![Answer::Snapshot(snap)], 0),
            ActionView::TrackByPath(snap.path->0@),
        ),
        status_of(p, seq![Answer::Snapshot(snap), Answer::Track(found)], 0).end
            matches Progress::Done(s) && s.track == found && s.position_secs
            == snap.position_secs && s.paused == snap.paused,
{
}

/// Where no engine is addressed, the player is idle.
pub proof fn law_status_at_rest(p: PlayerView)
    requires
        p.active is None,
    ensures
        status_of(p, Seq::empty(), 0).end matches Progress::Done(s) && {
            &&& s.idle
            &&& s.engine_id is None
            &&& s.track == p.current
            &&& s.queue_len == p.queue.items.len()
            &&& s.queue_index == p.queue.current
        },
{
}

/// A file is indexed once: a track that the library has of it is taken, else the file
/// is looked at, probed, and put in the index. What is no media file is refused.
pub proof fn law_indexing_a_file(
    p: PlayerView,
    path: Seq<char>,
    canonical: String,
    track: Track,
    file: ScannedFile,
    probed: Probed,
    id: i64,
)
    ensures
        ({
            let a = seq![Answer::Path(canonical)];
            let media = path_extension(canonical@) is Some && media_extension(
                path_extension(canonical@)->0,
            );
            let known = seq![Answer::Path(canonical), Answer::Track(Some(track))];
            let b = seq![Answer::Path(canonical), Answer::Track(None)];
            let c = b + seq![Answer::File(file)];
            let d = b + seq![Answer::File(file), Answer::Probed(probed)];
            let e = b + seq![Answer::File(file), Answer::Probed(probed), Answer::Id(id)];
            let f = e + seq![Answer::Track(Some(track))];
            &&& wants(ensure_indexed_of(p, Seq::empty(), 0, path), ActionView::Canonical(path))
            &&& !media ==> refuses(
                ensure_indexed_of(p, a, 0, path),
                ErrorView::NotMedia { path: canonical@ },
            )
            &&& media ==> {
                &&& wants(ensure_indexed_of(p, a, 0, path), ActionView::TrackByPath(canonical@))
                &&& gives(ensure_indexed_of(p, known, 0, path), track)
                &&& wants(ensure_indexed_of(p, b, 0, path), ActionView::Stat(canonical@))
                &&& wants(ensure_indexed_of(p, c, 0, path), ActionView::Probe(canonical@))
                &&& wants(
                    ensure_indexed_of(p, d, 0, path),
                    ActionView::Upsert { file, probed },
                )
                &&& wants(ensure_indexed_of(p, e, 0, path), ActionView::TrackById(id))
                &&& gives(ensure_indexed_of(p, f, 0, path), track)
            }
        }),
{
}

} // verus!
