//! What holds of the player across its operations.

use vstd::prelude::*;

use crate::engine::EngineSnapshot;
use crate::error::ErrorView;
use crate::fixed::Fixed;
use crate::number::{digits, is_digit, law_number_round_trips, lemma_digits, parsed_upto};
use crate::player_model::{
    end_of_file_of, ensure_indexed_of, folder_tracks_of, follow_resume_of, known_duration, leave_of,
    load_of, loop_of, loop_text, persist_queue_of, persist_resume_of, play_track_of, positions_of,
    restored_loop, restored_repeat, seek_target, seeded, set_policy_of, shut_all_of, stage_path_of,
    staged_of, status_of, stop_of, switch_text, toggle_video_of, unknown_engine, ActionView, Answer,
    EngineCall, PlayerView, Run,
};
use crate::queue::{lemma_mode_round_trips, mode_text, QueueView, RepeatMode};
use crate::queue_laws::lemma_slots_kept;
use crate::resume::{law_stored_position_is_used, worth_keeping};
use crate::script::Progress;
use crate::selection::{Choice, PolicyView};
use crate::text::{find, lemma_find, lemma_find_is, lemma_trimmed_is, split, trimmed};
use crate::track::Track;

verus! {

/// A position is written only where the resume rules accept it, for the track
/// that is current, and as the engine reported it.
pub proof fn law_only_worthy_positions_are_written(
    p: PlayerView,
    said: Seq<Answer>,
    at: int,
    id: i64,
    position: Fixed,
)
    requires
        persist_resume_of(p, said, at).end == Progress::<ActionView, (), ErrorView>::Ask(
            ActionView::SetResume(id, position),
        ),
    ensures
        p.current is Some && p.current->0.id == id,
        0 <= at < said.len() && said[at] is Snapshot,
        said[at]->Snapshot_0.position_secs == Some(position),
        worth_keeping(position, known_duration(said[at]->Snapshot_0, p.current->0)),
{
}

/// As playback goes on, a position that is not worth keeping is forgotten rather
/// than left to be used later.
pub proof fn law_upkeep_keeps_or_forgets(
    p: PlayerView,
    said: Seq<Answer>,
    at: int,
    snap: EngineSnapshot,
    a: ActionView,
)
    requires
        follow_resume_of(p, said, at, snap).end == Progress::<ActionView, (), ErrorView>::Ask(a),
    ensures
        p.current is Some,
        snap.position_secs is Some,
        ({
            let worth = worth_keeping(
                snap.position_secs->0,
                known_duration(snap, p.current->0),
            );
            a == if worth {
                ActionView::SetResume(p.current->0.id, snap.position_secs->0)
            } else {
                ActionView::ClearResume(p.current->0.id)
            }
        }),
{
}

/// Switching engines stops the outgoing one before anything else, and goes on
/// whatever it answers.
pub proof fn law_outgoing_engine_is_stopped_first(
    p: PlayerView,
    said: Seq<Answer>,
    track: Track,
    engine: int,
    answer: Answer,
)
    requires
        p.active is Some,
        p.registry.engines[p.active->0 as int].id != p.registry.engines[engine].id,
    ensures
        load_of(p, said, said.len() as int, track, engine).end == Progress::<
            ActionView,
            (),
            ErrorView,
        >::Ask(ActionView::Engine { index: p.active->0, call: EngineCall::Stop }),
        load_of(p, said.push(answer), said.len() as int, track, engine).end == Progress::<
            ActionView,
            (),
            ErrorView,
        >::Ask(ActionView::ResumeFor(track.id)),
{
}

/// An offset that an engine is asked to start at is one the resume rules accept.
pub proof fn law_loads_start_where_the_rules_allow(
    p: PlayerView,
    said: Seq<Answer>,
    at: int,
    track: Track,
    engine: int,
    index: usize,
    path: String,
    start: Fixed,
)
    requires
        load_of(p, said, at, track, engine).end == Progress::<ActionView, (), ErrorView>::Ask(
            ActionView::Engine {
                index,
                call: EngineCall::Load { path, start_at: Some(start) },
            },
        ),
    ensures
        worth_keeping(start, track.duration_secs),
        path == track.path,
        index == engine as usize,
{
}

/// Playback is taken up where it was left: a track whose stored position the
/// resume rules accept is loaded from that position, and from no other; a track
/// without one is loaded from its beginning.
pub proof fn law_playback_is_taken_up_where_it_was_left(
    p: PlayerView,
    said: Seq<Answer>,
    at: int,
    track: Track,
    engine: int,
    stored: Option<Fixed>,
)
    requires
        leave_of(p, said, at, engine).end is Done,
        0 <= leave_of(p, said, at, engine).at,
        said.len() == leave_of(p, said, at, engine).at + 1,
        said.last() == Answer::Position(stored),
        stored matches Some(s) ==> worth_keeping(s, track.duration_secs),
    ensures
        load_of(p, said, at, track, engine).end == Progress::<ActionView, (), ErrorView>::Ask(
            ActionView::Engine {
                index: engine as usize,
                call: EngineCall::Load { path: track.path, start_at: stored },
            },
        ),
{
    if let Some(s) = stored {
        law_stored_position_is_used(s, track.duration_secs);
    }
}

/// A restart forgets the saved position right after the outgoing one has been
/// written, and before an engine is chosen.
pub proof fn law_restart_forgets_after_persisting(
    p: PlayerView,
    said: Seq<Answer>,
    at: int,
    track: Track,
)
    requires
        persist_resume_of(p, said, at).end is Done,
        persist_resume_of(p, said, at).at == said.len(),
    ensures
        play_track_of(p, said, at, track, true).end == Progress::<ActionView, (), ErrorView>::Ask(
            ActionView::ClearResume(track.id),
        ),
{
}

/// Once a position has been forgotten for a restart, nothing writes one back
/// before the track is loaded.
pub proof fn law_loading_writes_no_position(
    p: PlayerView,
    said: Seq<Answer>,
    at: int,
    track: Track,
    engine: int,
)
    ensures
        !(load_of(p, said, at, track, engine).end matches Progress::Ask(ActionView::SetResume(
            _,
            _,
        ))),
{
}

/// When a track has been played, it is current, and it is on the engine that the
/// registry chose for it.
pub proof fn law_played_track_is_current(
    p: PlayerView,
    said: Seq<Answer>,
    at: int,
    track: Track,
    restart: bool,
)
    requires
        play_track_of(p, said, at, track, restart).end is Done,
    ensures
        play_track_of(p, said, at, track, restart).state.current == Some(track),
        p.registry.chosen(track.path@) matches Choice::Engine(i) && play_track_of(
            p,
            said,
            at,
            track,
            restart,
        ).state.active == Some(i as usize),
        play_track_of(p, said, at, track, restart).state.queue == p.queue,
{
}

/// After stopping, nothing is current and no position counts as written.
pub proof fn law_stopping_leaves_nothing_current(p: PlayerView, said: Seq<Answer>, at: int)
    requires
        stop_of(p, said, at).end is Done,
    ensures
        stop_of(p, said, at).state.current is None,
        stop_of(p, said, at).state.last_written is NaN,
        stop_of(p, said, at).state.queue == p.queue,
{
}

/// Quitting shuts every engine down, one after another, whatever each says to it.
pub proof fn law_quitting_shuts_every_engine_down(
    p: PlayerView,
    said: Seq<Answer>,
    at: int,
    i: int,
    k: int,
)
    requires
        0 <= at,
        0 <= i <= k <= p.registry.engines.len(),
        said.len() == at + (k - i),
    ensures
        k < p.registry.engines.len() ==> shut_all_of(p, said, at, i).end == Progress::<
            ActionView,
            (),
            ErrorView,
        >::Ask(ActionView::Engine { index: k as usize, call: EngineCall::Shutdown }),
        k == p.registry.engines.len() ==> shut_all_of(p, said, at, i).end is Done,
        shut_all_of(p, said, at, i).state == p,
    decreases k - i,
{
    if i < k {
        law_quitting_shuts_every_engine_down(p, said, at + 1, i + 1, k);
    }
}

/// The end of a file forgets its position before the queue moves on.
pub proof fn law_finished_track_is_forgotten(p: PlayerView, said: Seq<Answer>)
    requires
        p.current is Some,
    ensures
        end_of_file_of(p, said, said.len() as int).end == Progress::<
            ActionView,
            (),
            ErrorView,
        >::Ask(ActionView::ClearResume(p.current->0.id)),
{
}

/// Looking at the player changes nothing.
pub proof fn law_status_changes_nothing(p: PlayerView, said: Seq<Answer>, at: int)
    ensures
        status_of(p, said, at).state == p,
{
}

/// An engine id that no engine answers to is refused without asking the host for
/// anything, and the policy in force stays.
pub proof fn law_unknown_engine_is_refused(
    p: PlayerView,
    said: Seq<Answer>,
    at: int,
    id: Seq<char>,
)
    requires
        !p.registry.has(id),
    ensures
        set_policy_of(p, said, at, PolicyView::Force(id)).end == Progress::<
            ActionView,
            (),
            ErrorView,
        >::Failed(unknown_engine(p, id)),
        set_policy_of(p, said, at, PolicyView::Force(id)).state == p,
{
}

/// A relative seek lands within the file, where the file has an end.
pub proof fn law_seek_stays_within_the_file(snap: EngineSnapshot, delta: Fixed, end: i128)
    requires
        snap.duration_secs == Some(Fixed::Nanos(end)),
        end >= 0,
    ensures
        seek_target(snap, delta) matches Fixed::Nanos(t) && 0 <= t <= end,
{
}

/// Asking for the picture of a track that has none is refused, and the engine is
/// told nothing.
pub proof fn law_no_pop_out_without_video(p: PlayerView, said: Seq<Answer>, snap: EngineSnapshot)
    requires
        p.active is Some,
        said == seq![Answer::Snapshot(snap)],
        !snap.has_video,
    ensures
        toggle_video_of(p, said, 0).end is Failed,
        toggle_video_of(p, said, 0).state == p,
{
}

/// What a run has asked for is no call to an engine.
spec fn leaves_engines_alone<T>(o: Run<T>) -> bool {
    !(o.end matches Progress::Ask(ActionView::Engine { index: _, call: _ }))
}

proof fn lemma_storing_leaves_engines_alone(p: PlayerView, said: Seq<Answer>, at: int)
    ensures
        leaves_engines_alone(persist_queue_of(p, said, at)),
        persist_queue_of(p, said, at).state == p,
{
}

proof fn lemma_indexing_leaves_engines_alone(
    p: PlayerView,
    said: Seq<Answer>,
    at: int,
    path: Seq<char>,
)
    ensures
        leaves_engines_alone(ensure_indexed_of(p, said, at, path)),
        ensure_indexed_of(p, said, at, path).state == p,
{
}

/// Staging starts nothing: no engine is called, and what plays stays as it is.
pub proof fn law_staging_starts_nothing(
    p: PlayerView,
    said: Seq<Answer>,
    at: int,
    path: Seq<char>,
    index: usize,
    call: EngineCall,
)
    ensures
        stage_path_of(p, said, at, path).end != Progress::<
            ActionView,
            Seq<Track>,
            ErrorView,
        >::Ask(ActionView::Engine { index, call }),
        stage_path_of(p, said, at, path).state.current == p.current,
        stage_path_of(p, said, at, path).state.active == p.active,
{
    let o = staged_of(p, said, at, path);
    assert(leaves_engines_alone(o) && o.state == p) by {
        if 0 <= at < said.len() {
            lemma_indexing_leaves_engines_alone(p, said, at + 1, path);
            let f = folder_tracks_of(p, said, at + 1, path);
            assert(leaves_engines_alone(f) && f.state == p);
        }
    }
    if let Progress::Done(tracks) = o.end {
        let s = seeded(p, said, o.at);
        if let Progress::Done(seed) = s.end {
            let q = p.with_queue(p.queue.staged(crate::player_model::ids_of(tracks), seed));
            lemma_storing_leaves_engines_alone(q, said, s.at);
        }
    }
}

/// Digits hold no comma and no white space.
proof fn lemma_position_text(n: usize)
    ensures
        parsed_upto(trimmed(digits(n as nat)), usize::MAX as nat) == Some(n as nat),
        find(digits(n as nat), ',') == digits(n as nat).len(),
{
    let d = digits(n as nat);
    lemma_digits(n as nat);
    assert(is_digit(d[0]) && is_digit(d[d.len() - 1]));
    lemma_trimmed_is(d);
    law_number_round_trips(n as nat, usize::MAX as nat);
    assert forall|i: int| 0 <= i < d.len() implies d[i] != ',' by {
        assert(is_digit(d[i]));
    }
    lemma_find_is(d, ',', d.len() as int);
}

/// A part behind others, with a comma between.
proof fn lemma_split_last(front: Seq<char>, d: Seq<char>)
    requires
        find(d, ',') == d.len(),
    ensures
        split(front + ","@ + d, ',') == split(front, ',').push(d),
    decreases front.len(),
{
    reveal_strlit(",");
    let comma = ","@;
    assert(comma =~= seq![',']);
    let s = front + comma + d;
    let k = find(front, ',');
    lemma_find(front, ',');
    assert forall|i: int| 0 <= i < k implies s[i] != ',' by {
        assert(s[i] == front[i]);
    }
    if k < front.len() {
        assert(s[k] == front[k]);
        lemma_find_is(s, ',', k);
        assert(s.take(k) =~= front.take(k));
        assert(s.skip(k + 1) =~= front.skip(k + 1) + comma + d);
        lemma_split_last(front.skip(k + 1), d);
        assert(seq![front.take(k)] + split(front.skip(k + 1), ',').push(d) =~= (seq![
            front.take(k),
        ] + split(front.skip(k + 1), ',')).push(d));
    } else {
        assert(s[k] == ',');
        lemma_find_is(s, ',', k);
        assert(s.take(k) =~= front);
        assert(s.skip(k + 1) =~= d);
        assert(split(d, ',') =~= seq![d]);
        assert(seq![front] + seq![d] =~= seq![front].push(d));
    }
}

/// The positions of a loop survive being stored as text.
pub proof fn law_loop_round_trips(set: Seq<usize>)
    requires
        set.len() > 0,
    ensures
        loop_of(loop_text(Some(set))) == set,
    decreases set.len(),
{
    let parts = Seq::new(set.len(), |i: int| digits(set[i] as nat));
    let last = digits(set.last() as nat);
    lemma_position_text(set.last());
    let text = loop_text(Some(set));
    if set.len() == 1 {
        assert(text == last);
        assert(split(last, ',') =~= seq![last]);
        assert(seq![last].drop_last() =~= Seq::<Seq<char>>::empty());
        assert(positions_of(Seq::<Seq<char>>::empty()) == Seq::<usize>::empty());
        assert(loop_of(text) =~= set);
    } else {
        let shorter = set.drop_last();
        law_loop_round_trips(shorter);
        let front = loop_text(Some(shorter));
        assert(parts.drop_last() =~= Seq::new(shorter.len(), |i: int| digits(shorter[i] as nat)));
        assert(text == front + ","@ + last);
        lemma_split_last(front, last);
        assert(split(front, ',').push(last).drop_last() =~= split(front, ','));
        assert(loop_of(text) =~= shorter.push(set.last()));
        assert(shorter.push(set.last()) =~= set);
    }
}

/// Queue, selection, repeat mode, shuffle and loop are restored from what is stored
/// of them: a rule that is not stored is as it is at first. The shuffled order is
/// drawn afresh.
pub proof fn law_stored_rules_are_restored(
    queue: QueueView,
    repeat: Option<String>,
    shuffle: Option<String>,
    loop_positions: Option<String>,
    s: u64,
    t: u64,
)
    requires
        queue.wf(),
        match repeat {
            Some(text) => text@ == mode_text(queue.repeat),
            None => queue.repeat == RepeatMode::Off,
        },
        match shuffle {
            Some(text) => text@ == switch_text(queue.shuffle),
            None => !queue.shuffle,
        },
        match loop_positions {
            Some(text) => text@ == loop_text(queue.loop_set),
            None => queue.loop_set is None,
        },
    ensures
        ({
            let loaded = QueueView::fresh().replaced(queue.items, queue.current, s);
            let again = restored_loop(
                restored_repeat(loaded, repeat).with_shuffle(
                    shuffle matches Some(text) && text@ == "on"@,
                    t,
                ),
                loop_positions,
            );
            &&& again.items == queue.items
            &&& again.current == queue.current
            &&& again.repeat == queue.repeat
            &&& again.shuffle == queue.shuffle
            &&& again.loop_set == queue.loop_set
        }),
{
    lemma_mode_round_trips(queue.repeat);
    reveal_strlit("on");
    reveal_strlit("off");
    assert("on"@.len() == 2 && "off"@.len() == 3);
    match queue.loop_set {
        Some(set) => {
            law_loop_round_trips(set);
            lemma_slots_kept(set, queue.items.len());
        },
        None => {
            let empty = Seq::<char>::empty();
            assert(loop_text(None) =~= empty);
            assert(split(empty, ',') =~= seq![empty]);
            assert(seq![empty].drop_last() =~= Seq::<Seq<char>>::empty());
            assert(trimmed(empty) =~= empty);
            assert(positions_of(Seq::<Seq<char>>::empty()) == Seq::<usize>::empty());
            assert(parsed_upto(trimmed(empty), usize::MAX as nat) is None);
            assert(positions_of(seq![empty]) == Seq::<usize>::empty());
            assert(loop_of(empty) =~= Seq::<usize>::empty());
        },
    }
}

} // verus!
