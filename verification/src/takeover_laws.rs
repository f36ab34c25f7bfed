//! What a new player makes of a store, and of engines that already play.

use vstd::prelude::*;

use crate::control_laws::law_all_engines_are_told;
use crate::engine::EngineSnapshot;
use crate::fixed::Fixed;
use crate::layout::{layout_of, VideoWindowLayout};
use crate::playback_laws::{call, has_room, is_first_row, length, wants};
use crate::player_model::{
    adopt_of, ends, layout_setting_of, loop_of, restore_of, restore_policy_of, restore_queue_of,
    restore_rules_of, set_paused_of, tell_all_of, ActionView, Answer, EngineCall, PlayerView, Run,
    SettingKey,
};
use crate::queue::{lemma_slots, mode_named, slots, QueueView, RepeatMode};
use crate::script::{then_do, Progress};
use crate::selection::policy_of;
use crate::text::{lowered, trimmed};
use crate::track::Track;

verus! {

/// Whether answers begin with these.
pub open spec fn begins(said: Seq<Answer>, front: Seq<Answer>) -> bool {
    &&& front.len() <= said.len()
    &&& forall|i: int| 0 <= i < front.len() ==> said[i] == front[i]
}

/// Telling every engine rests only on the answers that it has used.
proof fn lemma_told_by_what_was_said(
    p: PlayerView,
    front: Seq<Answer>,
    said: Seq<Answer>,
    at: int,
    c: EngineCall,
    i: int,
)
    requires
        begins(said, front),
        0 <= at <= front.len(),
    ensures
        ({
            let o = tell_all_of(p, front, at, c, i);
            &&& at <= o.at <= front.len()
            &&& o.state == p
            &&& o.end is Done ==> tell_all_of(p, said, at, c, i) == o
            &&& o.end matches Progress::Ask(a) ==> a matches ActionView::Engine {
                index: _,
                call: d,
            } && d == c
        }),
    decreases p.registry.engines.len() - i,
{
    if 0 <= i < p.registry.engines.len() && at < front.len() {
        assert(said[at] == front[at]);
        if front[at] is Finished {
            lemma_told_by_what_was_said(p, front, said, at + 1, c, i + 1);
        }
    }
}

/// An engine that is looked at comes after those that were looked at.
proof fn lemma_looks_go_on(p: PlayerView, said: Seq<Answer>, at: int, i: int)
    requires
        0 <= i,
        0 <= at <= said.len(),
        p.registry.engines.len() <= usize::MAX,
    ensures
        adopt_of(p, said, at, i).end matches Progress::Ask(
            ActionView::Engine { index: k, call: _ },
        ) ==> k >= i,
    decreases p.registry.engines.len() - i,
{
    if i < p.registry.engines.len() && at < said.len() {
        if let Answer::Snapshot(snap) = said[at] {
            if snap.path is None {
                lemma_looks_go_on(p, said, at + 1, i + 1);
            }
        }
    }
}

/// What is left of restoring once the store has been read.
pub open spec fn placed_then_adopted(
    p: PlayerView,
    said: Seq<Answer>,
    at: int,
    layout: Option<VideoWindowLayout>,
) -> Run<()> {
    then_do(
        match layout {
            Some(l) => tell_all_of(p, said, at, EngineCall::SetLayout(l), 0),
            None => ends(p, at, ()),
        },
        |p: PlayerView, at: int, u: ()| adopt_of(p, said, at, 0),
    )
}

/// Once restoring has come to looking at the first engine, what it comes to rests on
/// the engines alone.
proof fn lemma_then_adopts(p: PlayerView, front: Seq<Answer>, said: Seq<Answer>)
    requires
        p.registry.engines.len() <= usize::MAX,
        wants(restore_of(p, front, 0), call(0, EngineCall::Snapshot)),
        begins(said, front),
    ensures
        restore_of(p, said, 0) == adopt_of(
            restore_of(p, front, 0).state,
            said,
            front.len() as int,
            0,
        ),
        restore_of(p, front, 0).state.registry.engines == p.registry.engines,
        p.registry.engines.len() > 0,
{
    let a = restore_queue_of(p, front, 0);
    assert(a.end is Done);
    assert(restore_queue_of(p, said, 0) == a);
    let b = restore_rules_of(a.state, front, a.at);
    assert(b.end is Done);
    assert(restore_rules_of(a.state, said, a.at) == b);
    let c = restore_policy_of(b.state, front, b.at);
    assert(c.end is Done);
    assert(restore_policy_of(b.state, said, b.at) == c);
    let d = layout_setting_of(c.state, front, c.at);
    assert(d.end is Done);
    assert(layout_setting_of(c.state, said, c.at) == d);
    let layout = d.end->Done_0;
    assert(restore_of(p, front, 0) == placed_then_adopted(d.state, front, d.at, layout));
    assert(restore_of(p, said, 0) == placed_then_adopted(d.state, said, d.at, layout));
    let at = match layout {
        Some(l) => {
            lemma_told_by_what_was_said(
                d.state,
                front,
                said,
                d.at,
                EngineCall::SetLayout(l),
                0,
            );
            tell_all_of(d.state, front, d.at, EngineCall::SetLayout(l), 0).at
        },
        None => d.at,
    };
    assert(restore_of(p, front, 0) == adopt_of(d.state, front, at, 0));
    if at < front.len() && d.state.registry.engines.len() > 0 {
        if let Answer::Snapshot(snap) = front[at] {
            if snap.path is None {
                lemma_looks_go_on(d.state, front, at + 1, 1);
            }
        }
    }
    assert(at == front.len());
    assert(restore_of(p, front, 0).state == d.state);
}

/// Engines that play nothing are passed over.
proof fn lemma_passed_over(
    p: PlayerView,
    said: Seq<Answer>,
    at: int,
    idle: Seq<EngineSnapshot>,
    i: int,
)
    requires
        0 <= at,
        0 <= i,
        at + idle.len() <= said.len(),
        i + idle.len() <= p.registry.engines.len(),
        forall|k: int|
            0 <= k < idle.len() ==> (#[trigger] idle[k]).path is None && said[at + k]
                == Answer::Snapshot(idle[k]),
    ensures
        adopt_of(p, said, at, i) == adopt_of(p, said, at + idle.len(), i + idle.len()),
    decreases idle.len(),
{
    if idle.len() > 0 {
        assert(idle[0].path is None && said[at + 0] == Answer::Snapshot(idle[0]));
        let rest = idle.skip(1);
        assert forall|k: int| 0 <= k < rest.len() implies (#[trigger] rest[k]).path is None && said[
        at + 1 + k] == Answer::Snapshot(rest[k]) by {
            assert(rest[k] == idle[k + 1]);
            assert(said[at + (k + 1)] == Answer::Snapshot(idle[k + 1]));
        }
        lemma_passed_over(p, said, at + 1, rest, i + 1);
    }
}

pub open spec fn snapshots(list: Seq<EngineSnapshot>) -> Seq<Answer> {
    Seq::new(list.len(), |k: int| Answer::Snapshot(list[k]))
}

/// What is already playing is taken over. The engines are looked at in order; the
/// first that has a file is addressed from then on. Where the library knows the file,
/// its track is current, and its row is selected where the queue has it. Everything
/// else is as it was restored.
pub proof fn law_running_engine_is_taken_over(
    p: PlayerView,
    front: Seq<Answer>,
    idle: Seq<EngineSnapshot>,
    snap: EngineSnapshot,
    found: Option<Track>,
)
    requires
        p.registry.engines.len() <= usize::MAX,
        wants(restore_of(p, front, 0), call(0, EngineCall::Snapshot)),
        idle.len() < p.registry.engines.len(),
        forall|k: int| 0 <= k < idle.len() ==> (#[trigger] idle[k]).path is None,
        snap.path is Some,
    ensures
        ({
            let q = restore_of(p, front, 0).state;
            let i = idle.len() as usize;
            let looks = front + snapshots(idle);
            let o = restore_of(p, looks + seq![Answer::Snapshot(snap), Answer::Track(found)], 0);
            &&& wants(restore_of(p, looks, 0), call(i, EngineCall::Snapshot))
            &&& wants(
                restore_of(p, looks + seq![Answer::Snapshot(snap)], 0),
                ActionView::TrackByPath(snap.path->0@),
            )
            &&& o.end is Done
            &&& o.state.active == Some(i)
            &&& found matches Some(t) ==> {
                &&& o.state.current == Some(t)
                &&& forall|row: usize| #[trigger]
                    is_first_row(q.queue.items, t.id, row) ==> o.state.queue == (QueueView {
                        current: Some(row),
                        ..q.queue
                    })
                &&& !q.queue.items.contains(t.id) ==> o.state.queue == q.queue
            }
            &&& found is None ==> o.state.current == q.current && o.state.queue == q.queue
            &&& o.state.registry == q.registry
            &&& o.state.last_written == q.last_written
        }),
{
    let q = restore_of(p, front, 0).state;
    let n = front.len() as int;
    let looks = front + snapshots(idle);
    let one = looks + seq![Answer::Snapshot(snap)];
    let two = looks + seq![Answer::Snapshot(snap), Answer::Track(found)];
    assert forall|k: int| 0 <= k < idle.len() implies (#[trigger] idle[k]).path is None && looks[n
        + k] == Answer::Snapshot(idle[k]) && one[n + k] == looks[n + k] && two[n + k] == looks[n
        + k] by {}
    lemma_then_adopts(p, front, looks);
    lemma_then_adopts(p, front, one);
    lemma_then_adopts(p, front, two);
    lemma_passed_over(q, looks, n, idle, 0);
    lemma_passed_over(q, one, n, idle, 0);
    lemma_passed_over(q, two, n, idle, 0);
    if let Some(t) = found {
        assert forall|row: usize| #[trigger] is_first_row(q.queue.items, t.id, row) implies
            restore_of(p, two, 0).state.queue == (QueueView { current: Some(row), ..q.queue }) by {
            assert(q.queue.items[row as int] == t.id);
            q.queue.items.index_of_first_ensures(t.id);
        }
        q.queue.items.index_of_first_ensures(t.id);
    }
}

/// Where no engine plays anything, nothing is taken over.
pub proof fn law_nothing_to_take_over(p: PlayerView, front: Seq<Answer>, idle: Seq<EngineSnapshot>)
    requires
        p.registry.engines.len() <= usize::MAX,
        wants(restore_of(p, front, 0), call(0, EngineCall::Snapshot)),
        idle.len() == p.registry.engines.len(),
        forall|k: int| 0 <= k < idle.len() ==> (#[trigger] idle[k]).path is None,
    ensures
        restore_of(p, front + snapshots(idle), 0).end is Done,
        restore_of(p, front + snapshots(idle), 0).state == restore_of(p, front, 0).state,
{
    let q = restore_of(p, front, 0).state;
    let n = front.len() as int;
    let all = front + snapshots(idle);
    assert forall|k: int| 0 <= k < idle.len() implies (#[trigger] idle[k]).path is None && all[n
        + k] == Answer::Snapshot(idle[k]) by {}
    lemma_then_adopts(p, front, all);
    lemma_passed_over(q, all, n, idle, 0);
}

/// A set that an earlier process left playing is kept track of: once it has been
/// taken over, a pause saves the position it has come to.
pub proof fn law_taken_over_position_is_saved(
    p: PlayerView,
    front: Seq<Answer>,
    idle: Seq<EngineSnapshot>,
    snap: EngineSnapshot,
    track: Track,
    now: EngineSnapshot,
    a: i128,
)
    requires
        p.registry.engines.len() <= usize::MAX,
        wants(restore_of(p, front, 0), call(0, EngineCall::Snapshot)),
        idle.len() < p.registry.engines.len(),
        forall|k: int| 0 <= k < idle.len() ==> (#[trigger] idle[k]).path is None,
        snap.path is Some,
        now.position_secs == Some(Fixed::Nanos(a)),
        a >= 30_000_000_000,
        has_room(a, length(now, track)),
    ensures
        ({
            let restored = restore_of(
                p,
                front + snapshots(idle) + seq![
                    Answer::Snapshot(snap),
                    Answer::Track(Some(track)),
                ],
                0,
            ).state;
            wants(
                set_paused_of(restored, seq![Answer::Finished, Answer::Snapshot(now)], 0, true),
                ActionView::SetResume(track.id, Fixed::Nanos(a)),
            )
        }),
{
    law_running_engine_is_taken_over(p, front, idle, snap, Some(track));
}

/// Restoring, answer by answer, up to the engines: the queue with its selection,
/// the repeat mode, shuffle, the loop, the engine policy, and the layout of the
/// window.
pub proof fn law_restoring(
    p: PlayerView,
    items: Vec<i64>,
    current: Option<usize>,
    seeds: (u64, u64),
    repeat: Option<String>,
    shuffle: Option<String>,
    looped: Option<String>,
    policy: Option<String>,
    layout: Option<String>,
)
    requires
        p.registry.engines.len() > 0,
        p.queue == QueueView::fresh(),
        layout matches Some(t) ==> layout_of(t@) is None,
    ensures
        ({
            let s = seq![
                Answer::Queue { items, current },
                Answer::Seed(seeds.0),
                Answer::Text(repeat),
                Answer::Text(shuffle),
                Answer::Seed(seeds.1),
                Answer::Text(looped),
                Answer::Text(policy),
                Answer::Text(layout),
            ];
            let q = restore_of(p, s, 0).state;
            &&& wants(restore_of(p, s.take(0), 0), ActionView::LoadQueue)
            &&& wants(restore_of(p, s.take(2), 0), ActionView::Setting(SettingKey::Repeat))
            &&& wants(restore_of(p, s.take(3), 0), ActionView::Setting(SettingKey::Shuffle))
            &&& wants(restore_of(p, s.take(5), 0), ActionView::Setting(SettingKey::Loop))
            &&& wants(restore_of(p, s.take(6), 0), ActionView::Setting(SettingKey::EnginePolicy))
            &&& wants(restore_of(p, s.take(7), 0), ActionView::Setting(SettingKey::VideoWindow))
            &&& wants(restore_of(p, s, 0), call(0, EngineCall::Snapshot))
            &&& q.queue.items == items@
            &&& current matches Some(c) ==> c < items@.len() ==> q.queue.current == current
            &&& current is None ==> q.queue.current is None
            &&& q.queue.shuffle == (shuffle matches Some(t) && t@ == "on"@)
            &&& looped is None && repeat is None ==> q.queue.repeat == RepeatMode::Off
            &&& looped is None ==> q.queue.loop_set is None
            &&& looped is None && repeat is Some && mode_named(
                lowered(trimmed(repeat->0@)),
            ) is Some ==> q.queue.repeat == mode_named(lowered(trimmed(repeat->0@)))->0
            &&& policy is None ==> q.registry.policy is Auto
            &&& policy matches Some(t) ==> q.registry.policy == policy_of(t@)
            &&& q.registry.engines == p.registry.engines
            &&& q.current == p.current
            &&& q.active == p.active
        }),
{
    let s = seq![
        Answer::Queue { items, current },
        Answer::Seed(seeds.0),
        Answer::Text(repeat),
        Answer::Text(shuffle),
        Answer::Seed(seeds.1),
        Answer::Text(looped),
        Answer::Text(policy),
        Answer::Text(layout),
    ];
    lemma_read(p, s, s);
    lemma_read(p, s, s.take(0));
    lemma_read(p, s, s.take(2));
    lemma_read(p, s, s.take(3));
    lemma_read(p, s, s.take(5));
    lemma_read(p, s, s.take(6));
    lemma_read(p, s, s.take(7));
    let a = restore_queue_of(p, s, 0);
    let b = restore_rules_of(a.state, s, 2);
    let c = restore_policy_of(b.state, s, 6);
    assert(c.state.queue == b.state.queue);
}

/// How far reading the store comes with some of these answers.
proof fn lemma_read(p: PlayerView, s: Seq<Answer>, t: Seq<Answer>)
    requires
        s.len() == 8,
        s[0] is Queue,
        s[1] is Seed,
        s[2] is Text,
        s[3] is Text,
        s[4] is Seed,
        s[5] is Text,
        s[6] is Text,
        s[7] matches Answer::Text(l) && (l matches Some(t) ==> layout_of(t@) is None),
        begins(s, t),
        p.registry.engines.len() > 0,
    ensures
        t.len() == 0 ==> wants(restore_of(p, t, 0), ActionView::LoadQueue),
        t.len() == 2 ==> wants(restore_of(p, t, 0), ActionView::Setting(SettingKey::Repeat)),
        t.len() == 3 ==> wants(restore_of(p, t, 0), ActionView::Setting(SettingKey::Shuffle)),
        t.len() == 5 ==> wants(restore_of(p, t, 0), ActionView::Setting(SettingKey::Loop)),
        t.len() == 6 ==> wants(restore_of(p, t, 0), ActionView::Setting(SettingKey::EnginePolicy)),
        t.len() == 7 ==> wants(restore_of(p, t, 0), ActionView::Setting(SettingKey::VideoWindow)),
        t.len() == 8 ==> {
            let a = restore_queue_of(p, t, 0);
            let b = restore_rules_of(a.state, t, 2);
            let c = restore_policy_of(b.state, t, 6);
            &&& wants(restore_of(p, t, 0), call(0, EngineCall::Snapshot))
            &&& restore_of(p, t, 0).state == c.state
        },
{
    let a = restore_queue_of(p, t, 0);
    if t.len() >= 2 {
        assert(t[0] == s[0] && t[1] == s[1]);
        assert(a.end is Done && a.at == 2);
        let b = restore_rules_of(a.state, t, 2);
        if t.len() >= 6 {
            assert(t[2] == s[2] && t[3] == s[3] && t[4] == s[4] && t[5] == s[5]);
            assert(b.end is Done && b.at == 6);
            let c = restore_policy_of(b.state, t, 6);
            if t.len() >= 7 {
                assert(t[6] == s[6]);
                assert(c.end is Done && c.at == 7);
                if t.len() == 8 {
                    assert(t[7] == s[7]);
                    let d = layout_setting_of(c.state, t, 7);
                    assert(d.end is Done && d.at == 8);
                    assert(restore_of(p, t, 0) == placed_then_adopted(c.state, t, 8, None));
                    assert(adopt_of(c.state, t, 8, 0).end is Ask);
                }
            }
        }
    }
}

/// A saved layout is told to the engines before anything else is asked of them.
pub proof fn law_saved_layout_is_told(
    p: PlayerView,
    s: Seq<Answer>,
    text: String,
    layout: VideoWindowLayout,
)
    requires
        p.registry.engines.len() > 0,
        s.len() == 8,
        s[0] is Queue,
        s[1] is Seed,
        s[2] is Text,
        s[3] is Text,
        s[4] is Seed,
        s[5] is Text,
        s[6] is Text,
        s[7] == Answer::Text(Some(text)),
        layout_of(text@) == Some(layout),
    ensures
        wants(restore_of(p, s, 0), call(0, EngineCall::SetLayout(layout))),
{
    let a = restore_queue_of(p, s, 0);
    assert(a.end is Done && a.at == 2);
    let b = restore_rules_of(a.state, s, 2);
    assert(b.end is Done && b.at == 6);
    let c = restore_policy_of(b.state, s, 6);
    assert(c.end is Done && c.at == 7);
    let d = layout_setting_of(c.state, s, 7);
    assert(d.end is Done && d.at == 8);
    assert(restore_of(p, s, 0) == placed_then_adopted(c.state, s, 8, Some(layout)));
    law_all_engines_are_told(c.state, s, 8, EngineCall::SetLayout(layout), 0);
}

/// A saved loop is taken up with the rows that the queue has, and wins over a saved
/// repeat mode.
pub proof fn law_saved_loop_is_taken_up(
    p: PlayerView,
    s: Seq<Answer>,
    items: Vec<i64>,
    text: String,
    row: usize,
)
    requires
        p.queue == QueueView::fresh(),
        s.len() == 6,
        s[0] matches Answer::Queue { items: stored, current } && stored == items,
        s[1] is Seed,
        s[2] is Text,
        s[3] is Text,
        s[4] is Seed,
        s[5] == Answer::Text(Some(text)),
        loop_of(text@).contains(row),
        row < items@.len(),
    ensures
        restore_of(p, s, 0).state.queue.loop_set matches Some(set) && set.contains(row) && forall|
            r: usize,
        | #[trigger]
            set.contains(r) <==> r < items@.len() && loop_of(text@).contains(r),
        restore_of(p, s, 0).state.queue.repeat is Off,
        wants(restore_of(p, s, 0), ActionView::Setting(SettingKey::EnginePolicy)),
{
    let a = restore_queue_of(p, s, 0);
    assert(a.end is Done && a.at == 2);
    let b = restore_rules_of(a.state, s, 2);
    assert(b.end is Done && b.at == 6);
    assert(items.len() == items@.len());
    lemma_slots(loop_of(text@), items@.len());
    assert(slots(loop_of(text@), items@.len()).contains(row));
}

} // verus!
