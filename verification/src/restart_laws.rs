//! What a player stores, and what a new player over the same store makes of it.
//!
//! The host is one that keeps what it is told in a [`StoreView`], and whose engines
//! play nothing.

use vstd::prelude::*;

use crate::error::ErrorView;
use crate::layout::{layout_of, VideoWindowLayout};
use crate::player::fresh;
use crate::player_laws::law_stored_rules_are_restored;
use crate::player_model::{
    adopt_of, ends, key_text, loop_text, persist_rules_of, restore_of, restore_policy_of,
    restore_queue_of, restore_rules_of, restored_loop, restored_repeat, set_loop_of, set_queue_of,
    set_repeat_of, set_shuffle_of, status_of, switch_text, tell_all_of, ActionView, Answer,
    EngineCall, PlayerView, Run, SettingKey,
};
use crate::queue::{mode_text, QueueView, RepeatMode};
use crate::script::{then_do, Progress};
use crate::selection::{policy_of, PolicyView, RegistryView};
use crate::store::StoreView;
use crate::store_laws::law_saved_queue_loads_back;
use crate::text::text_view;

verus! {

/// What a store has under a key.
pub open spec fn stored(s: StoreView, key: SettingKey) -> Option<Seq<char>> {
    if s.settings.dom().contains(key_text(key)) {
        Some(s.settings[key_text(key)])
    } else {
        None
    }
}

/// Whether an answer is what the host says to an action, given the store before it
/// and after it.
pub open spec fn served(s: StoreView, a: ActionView, answer: Answer, next: StoreView) -> bool {
    match a {
        ActionView::SaveQueue { items, current } => answer is Finished && next == s.queued(
            items,
            current,
        ),
        ActionView::SetSetting { key, value } => answer is Finished && next == (StoreView {
            settings: s.settings.insert(key_text(key), value),
            ..s
        }),
        ActionView::LoadQueue => next == s && (answer matches Answer::Queue { items, current }
            && items@ == s.queue && current == s.queue_index()),
        ActionView::Setting(key) => next == s && (answer matches Answer::Text(t) && text_view(t)
            == stored(s, key)),
        ActionView::Seed => next == s && answer is Seed,
        ActionView::Engine { index, call: EngineCall::Snapshot } => next == s && (
        answer matches Answer::Snapshot(snap) && snap.path is None),
        ActionView::Engine { index, call } => next == s && answer is Finished,
        _ => false,
    }
}

/// Whether answer `k` is what the host says to what is asked after the answers
/// before it.
pub open spec fn serves<T>(
    op: spec_fn(Seq<Answer>) -> Run<T>,
    said: Seq<Answer>,
    stores: Seq<StoreView>,
    k: int,
) -> bool {
    op(said.take(k)).end matches Progress::Ask(a) && served(
        stores[k],
        a,
        said[k],
        stores[k + 1],
    )
}

/// Whether all the answers to an operation are the host's. `stores` are the stores
/// before each of them and after the last.
pub open spec fn hosted<T>(
    op: spec_fn(Seq<Answer>) -> Run<T>,
    said: Seq<Answer>,
    stores: Seq<StoreView>,
) -> bool {
    &&& stores.len() == said.len() + 1
    &&& forall|k: int| 0 <= k < said.len() ==> #[trigger] serves(op, said, stores, k)
}

/// Whether a store holds a queue as it is: its rows, the current one, and the rules
/// it is walked by. A rule that was never stored is as it is at first.
pub open spec fn kept(queue: QueueView, s: StoreView) -> bool {
    &&& s.queue == queue.items
    &&& s.queue_index() == queue.current
    &&& match stored(s, SettingKey::Repeat) {
        Some(text) => text == mode_text(queue.repeat),
        None => queue.repeat == RepeatMode::Off,
    }
    &&& match stored(s, SettingKey::Loop) {
        Some(text) => text == loop_text(queue.loop_set),
        None => queue.loop_set is None,
    }
    &&& match stored(s, SettingKey::Shuffle) {
        Some(text) => text == switch_text(queue.shuffle),
        None => !queue.shuffle,
    }
}

/// Every setting has a name of its own, and none that of the current row.
proof fn lemma_names_differ(a: SettingKey, b: SettingKey)
    ensures
        a != b ==> key_text(a) != key_text(b),
        key_text(a) != "queue_index"@,
{
    reveal_strlit("repeat");
    reveal_strlit("shuffle");
    reveal_strlit("engine_policy");
    reveal_strlit("queue_loop");
    reveal_strlit("video_window_size");
    reveal_strlit("video_surface");
    reveal_strlit("queue_index");
    assert("repeat"@.len() == 6 && "shuffle"@.len() == 7 && "queue_loop"@.len() == 10);
    assert("queue_index"@.len() == 11 && "video_window_size"@.len() == 17);
    assert("engine_policy"@.len() == 13 && "engine_policy"@[0] == 'e');
    assert("video_surface"@.len() == 13 && "video_surface"@[0] == 'v');
}

/// Storing a setting changes no other, nor the queue.
proof fn lemma_setting_stored(s: StoreView, key: SettingKey, value: Seq<char>, other: SettingKey)
    ensures
        ({
            let next = StoreView { settings: s.settings.insert(key_text(key), value), ..s };
            &&& stored(next, key) == Some(value)
            &&& other != key ==> stored(next, other) == stored(s, other)
            &&& next.queue == s.queue
            &&& next.queue_index() == s.queue_index()
        }),
{
    lemma_names_differ(key, other);
    lemma_names_differ(other, key);
}

/// Storing the queue changes no setting.
proof fn lemma_queue_stored(s: StoreView, items: Seq<i64>, current: Option<usize>, key: SettingKey)
    ensures
        stored(s.queued(items, current), key) == stored(s, key),
{
    lemma_names_differ(key, key);
}

/// The rules as they are stored after the queue.
proof fn lemma_rules_kept(queue: QueueView, a: StoreView, b: StoreView, c: StoreView)
    requires
        a.queue == queue.items,
        a.queue_index() == queue.current,
        match stored(a, SettingKey::Shuffle) {
            Some(text) => text == switch_text(queue.shuffle),
            None => !queue.shuffle,
        },
        b == (StoreView {
            settings: a.settings.insert(key_text(SettingKey::Repeat), mode_text(queue.repeat)),
            ..a
        }),
        c == (StoreView {
            settings: b.settings.insert(key_text(SettingKey::Loop), loop_text(queue.loop_set)),
            ..b
        }),
    ensures
        kept(queue, c),
{
    lemma_setting_stored(a, SettingKey::Repeat, mode_text(queue.repeat), SettingKey::Shuffle);
    lemma_setting_stored(b, SettingKey::Loop, loop_text(queue.loop_set), SettingKey::Shuffle);
    lemma_setting_stored(b, SettingKey::Loop, loop_text(queue.loop_set), SettingKey::Repeat);
}

/// An operation that asks for two things after `n` answers, and is then finished.
proof fn lemma_rules_hosted<T>(
    op: spec_fn(Seq<Answer>) -> Run<T>,
    p: PlayerView,
    said: Seq<Answer>,
    stores: Seq<StoreView>,
    n: int,
)
    requires
        hosted(op, said, stores),
        0 <= n <= said.len(),
        forall|t: Seq<Answer>|
            #![trigger op(t)]
            t.len() >= n && t.take(n) == said.take(n) ==> {
                let rules = persist_rules_of(p, t, n);
                &&& (rules.end matches Progress::Ask(a) ==> op(t).end == Progress::<
                    ActionView,
                    T,
                    ErrorView,
                >::Ask(a))
                &&& rules.end is Done ==> op(t).end is Done && op(t).state == p
                &&& rules.end is Failed ==> op(t).end is Failed
            },
    ensures
        !(op(said).end is Failed),
        op(said).end is Done ==> {
            &&& op(said).state == p
            &&& stores.len() == n + 3
            &&& stores[n + 1] == (StoreView {
                settings: stores[n].settings.insert(
                    key_text(SettingKey::Repeat),
                    mode_text(p.queue.repeat),
                ),
                ..stores[n]
            })
            &&& stores[n + 2] == (StoreView {
                settings: stores[n + 1].settings.insert(
                    key_text(SettingKey::Loop),
                    loop_text(p.queue.loop_set),
                ),
                ..stores[n + 1]
            })
        },
{
    assert(said.take(said.len() as int) =~= said);
    assert(said.take(n).take(n) =~= said.take(n));
    if said.len() > n {
        assert(serves(op, said, stores, n));
        let t = said.take(n);
        assert(persist_rules_of(p, t, n).end is Ask);
        assert(op(t).end is Ask);
        if said.len() > n + 1 {
            let u = said.take(n + 1);
            assert(u.take(n) =~= said.take(n));
            assert(u[n] == said[n]);
            assert(serves(op, said, stores, n + 1));
            assert(persist_rules_of(p, u, n).end is Ask);
            assert(op(u).end is Ask);
            if said.len() > n + 2 {
                let v = said.take(n + 2);
                assert(v.take(n) =~= said.take(n));
                assert(v[n] == said[n] && v[n + 1] == said[n + 1]);
                assert(serves(op, said, stores, n + 2));
                assert(persist_rules_of(p, v, n).end is Done);
                assert(op(v).end is Done);
            }
        }
    }
    assert(op(said).end is Done || op(said).end is Ask);
}

/// An empty store holds the queue that nothing has been put in.
pub proof fn law_first_queue_is_kept()
    ensures
        kept(QueueView::fresh(), StoreView::empty()),
{
}

/// A repeat mode that was set is kept: the store holds the queue as the player has
/// it.
pub proof fn law_repeat_mode_is_kept(
    p: PlayerView,
    mode: RepeatMode,
    said: Seq<Answer>,
    stores: Seq<StoreView>,
)
    requires
        hosted(|t: Seq<Answer>| set_repeat_of(p, t, 0, mode), said, stores),
        kept(p.queue, stores[0]),
    ensures
        !(set_repeat_of(p, said, 0, mode).end is Failed),
        set_repeat_of(p, said, 0, mode).end is Done ==> kept(
            set_repeat_of(p, said, 0, mode).state.queue,
            stores.last(),
        ),
{
    let op = |t: Seq<Answer>| set_repeat_of(p, t, 0, mode);
    let q = p.with_queue(p.queue.with_repeat(mode));
    lemma_rules_hosted(op, q, said, stores, 0);
    if op(said).end is Done {
        lemma_rules_kept(q.queue, stores[0], stores[1], stores[2]);
    }
}

/// A loop that was set is kept.
pub proof fn law_loop_is_kept(
    p: PlayerView,
    chosen: Option<Seq<usize>>,
    said: Seq<Answer>,
    stores: Seq<StoreView>,
)
    requires
        hosted(|t: Seq<Answer>| set_loop_of(p, t, 0, chosen), said, stores),
        kept(p.queue, stores[0]),
    ensures
        !(set_loop_of(p, said, 0, chosen).end is Failed),
        set_loop_of(p, said, 0, chosen).end is Done ==> kept(
            set_loop_of(p, said, 0, chosen).state.queue,
            stores.last(),
        ),
{
    let op = |t: Seq<Answer>| set_loop_of(p, t, 0, chosen);
    let q = p.with_queue(p.queue.looped(chosen));
    lemma_rules_hosted(op, q, said, stores, 0);
    if op(said).end is Done {
        lemma_rules_kept(q.queue, stores[0], stores[1], stores[2]);
    }
}

/// Whether shuffling is on is kept.
pub proof fn law_shuffle_is_kept(
    p: PlayerView,
    on: bool,
    said: Seq<Answer>,
    stores: Seq<StoreView>,
)
    requires
        hosted(|t: Seq<Answer>| set_shuffle_of(p, t, 0, on), said, stores),
        kept(p.queue, stores[0]),
    ensures
        !(set_shuffle_of(p, said, 0, on).end is Failed),
        set_shuffle_of(p, said, 0, on).end is Done ==> kept(
            set_shuffle_of(p, said, 0, on).state.queue,
            stores.last(),
        ),
{
    let op = |t: Seq<Answer>| set_shuffle_of(p, t, 0, on);
    assert(said.take(said.len() as int) =~= said);
    if said.len() > 0 {
        assert(serves(op, said, stores, 0));
        if said.len() > 1 {
            assert(said.take(1)[0] == said[0]);
            assert(serves(op, said, stores, 1));
            if said.len() > 2 {
                assert(said.take(2)[0] == said[0] && said.take(2)[1] == said[1]);
                assert(serves(op, said, stores, 2));
            } else {
                let s = stores[1];
                lemma_setting_stored(s, SettingKey::Shuffle, switch_text(on), SettingKey::Repeat);
                lemma_setting_stored(s, SettingKey::Shuffle, switch_text(on), SettingKey::Loop);
            }
        }
    }
}

/// A queue that was set is kept, where its tracks are in the library.
pub proof fn law_queue_is_kept(
    p: PlayerView,
    ids: Seq<i64>,
    start: Option<usize>,
    said: Seq<Answer>,
    stores: Seq<StoreView>,
)
    requires
        hosted(|t: Seq<Answer>| set_queue_of(p, t, 0, ids, start), said, stores),
        kept(p.queue, stores[0]),
        ids.len() <= usize::MAX,
        forall|i: int|
            0 <= i < ids.len() ==> crate::player_model::ids_of(stores[0].tracks).contains(
                #[trigger] ids[i],
            ),
    ensures
        !(set_queue_of(p, said, 0, ids, start).end is Failed),
        set_queue_of(p, said, 0, ids, start).end is Done ==> kept(
            set_queue_of(p, said, 0, ids, start).state.queue,
            stores.last(),
        ),
{
    let op = |t: Seq<Answer>| set_queue_of(p, t, 0, ids, start);
    assert(said.take(said.len() as int) =~= said);
    if said.len() > 0 {
        assert(serves(op, said, stores, 0));
        if said.len() > 1 {
            assert(said.take(1)[0] == said[0]);
            assert(serves(op, said, stores, 1));
            let seed = said[0]->Seed_0;
            let q = p.with_queue(p.queue.replaced(ids, start, seed));
            assert forall|t: Seq<Answer>|
                #![trigger op(t)]
                t.len() >= 2 && t.take(2) == said.take(2) implies {
                let rules = persist_rules_of(q, t, 2);
                &&& (rules.end matches Progress::Ask(a) ==> op(t).end == Progress::<
                    ActionView,
                    (),
                    ErrorView,
                >::Ask(a))
                &&& rules.end is Done ==> op(t).end is Done && op(t).state == q
                &&& rules.end is Failed ==> op(t).end is Failed
            } by {
                assert(t[0] == t.take(2)[0] && t[1] == t.take(2)[1]);
                assert(said.take(2)[0] == said[0] && said.take(2)[1] == said[1]);
            }
            lemma_rules_hosted(op, q, said, stores, 2);
            if op(said).end is Done {
                let s = stores[0];
                law_saved_queue_loads_back(s, q.queue.items, q.queue.current);
                lemma_queue_stored(s, q.queue.items, q.queue.current, SettingKey::Shuffle);
                lemma_rules_kept(q.queue, stores[2], stores[3], stores[4]);
            }
        }
    }
}

/// What is left of restoring once the store has been read: the saved layout handed
/// to the engines, and what plays taken over.
pub open spec fn rest_of(
    p: PlayerView,
    said: Seq<Answer>,
    at: int,
    layout: Option<VideoWindowLayout>,
) -> Run<()> {
    then_do(
        match layout {
            Some(l) => tell_all_of(p, said, at, EngineCall::SetLayout(l), 0),
            None => ends(p, at, ()),
        },
        |p: PlayerView, at: int, u: ()| adopt_of(p, said, at, 0),
    )
}

/// Engines told the same, of which each does as it is told.
proof fn lemma_all_told(
    p: PlayerView,
    said: Seq<Answer>,
    at: int,
    l: VideoWindowLayout,
    i: int,
)
    requires
        0 <= at <= said.len(),
        0 <= i <= p.registry.engines.len(),
        forall|k: int| at <= k < at + p.registry.engines.len() - i && k < said.len() ==> (
        #[trigger] said[k]) is Finished,
    ensures
        ({
            let o = tell_all_of(p, said, at, EngineCall::SetLayout(l), i);
            let n = p.registry.engines.len();
            &&& o.state == p
            &&& said.len() - at >= n - i ==> o.end is Done && o.at == at + n - i
            &&& said.len() - at < n - i ==> o.end == Progress::<ActionView, (), ErrorView>::Ask(
                ActionView::Engine {
                    index: (i + said.len() - at) as usize,
                    call: EngineCall::SetLayout(l),
                },
            )
        }),
    decreases p.registry.engines.len() - i,
{
    if i < p.registry.engines.len() && at < said.len() {
        assert(said[at] is Finished);
        lemma_all_told(p, said, at + 1, l, i + 1);
    }
}

/// Engines that are asked what plays, and play nothing.
proof fn lemma_none_adopted(p: PlayerView, said: Seq<Answer>, at: int, i: int)
    requires
        0 <= at <= said.len(),
        0 <= i <= p.registry.engines.len(),
        forall|k: int| at <= k < at + p.registry.engines.len() - i && k < said.len() ==> idle(
            #[trigger] said[k],
        ),
    ensures
        ({
            let o = adopt_of(p, said, at, i);
            let n = p.registry.engines.len();
            &&& o.state == p
            &&& said.len() - at >= n - i ==> o.end is Done && o.at == at + n - i
            &&& said.len() - at < n - i ==> o.end == Progress::<ActionView, (), ErrorView>::Ask(
                ActionView::Engine {
                    index: (i + said.len() - at) as usize,
                    call: EngineCall::Snapshot,
                },
            )
        }),
    decreases p.registry.engines.len() - i,
{
    if i < p.registry.engines.len() && at < said.len() {
        assert(idle(said[at]));
        lemma_none_adopted(p, said, at + 1, i + 1);
    }
}

/// An engine's report that it plays nothing.
pub open spec fn idle(answer: Answer) -> bool {
    answer matches Answer::Snapshot(snap) && snap.path is None
}

/// The answers to what is left of restoring.
pub open spec fn rest_answered(
    n: int,
    said: Seq<Answer>,
    at: int,
    layout: Option<VideoWindowLayout>,
    upto: int,
) -> bool {
    let m = if layout is Some {
        at + n
    } else {
        at
    };
    &&& forall|k: int| at <= k < m && k < upto ==> (#[trigger] said[k]) is Finished
    &&& forall|k: int| m <= k < m + n && k < upto ==> idle(#[trigger] said[k])
}

/// How far the rest comes with answers that fit.
proof fn lemma_rest(p: PlayerView, t: Seq<Answer>, at: int, layout: Option<VideoWindowLayout>)
    requires
        0 <= at <= t.len(),
        rest_answered(p.registry.engines.len() as int, t, at, layout, t.len() as int),
    ensures
        ({
            let n = p.registry.engines.len();
            let m = if layout is Some {
                at + n
            } else {
                at
            };
            let o = rest_of(p, t, at, layout);
            &&& o.state == p
            &&& !(o.end is Failed)
            &&& t.len() >= m + n ==> o.end is Done
            &&& t.len() < m ==> o.end == Progress::<ActionView, (), ErrorView>::Ask(
                ActionView::Engine {
                    index: (t.len() - at) as usize,
                    call: EngineCall::SetLayout(layout->0),
                },
            )
            &&& m <= t.len() < m + n ==> o.end == Progress::<ActionView, (), ErrorView>::Ask(
                ActionView::Engine { index: (t.len() - m) as usize, call: EngineCall::Snapshot },
            )
        }),
{
    let n = p.registry.engines.len();
    if let Some(l) = layout {
        lemma_all_told(p, t, at, l, 0);
        if t.len() >= at + n {
            lemma_none_adopted(p, t, at + n, 0);
        }
    } else {
        lemma_none_adopted(p, t, at, 0);
    }
}

/// The answers of the host fit what is left of restoring.
proof fn lemma_rest_hosted(
    op: spec_fn(Seq<Answer>) -> Run<()>,
    p: PlayerView,
    said: Seq<Answer>,
    stores: Seq<StoreView>,
    at: int,
    layout: Option<VideoWindowLayout>,
    upto: int,
)
    requires
        hosted(op, said, stores),
        0 <= at <= upto <= said.len(),
        forall|t: Seq<Answer>|
            #![trigger op(t)]
            t.len() >= at && t.take(at) == said.take(at) ==> op(t) == rest_of(p, t, at, layout),
    ensures
        rest_answered(p.registry.engines.len() as int, said, at, layout, upto),
    decreases upto - at,
{
    if upto > at {
        let k = upto - 1;
        lemma_rest_hosted(op, p, said, stores, at, layout, k);
        let t = said.take(k);
        assert(t.take(at) =~= said.take(at));
        assert(op(t) == rest_of(p, t, at, layout));
        assert(rest_answered(p.registry.engines.len() as int, t, at, layout, t.len() as int)) by {
            assert forall|j: int| 0 <= j < k implies t[j] == said[j] by {}
        }
        lemma_rest(p, t, at, layout);
        assert(serves(op, said, stores, k));
    }
}

/// A player that has read a store.
pub open spec fn reread(
    registry: RegistryView,
    s: StoreView,
    first: u64,
    repeat: Option<String>,
    second: u64,
    shuffle: Option<String>,
    saved: Option<String>,
    policy: PolicyView,
) -> PlayerView {
    let loaded = QueueView::fresh().replaced(s.queue, s.queue_index(), first);
    PlayerView {
        queue: restored_loop(
            restored_repeat(loaded, repeat).with_shuffle(
                shuffle matches Some(t) && t@ == "on"@,
                second,
            ),
            saved,
        ),
        registry: RegistryView { policy, ..registry },
        ..fresh(registry)
    }
}

/// Queue, current row, repeat mode, shuffle and loop all survive: a new player over
/// the store that an earlier one kept them in has them as they were, with a loop
/// and no repeat mode where there was a loop, and with nothing current. Its status
/// says so. Engines that play nothing never make it fail.
pub proof fn law_new_player_has_what_was_kept(
    queue: QueueView,
    registry: RegistryView,
    said: Seq<Answer>,
    stores: Seq<StoreView>,
    more: Seq<Answer>,
    at: int,
)
    requires
        queue.wf(),
        kept(queue, stores[0]),
        hosted(|t: Seq<Answer>| restore_of(fresh(registry), t, 0), said, stores),
    ensures
        ({
            let run = restore_of(fresh(registry), said, 0);
            &&& !(run.end is Failed)
            &&& run.end is Done ==> {
                &&& run.state.queue.items == queue.items
                &&& run.state.queue.current == queue.current
                &&& run.state.queue.repeat == queue.repeat
                &&& run.state.queue.shuffle == queue.shuffle
                &&& run.state.queue.loop_set == queue.loop_set
                &&& queue.loop_set is Some ==> run.state.queue.repeat == RepeatMode::Off
                &&& run.state.current is None
                &&& run.state.active is None
                &&& status_of(run.state, more, at).end matches Progress::Done(status)
                    && status.queue_len == queue.items.len() && status.queue_index
                    == queue.current && status.repeat == queue.repeat && status.shuffle
                    == queue.shuffle && status.loop_positions == (match queue.loop_set {
                    Some(set) => set,
                    None => Seq::empty(),
                }) && status.track is None
            }
        }),
{
    let op = |t: Seq<Answer>| restore_of(fresh(registry), t, 0);
    let s = stores[0];
    assert(said.take(said.len() as int) =~= said);
    lemma_store_is_read(op, registry, said, stores, said.len() as int);
    if said.len() >= 8 {
        let p = read_player(registry, s, said);
        let layout = read_layout(said);
        assert forall|t: Seq<Answer>|
            #![trigger op(t)]
            t.len() >= 8 && t.take(8) == said.take(8) implies op(t) == rest_of(
            p,
            t,
            8,
            layout,
        ) by {
            assert forall|j: int| 0 <= j < 8 implies t[j] == said[j] by {
                assert(t.take(8)[j] == said.take(8)[j]);
            }
        }
        lemma_rest_hosted(op, p, said, stores, 8, layout, said.len() as int);
        lemma_rest(p, said, 8, layout);
        assert(op(said) == rest_of(p, said, 8, layout));
        lemma_kept_is_read(queue, s, registry, said);
    }
}

/// The player once the store has been read by the first eight answers.
pub open spec fn read_player(
    registry: RegistryView,
    s: StoreView,
    said: Seq<Answer>,
) -> PlayerView {
    reread(
        registry,
        s,
        said[1]->Seed_0,
        said[2]->Text_0,
        said[4]->Seed_0,
        said[3]->Text_0,
        said[5]->Text_0,
        match said[6]->Text_0 {
            Some(t) => policy_of(t@),
            None => PolicyView::Auto,
        },
    )
}

pub open spec fn read_layout(said: Seq<Answer>) -> Option<VideoWindowLayout> {
    match said[7]->Text_0 {
        Some(t) => layout_of(t@),
        None => None,
    }
}

/// Whether the first `k` answers, of eight, are what the store holds.
pub open spec fn read_from(s: StoreView, said: Seq<Answer>, k: int) -> bool {
    &&& k > 0 ==> (said[0] matches Answer::Queue { items, current } && items@ == s.queue
        && current == s.queue_index())
    &&& k > 1 ==> said[1] is Seed
    &&& k > 2 ==> (said[2] matches Answer::Text(t) && text_view(t) == stored(
        s,
        SettingKey::Repeat,
    ))
    &&& k > 3 ==> (said[3] matches Answer::Text(t) && text_view(t) == stored(
        s,
        SettingKey::Shuffle,
    ))
    &&& k > 4 ==> said[4] is Seed
    &&& k > 5 ==> (said[5] matches Answer::Text(t) && text_view(t) == stored(s, SettingKey::Loop))
    &&& k > 6 ==> said[6] is Text
    &&& k > 7 ==> said[7] is Text
}

/// What restoring asks for after the first few answers.
proof fn lemma_read_asks(registry: RegistryView, s: StoreView, t: Seq<Answer>)
    requires
        t.len() < 8,
        read_from(s, t, t.len() as int),
    ensures
        restore_of(fresh(registry), t, 0).end == Progress::<ActionView, (), ErrorView>::Ask(
            if t.len() == 0 {
                ActionView::LoadQueue
            } else if t.len() == 1 || t.len() == 4 {
                ActionView::Seed
            } else {
                ActionView::Setting(
                    if t.len() == 2 {
                        SettingKey::Repeat
                    } else if t.len() == 3 {
                        SettingKey::Shuffle
                    } else if t.len() == 5 {
                        SettingKey::Loop
                    } else if t.len() == 6 {
                        SettingKey::EnginePolicy
                    } else {
                        SettingKey::VideoWindow
                    },
                )
            },
        ),
{
    let p = fresh(registry);
    let a = restore_queue_of(p, t, 0);
    if t.len() >= 2 {
        assert(a.end is Done && a.at == 2);
        let b = restore_rules_of(a.state, t, 2);
        if t.len() >= 6 {
            assert(b.end is Done && b.at == 6);
            let c = restore_policy_of(b.state, t, 6);
            if t.len() == 7 {
                assert(c.end is Done && c.at == 7);
            }
        }
    }
}

/// The host reads the first eight answers out of its store, and changes nothing.
proof fn lemma_store_is_read(
    op: spec_fn(Seq<Answer>) -> Run<()>,
    registry: RegistryView,
    said: Seq<Answer>,
    stores: Seq<StoreView>,
    k: int,
)
    requires
        op == |t: Seq<Answer>| restore_of(fresh(registry), t, 0),
        hosted(op, said, stores),
        0 <= k <= said.len(),
    ensures
        read_from(stores[0], said, k),
        k <= 8 ==> stores[k] == stores[0],
        k < 8 ==> op(said.take(k)).end is Ask,
    decreases k,
{
    if k > 0 {
        lemma_store_is_read(op, registry, said, stores, k - 1);
    }
    if k <= 8 {
        if k > 0 {
            let t = said.take(k - 1);
            assert forall|j: int| 0 <= j < k - 1 implies t[j] == said[j] by {}
            assert(read_from(stores[0], t, t.len() as int));
            lemma_read_asks(registry, stores[0], t);
            assert(serves(op, said, stores, k - 1));
        }
        if k < 8 {
            let t = said.take(k);
            assert forall|j: int| 0 <= j < k implies t[j] == said[j] by {}
            assert(read_from(stores[0], t, t.len() as int));
            lemma_read_asks(registry, stores[0], t);
        }
    }
}

/// What was kept is what is read.
proof fn lemma_kept_is_read(
    queue: QueueView,
    s: StoreView,
    registry: RegistryView,
    said: Seq<Answer>,
)
    requires
        queue.wf(),
        kept(queue, s),
        said.len() >= 8,
        read_from(s, said, 8),
    ensures
        ({
            let again = read_player(registry, s, said).queue;
            &&& again.items == queue.items
            &&& again.current == queue.current
            &&& again.repeat == queue.repeat
            &&& again.shuffle == queue.shuffle
            &&& again.loop_set == queue.loop_set
        }),
{
    let first = said[1]->Seed_0;
    let second = said[4]->Seed_0;
    reveal_strlit("on");
    reveal_strlit("off");
    assert("on"@.len() == 2 && "off"@.len() == 3);
    law_stored_rules_are_restored(
        queue,
        said[2]->Text_0,
        said[3]->Text_0,
        said[5]->Text_0,
        first,
        second,
    );
}

} // verus!
