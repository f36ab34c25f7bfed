//! What holds of the queue across operations.

use vstd::prelude::*;

use crate::queue::{
    is_slots, lemma_play_order, lemma_slots, play_order, position_after, slots, QueueView,
    RepeatMode,
};
use crate::shuffle::{is_order, lemma_identity_is_order, lemma_shuffled_is_order, shuffled};

verus! {

/// The queue after `k` calls of `next`.
pub open spec fn walked(q: QueueView, k: nat) -> QueueView
    decreases k,
{
    if k == 0 {
        q
    } else {
        let p = walked(q, (k - 1) as nat);
        p.gone_to(p.next_position())
    }
}

/// A queue shuffled from where it stands keeps the current track first.
pub proof fn law_shuffle_starts_from_current(q: QueueView, s: u64)
    requires
        q.wf(),
        q.shuffle,
        q.current is Some,
        q.items.len() >= 2,
    ensures
        q.reshuffled(s).order[0] == q.current->0,
        q.reshuffled(s).wf(),
{
    lemma_play_order(q.items.len(), q.shuffle, q.current, s);
}

/// From the start of its order, a queue without a loop comes to every row
/// exactly once, in that order.
pub proof fn law_walk_follows_the_order(q: QueueView, k: nat)
    requires
        q.wf(),
        q.loop_set is None,
        q.items.len() > 0,
        q.current == Some(q.order[0]),
        k < q.items.len(),
    ensures
        walked(q, k) == q.with_current(q.order[k as int]),
        walked(q, k).wf(),
        forall|row: usize| row < q.items.len() ==> #[trigger] q.order.contains(row),
        q.order.no_duplicates(),
    decreases k,
{
    if k > 0 {
        law_walk_follows_the_order(q, (k - 1) as nat);
        let p = walked(q, (k - 1) as nat);
        assert(q.order[k - 1] == p.current->0);
        assert(q.order.contains(p.current->0));
        assert(q.order.index_of(p.current->0) == k - 1);
    }
}

/// At the end of its order a queue stops, unless it repeats.
pub proof fn law_walk_ends(q: QueueView)
    requires
        q.wf(),
        q.loop_set is None,
        q.items.len() > 0,
        q.current == Some(q.order.last()),
    ensures
        q.repeat != RepeatMode::All ==> q.next_position() is None,
        q.repeat == RepeatMode::All ==> q.next_position() == Some(q.order[0]),
{
    assert(q.order.contains(q.order.last()));
    assert(q.order.index_of(q.order.last()) == q.order.len() - 1);
}

/// Going back undoes going on, and going on undoes going back. A selection
/// outside the loop is left out: entering a loop is not undone.
pub proof fn law_previous_undoes_next(q: QueueView)
    requires
        q.wf(),
        q.current is Some,
        q.loop_set is Some ==> q.loop_set->0.contains(q.current->0),
    ensures
        q.next_position() is Some ==> q.gone_to(q.next_position()).previous_position()
            == q.current,
        q.previous_position() is Some ==> q.gone_to(q.previous_position()).next_position()
            == q.current,
{
    let c = q.current->0;
    let list = match q.loop_set {
        Some(set) => set,
        None => q.order,
    };
    assert(list.contains(c));
    assert(list.no_duplicates());
    let at = list.index_of(c);
    assert(list[at] == c);
    if let Some(t) = q.next_position() {
        let to = if at + 1 < list.len() {
            at + 1
        } else {
            0
        };
        assert(list[to] == t);
        assert(list.contains(t));
        assert(list.index_of(t) == to);
    }
    if let Some(t) = q.previous_position() {
        let to = if at > 0 {
            at - 1
        } else {
            list.len() - 1
        };
        assert(list[to] == t);
        assert(list.contains(t));
        assert(list.index_of(t) == to);
    }
}

/// A loop confines playback: both directions stay on its rows, and neither
/// ever ends.
pub proof fn law_loop_confines(q: QueueView)
    requires
        q.wf(),
        q.loop_set is Some,
    ensures
        q.next_position() is Some,
        q.loop_set->0.contains(q.next_position()->0),
        q.previous_position() is Some,
        q.loop_set->0.contains(q.previous_position()->0),
{
    let set = q.loop_set->0;
    assert(set.contains(set[0]));
    assert(set.contains(set.last()));
    if let Some(c) = q.current {
        if set.contains(c) {
            let at = set.index_of(c);
            if at + 1 < set.len() {
                assert(set.contains(set[at + 1]));
            }
            if at > 0 {
                assert(set.contains(set[at - 1]));
            }
        }
    }
}

/// From its first row, a loop is walked row by row and comes back to its first.
pub proof fn law_loop_wraps(q: QueueView, k: nat)
    requires
        q.wf(),
        q.loop_set is Some,
        q.current == Some(q.loop_set->0[0]),
        k <= q.loop_set->0.len(),
    ensures
        k < q.loop_set->0.len() ==> walked(q, k) == q.with_current(q.loop_set->0[k as int]),
        k == q.loop_set->0.len() ==> walked(q, k) == q,
    decreases k,
{
    let set = q.loop_set->0;
    if k > 0 {
        law_loop_wraps(q, (k - 1) as nat);
        assert(set.contains(set[k - 1]));
        assert(set.index_of(set[k - 1]) == k - 1);
    }
}

/// A loop and a repeat mode replace each other.
pub proof fn law_loop_and_repeat_exclude(q: QueueView, chosen: Seq<usize>, mode: RepeatMode)
    requires
        q.wf(),
    ensures
        q.loop_set is Some ==> q.repeat == RepeatMode::Off,
        q.looped(Some(chosen)).loop_set is Some ==> q.looped(Some(chosen)).repeat
            == RepeatMode::Off,
        q.with_repeat(mode).loop_set is None,
        (forall|p: usize| chosen.contains(p) ==> p >= q.items.len()) ==> q.looped(
            Some(chosen),
        ).loop_set is None,
{
    lemma_slots(chosen, q.items.len());
    let set = slots(chosen, q.items.len());
    if set.len() > 0 {
        assert(set.contains(set[0]));
    }
}

/// A loop holds the chosen rows that exist, each once, in the order they are
/// displayed.
pub proof fn law_loop_is_sorted_and_in_range(q: QueueView, chosen: Seq<usize>)
    requires
        q.wf(),
        q.looped(Some(chosen)).loop_set is Some,
    ensures
        is_slots(q.looped(Some(chosen)).loop_set->0, q.items.len()),
        forall|p: usize| #[trigger]
            q.looped(Some(chosen)).loop_set->0.contains(p) <==> p < q.items.len()
                && chosen.contains(p),
{
    lemma_slots(chosen, q.items.len());
}

/// Adding to the queue, at either end, never changes what plays.
pub proof fn law_adding_keeps_what_plays(q: QueueView, tracks: Seq<i64>, s: u64)
    requires
        q.wf(),
        q.items.len() + tracks.len() <= usize::MAX,
    ensures
        q.extended(tracks, s).playing() == q.playing(),
        q.staged(tracks, s).playing() == q.playing(),
        q.extended(tracks, s).items == q.items + tracks,
        q.staged(tracks, s).items == tracks + q.items,
{
    assert(q.items + Seq::<i64>::empty() =~= q.items);
    if tracks.len() == 0 {
        assert(tracks =~= Seq::<i64>::empty());
        assert(tracks + q.items =~= q.items);
    }
}

/// A loop follows its rows through staging: the same tracks, in the same order.
pub proof fn law_staging_keeps_the_loop(q: QueueView, tracks: Seq<i64>, s: u64)
    requires
        q.wf(),
        q.items.len() + tracks.len() <= usize::MAX,
        q.loop_set is Some,
    ensures
        q.staged(tracks, s).loop_set is Some,
        q.staged(tracks, s).loop_set->0.len() == q.loop_set->0.len(),
        forall|i: int|
            0 <= i < q.loop_set->0.len() ==> q.staged(tracks, s).items[#[trigger] q.staged(
                tracks,
                s,
            ).loop_set->0[i] as int] == q.items[q.loop_set->0[i] as int],
{
    let set = q.loop_set->0;
    assert forall|i: int| 0 <= i < set.len() implies q.staged(tracks, s).items[#[trigger] q.staged(
        tracks,
        s,
    ).loop_set->0[i] as int] == q.items[set[i] as int] by {
        assert(set[i] < q.items.len());
    }
}

/// The row that stood at `p` stands at `position_after(p)` once another moved.
pub proof fn law_moving_carries_every_row(q: QueueView, from: usize, to: usize, s: u64, p: int)
    requires
        q.wf(),
        q.moves(from, to),
        0 <= p < q.items.len(),
    ensures
        0 <= position_after(p, from as int, to as int) < q.items.len(),
        q.moved(from, to, s).items.len() == q.items.len(),
        q.moved(from, to, s).items[position_after(p, from as int, to as int)] == q.items[p],
        q.moved(from, to, s).items.to_multiset() =~= q.items.to_multiset(),
{
    let x = q.items[from as int];
    let rest = q.items.remove(from as int);
    q.items.remove_ensures(from as int);
    rest.insert_ensures(to as int, x);
    vstd::seq_lib::to_multiset_remove(q.items, from as int);
    vstd::seq_lib::to_multiset_insert(rest, to as int, x);
    q.items.to_multiset_ensures();
    assert(q.items.to_multiset().contains(x));
}

/// Moving a row changes neither what plays nor which tracks loop.
pub proof fn law_moving_keeps_what_plays(q: QueueView, from: usize, to: usize, s: u64)
    requires
        q.wf(),
        q.moves(from, to),
    ensures
        q.moved(from, to, s).playing() == q.playing(),
        q.loop_set is Some ==> forall|p: usize| #[trigger]
            q.loop_set->0.contains(p) ==> {
                let now = position_after(p as int, from as int, to as int);
                &&& q.moved(from, to, s).loop_set->0.contains(now as usize)
                &&& q.moved(from, to, s).items[now] == q.items[p as int]
            },
{
    if let Some(c) = q.current {
        law_moving_carries_every_row(q, from, to, s, c as int);
    }
    if let Some(set) = q.loop_set {
        let carried = Seq::new(
            set.len(),
            |i: int| position_after(set[i] as int, from as int, to as int) as usize,
        );
        lemma_slots(carried, q.items.len());
        assert forall|p: usize| #[trigger] set.contains(p) implies {
            let now = position_after(p as int, from as int, to as int);
            &&& q.moved(from, to, s).loop_set->0.contains(now as usize)
            &&& q.moved(from, to, s).items[now] == q.items[p as int]
        } by {
            let i = set.index_of(p);
            assert(set[i] == p && p < q.items.len());
            law_moving_carries_every_row(q, from, to, s, p as int);
            assert(carried[i] == position_after(p as int, from as int, to as int) as usize);
            assert(carried.contains(carried[i]));
        }
    }
}

/// Two increasing lists with the same members are the same list.
pub proof fn lemma_increasing_equal(a: Seq<usize>, b: Seq<usize>, n: nat)
    requires
        is_slots(a, n),
        is_slots(b, n),
        forall|p: usize| a.contains(p) <==> b.contains(p),
    ensures
        a == b,
    decreases a.len(),
{
    if a.len() == 0 {
        if b.len() > 0 {
            assert(b.contains(b[0]));
        }
        assert(a =~= b);
    } else {
        assert(a.contains(a.last()));
        let x = a.last();
        let j = choose|j: int| 0 <= j < b.len() && b[j] == x;
        let y = b.last();
        assert(b.contains(y));
        let i = choose|i: int| 0 <= i < a.len() && a[i] == y;
        assert(x == y);
        let c = a.drop_last();
        let d = b.drop_last();
        assert forall|p: usize| c.contains(p) <==> d.contains(p) by {
            if c.contains(p) {
                let k = choose|k: int| 0 <= k < c.len() && c[k] == p;
                assert(a[k] == p && p < x);
                assert(a.contains(p));
                let m = choose|m: int| 0 <= m < b.len() && b[m] == p;
                assert(d[m] == p);
            }
            if d.contains(p) {
                let k = choose|k: int| 0 <= k < d.len() && d[k] == p;
                assert(b[k] == p && p < y);
                assert(b.contains(p));
                let m = choose|m: int| 0 <= m < a.len() && a[m] == p;
                assert(c[m] == p);
            }
        }
        lemma_increasing_equal(c, d, n);
        assert(a =~= c.push(x));
        assert(b =~= d.push(y));
    }
}

/// Positions that are in order and within the queue are kept as they are.
pub proof fn lemma_slots_kept(set: Seq<usize>, n: nat)
    requires
        is_slots(set, n),
        n <= usize::MAX,
    ensures
        slots(set, n) == set,
{
    lemma_slots(set, n);
    assert forall|p: usize| slots(set, n).contains(p) <==> set.contains(p) by {
        if set.contains(p) {
            let k = choose|k: int| 0 <= k < set.len() && set[k] == p;
            assert(set[k] < n);
        }
    }
    lemma_increasing_equal(slots(set, n), set, n);
}

/// Moving a row back where it was restores the list, the selection and the loop.
#[verifier::spinoff_prover]
#[verifier::rlimit(60)]
pub proof fn law_moving_back_restores(q: QueueView, from: usize, to: usize, s: u64, t: u64)
    requires
        q.wf(),
        q.moves(from, to),
    ensures
        q.moved(from, to, s).moved(to, from, t).items == q.items,
        q.moved(from, to, s).moved(to, from, t).current == q.current,
        q.moved(from, to, s).moved(to, from, t).loop_set == q.loop_set,
{
    let m = q.moved(from, to, s);
    let b = m.moved(to, from, t);
    q.items.remove_ensures(from as int);
    q.items.remove(from as int).insert_ensures(to as int, q.items[from as int]);
    assert(m.items.remove(to as int) =~= q.items.remove(from as int));
    assert(b.items =~= q.items);
    if let Some(set) = q.loop_set {
        let n = q.items.len();
        let there = Seq::new(
            set.len(),
            |i: int| position_after(set[i] as int, from as int, to as int) as usize,
        );
        let away = slots(there, n);
        let back = Seq::new(
            away.len(),
            |i: int| position_after(away[i] as int, to as int, from as int) as usize,
        );
        lemma_slots(there, n);
        lemma_slots(back, n);
        assert forall|p: usize| slots(back, n).contains(p) <==> set.contains(p) by {
            if set.contains(p) {
                let i = set.index_of(p);
                assert(there[i] == position_after(p as int, from as int, to as int) as usize);
                assert(set[i] == p && p < n);
                assert(there.contains(there[i]) && there[i] < n);
                assert(away.contains(there[i]));
                let j = away.index_of(there[i]);
                assert(back[j] == p);
                assert(back.contains(p));
            }
            if slots(back, n).contains(p) {
                let j = back.index_of(p);
                assert(away.contains(away[j]));
                let i = there.index_of(away[j]);
                assert(set[i] < n);
                assert(set[i] == p);
            }
        }
        lemma_increasing_equal(slots(back, n), set, n);
    }
}

/// A rearrangement of `s` by an order holds what `s` holds.
pub proof fn lemma_rearranged_multiset(s: Seq<i64>, order: Seq<usize>)
    requires
        s.len() <= usize::MAX,
        is_order(order, s.len()),
    ensures
        Seq::new(s.len(), |i: int| s[order[i] as int]).to_multiset() =~= s.to_multiset(),
    decreases s.len(),
{
    let r = Seq::new(s.len(), |i: int| s[order[i] as int]);
    if s.len() == 0 {
        assert(r =~= s);
    } else {
        let m = (s.len() - 1) as usize;
        assert(order.contains(m));
        let k = order.index_of(m);
        let rest = s.drop_last();
        let sub = order.remove(k);
        order.remove_ensures(k);
        assert(is_order(sub, rest.len())) by {
            assert forall|c: usize| c < rest.len() implies #[trigger] sub.contains(c) by {
                assert(order.contains(c));
                let i = order.index_of(c);
                if i < k {
                    assert(sub[i] == c);
                } else {
                    assert(sub[i - 1] == c);
                }
            }
            assert forall|i: int| 0 <= i < rest.len() implies #[trigger] sub[i] < rest.len() by {
                if i < k {
                    assert(sub[i] == order[i]);
                } else {
                    assert(sub[i] == order[i + 1]);
                }
            }
            assert forall|i: int, j: int|
                0 <= i < sub.len() && 0 <= j < sub.len() && i != j implies sub[i] != sub[j] by {
                let a = if i < k {
                    i
                } else {
                    i + 1
                };
                let b = if j < k {
                    j
                } else {
                    j + 1
                };
                assert(order[a] != order[b]);
            }
        }
        lemma_rearranged_multiset(rest, sub);
        let small = Seq::new(rest.len(), |i: int| rest[sub[i] as int]);
        assert(r.remove(k) =~= small) by {
            assert forall|i: int| 0 <= i < small.len() implies r.remove(k)[i] == small[i] by {
                if i < k {
                    assert(sub[i] == order[i]);
                } else {
                    assert(sub[i] == order[i + 1]);
                }
                assert(sub[i] < rest.len());
            }
        }
        vstd::seq_lib::to_multiset_remove(r, k);
        assert(s.remove(m as int) =~= rest);
        vstd::seq_lib::to_multiset_remove(s, m as int);
        assert(r[k] == s[m as int]);
        r.to_multiset_ensures();
        s.to_multiset_ensures();
        assert(r.to_multiset().contains(r[k]));
        assert(s.to_multiset().contains(s[m as int]));
        assert(r.to_multiset() =~= r.to_multiset().remove(r[k]).insert(r[k]));
        assert(s.to_multiset() =~= s.to_multiset().remove(r[k]).insert(r[k]));
    }
}

/// The order in which a scramble of `rows` by `perm` reads the old list.
pub open spec fn reading_order(n: nat, rows: Seq<usize>, perm: Seq<usize>) -> Seq<usize> {
    Seq::new(
        n,
        |i: int|
            if rows.contains(i as usize) {
                rows[perm[rows.index_of(i as usize)] as int]
            } else {
                i as usize
            },
    )
}

proof fn lemma_reading_order(n: nat, rows: Seq<usize>, perm: Seq<usize>)
    requires
        n <= usize::MAX,
        rows.len() <= n,
        is_slots(rows, n),
        is_order(perm, rows.len()),
    ensures
        is_order(reading_order(n, rows, perm), n),
{
    let r = reading_order(n, rows, perm);
    assert forall|i: int| 0 <= i < n implies #[trigger] r[i] < n by {
        if rows.contains(i as usize) {
            assert(perm[rows.index_of(i as usize)] < rows.len());
        }
    }
    assert forall|c: usize| c < n implies #[trigger] r.contains(c) by {
        if rows.contains(c) {
            let a = rows.index_of(c);
            assert(perm.contains(a as usize));
            let j = perm.index_of(a as usize);
            let i = rows[j] as int;
            assert(rows.contains(rows[j]));
            assert(rows.index_of(rows[j]) == j);
            assert(r[i] == c);
        } else {
            assert(r[c as int] == c);
        }
    }
    assert forall|i: int, j: int| 0 <= i < n && 0 <= j < n && i != j implies r[i] != r[j] by {
        let a = rows.contains(i as usize);
        let b = rows.contains(j as usize);
        if a {
            assert(perm[rows.index_of(i as usize)] < rows.len());
            assert(rows.contains(r[i]));
        }
        if b {
            assert(perm[rows.index_of(j as usize)] < rows.len());
            assert(rows.contains(r[j]));
        }
        if a && b {
            let x = rows.index_of(i as usize);
            let y = rows.index_of(j as usize);
            assert(x != y);
            assert(perm[x] != perm[y]);
        }
    }
}

/// A scramble permutes the chosen rows among themselves: the others stay, no
/// track is lost or gained, the selection follows its track, and the loop stays
/// on its rows.
pub proof fn law_scramble_permutes_the_chosen_rows(
    q: QueueView,
    chosen: Option<Seq<usize>>,
    s: u64,
    t: u64,
)
    requires
        q.wf(),
    ensures
        q.scrambled(chosen, s, t).items.len() == q.items.len(),
        forall|i: int|
            0 <= i < q.items.len() && !q.scramble_slots(chosen).contains(i as usize)
                ==> #[trigger] q.scrambled(chosen, s, t).items[i] == q.items[i],
        q.scrambled(chosen, s, t).items.to_multiset() =~= q.items.to_multiset(),
        q.scrambled(chosen, s, t).playing() == q.playing(),
        q.scrambled(chosen, s, t).loop_set == q.loop_set,
        q.scramble_slots(chosen).len() < 2 ==> q.scrambled(chosen, s, t) == q,
{
    let n = q.items.len();
    let rows = q.scramble_slots(chosen);
    lemma_identity_is_order(n);
    match chosen {
        Some(c) => {
            lemma_slots(c, n);
        },
        None => {},
    }
    assert(is_slots(rows, n));
    if rows.len() >= 2 {
        let perm = shuffled(rows.len(), s);
        lemma_shuffled_is_order(rows.len(), s);
        lemma_reading_order(n, rows, perm);
        lemma_rearranged_multiset(q.items, reading_order(n, rows, perm));
        assert(q.permuted(rows, perm).items =~= Seq::new(
            n,
            |i: int| q.items[reading_order(n, rows, perm)[i] as int],
        ));
        if let Some(c) = q.current {
            if rows.contains(c) {
                let a = rows.index_of(c);
                assert(perm.contains(a as usize));
                let j = perm.index_of(a as usize);
                assert(rows.contains(rows[j]));
                assert(rows.index_of(rows[j]) == j);
            }
        }
    }
}

/// Dropping rows keeps what plays, where its row stays, and drops no row that
/// is alive.
pub proof fn law_pruning_keeps_what_plays(q: QueueView, alive: Seq<i64>, s: u64)
    requires
        q.wf(),
    ensures
        q.pruned(alive, s).items == q.items.filter(|id: i64| alive.contains(id)),
        q.current is Some && alive.contains(q.playing()->0) ==> q.pruned(alive, s).playing()
            == q.playing(),
        q.current is Some && !alive.contains(q.playing()->0) ==> q.pruned(alive, s).current is None,
        q.current is None ==> q.pruned(alive, s).current is None,
{
    let keep = |id: i64| alive.contains(id);
    if q.items.all(keep) {
        lemma_filter_all(q.items, keep);
        if q.current is Some {
            assert(keep(q.items[q.current->0 as int]));
        }
    } else if let Some(c) = q.current {
        if alive.contains(q.items[c as int]) {
            crate::queue::lemma_kept_row(q.items, alive, c as int, q.items.len() as int);
            assert(q.items.take(q.items.len() as int) =~= q.items);
        }
    }
}

/// A filter that everything passes keeps everything.
pub proof fn lemma_filter_all<T>(s: Seq<T>, keep: spec_fn(T) -> bool)
    requires
        s.all(keep),
    ensures
        s.filter(keep) == s,
    decreases s.len(),
{
    reveal(Seq::filter);
    if s.len() > 0 {
        let rest = s.drop_last();
        assert(rest.all(keep)) by {
            assert forall|i: int| 0 <= i < rest.len() implies keep(#[trigger] rest[i]) by {
                assert(keep(s[i]));
            }
        }
        lemma_filter_all(rest, keep);
        assert(keep(s[s.len() - 1]));
        assert(rest.push(s.last()) =~= s);
    }
}

/// The same seed gives the same order.
pub proof fn law_seed_is_reproducible(q: QueueView, seed: u64, s: u64, t: u64)
    requires
        seed != 0,
        q.with_seed(seed).seeds(s),
        q.with_seed(seed).seeds(t),
    ensures
        q.with_seed(seed).reshuffled(s) == q.with_seed(seed).reshuffled(t),
        q.with_seed(seed).reshuffled(s).order == play_order(
            q.items.len(),
            q.shuffle,
            q.current,
            seed,
        ),
{
}

/// Nothing can be walked in an empty queue.
pub proof fn law_empty_queue_is_inert(q: QueueView)
    requires
        q.wf(),
        q.items.len() == 0,
    ensures
        q.next_position() is None,
        q.previous_position() is None,
        q.playing() is None,
{
}

/// From any row, a queue without a loop goes on to the row that follows it in the
/// order, and back to the one before. At the ends it stops, and goes round where it
/// repeats all. The order of a queue that is not shuffled is that of its rows.
pub proof fn law_walk_goes_row_by_row(q: QueueView, k: int)
    requires
        q.wf(),
        q.loop_set is None,
        0 <= k < q.items.len(),
        q.current == Some(q.order[k]),
    ensures
        k + 1 < q.items.len() ==> q.next_position() == Some(q.order[k + 1]),
        k > 0 ==> q.previous_position() == Some(q.order[k - 1]),
        k + 1 == q.items.len() && q.repeat == RepeatMode::All ==> q.next_position() == Some(
            q.order[0],
        ),
        k + 1 == q.items.len() && q.repeat != RepeatMode::All ==> q.next_position() is None,
        k == 0 && q.repeat == RepeatMode::All ==> q.previous_position() == Some(
            q.order[q.items.len() - 1],
        ),
        k == 0 && q.repeat != RepeatMode::All ==> q.previous_position() is None,
        !q.shuffle ==> q.order[k] == k,
{
    assert(q.order.contains(q.order[k]));
    assert(q.order.index_of(q.order[k]) == k);
}

/// Where nothing is selected, a queue goes on to the first row of its order, and back
/// to none. Where it loops, it goes on to the first row of the loop and back to the
/// last, and so it does from a row that is not of the loop.
pub proof fn law_walk_begins(q: QueueView)
    requires
        q.wf(),
        q.items.len() > 0,
    ensures
        q.loop_set is None && q.current is None ==> q.next_position() == Some(q.order[0])
            && q.previous_position() is None,
        q.loop_set matches Some(set) ==> (q.current is None || !set.contains(q.current->0)) ==> {
            &&& q.next_position() == Some(set[0])
            &&& q.previous_position() == Some(set[set.len() - 1])
        },
{
}

/// Within a loop, a queue goes on to the loop's next row and back to the one before,
/// and round at its ends.
pub proof fn law_loop_goes_row_by_row(q: QueueView, k: int)
    requires
        q.wf(),
        q.loop_set is Some,
        0 <= k < q.loop_set->0.len(),
        q.current == Some(q.loop_set->0[k]),
    ensures
        k + 1 < q.loop_set->0.len() ==> q.next_position() == Some(q.loop_set->0[k + 1]),
        k + 1 == q.loop_set->0.len() ==> q.next_position() == Some(q.loop_set->0[0]),
        k > 0 ==> q.previous_position() == Some(q.loop_set->0[k - 1]),
        k == 0 ==> q.previous_position() == Some(q.loop_set->0[q.loop_set->0.len() - 1]),
{
    let set = q.loop_set->0;
    assert(set.contains(set[k]));
    assert(set.index_of(set[k]) == k);
}

/// A new queue holds the given rows, with the given one selected where there is such
/// a row, and no loop. Repeat mode, shuffle and seed stay.
pub proof fn law_new_queue(q: QueueView, tracks: Seq<i64>, start: Option<usize>, s: u64)
    ensures
        ({
            let n = q.replaced(tracks, start, s);
            &&& n.items == tracks
            &&& start matches Some(c) ==> c < tracks.len() ==> n.current == Some(c)
            &&& start matches Some(c) ==> c >= tracks.len() ==> n.current is None
            &&& start is None ==> n.current is None
            &&& n.loop_set is None
            &&& n.repeat == q.repeat
            &&& n.shuffle == q.shuffle
            &&& n.seed == q.seed
        }),
{
}

/// Adding rows moves the selection with its row, by as many rows as come before it, and
/// the loop with its rows. Repeat mode and shuffle stay.
pub proof fn law_adding_moves_the_selection(q: QueueView, tracks: Seq<i64>, s: u64, i: int)
    requires
        q.wf(),
        q.items.len() + tracks.len() <= usize::MAX,
    ensures
        q.extended(tracks, s).current == q.current,
        q.extended(tracks, s).loop_set == q.loop_set,
        q.current matches Some(c) ==> q.staged(tracks, s).current == Some(
            (c + tracks.len()) as usize,
        ),
        q.current is None ==> q.staged(tracks, s).current is None,
        q.loop_set is None ==> q.staged(tracks, s).loop_set is None,
        q.loop_set is Some && 0 <= i < q.loop_set->0.len() ==> q.staged(
            tracks,
            s,
        ).loop_set->0[i] == q.loop_set->0[i] + tracks.len(),
        q.extended(tracks, s).repeat == q.repeat,
        q.extended(tracks, s).shuffle == q.shuffle,
        q.staged(tracks, s).repeat == q.repeat,
        q.staged(tracks, s).shuffle == q.shuffle,
{
    if q.loop_set is Some && 0 <= i < q.loop_set->0.len() {
        assert(q.loop_set->0[i] < q.items.len());
    }
}

/// A row that is moved stands where it was moved to, the rows between move up or down by
/// one, and the others stay.
pub proof fn law_moving_a_row(q: QueueView, from: usize, to: usize, s: u64, p: int)
    requires
        q.wf(),
        from < q.items.len(),
        to < q.items.len(),
        from != to,
        0 <= p < q.items.len(),
    ensures
        ({
            let n = q.moved(from, to, s);
            &&& n.items.len() == q.items.len()
            &&& n.items[to as int] == q.items[from as int]
            &&& from < p <= to ==> n.items[p - 1] == q.items[p]
            &&& to <= p < from ==> n.items[p + 1] == q.items[p]
            &&& p < from && p < to || p > from && p > to ==> n.items[p] == q.items[p]
            &&& q.current == Some(from) ==> n.current == Some(to)
            &&& q.current == Some(p as usize) && from < p <= to ==> n.current == Some(
                (p - 1) as usize,
            )
            &&& q.current == Some(p as usize) && to <= p < from ==> n.current == Some(
                (p + 1) as usize,
            )
            &&& q.current == Some(p as usize) && (p < from && p < to || p > from && p > to)
                ==> n.current == q.current
            &&& q.current is None ==> n.current is None
            &&& q.loop_set is None ==> n.loop_set is None
            &&& n.repeat == q.repeat
            &&& n.shuffle == q.shuffle
        }),
{
    q.items.remove_ensures(from as int);
    q.items.remove(from as int).insert_ensures(to as int, q.items[from as int]);
}

/// Moving to the same row, or from or to one that is not there, changes nothing.
pub proof fn law_idle_moves_change_nothing(q: QueueView, from: usize, to: usize, s: u64)
    requires
        from >= q.items.len() || to >= q.items.len() || from == to,
    ensures
        q.moved(from, to, s) == q,
{
}

/// A track that is selected is selected in its first row; where the queue does not have
/// it, nothing changes.
pub proof fn law_selecting_takes_the_first_row(q: QueueView, id: i64, row: int)
    requires
        q.wf(),
    ensures
        0 <= row < q.items.len() && q.items[row] == id && (forall|k: int|
            0 <= k < row ==> q.items[k] != id) ==> q.selected(id) == (QueueView {
            current: Some(row as usize),
            ..q
        }),
        !q.items.contains(id) ==> q.selected(id) == q,
{
    q.items.index_of_first_ensures(id);
    if 0 <= row < q.items.len() && q.items[row] == id {
        assert(q.items.contains(id));
    }
}

/// A queue that is cleared has no rows, no selection and no loop; its rules stay.
pub proof fn law_cleared_queue(q: QueueView)
    ensures
        q.cleared().items.len() == 0,
        q.cleared().current is None,
        q.cleared().loop_set is None,
        q.cleared().repeat == q.repeat,
        q.cleared().shuffle == q.shuffle,
{
}

/// A rule that is set is in force, and changes neither rows nor selection. A queue that
/// is shuffled no more is walked in the order of its rows.
pub proof fn law_rules_take_effect(
    q: QueueView,
    mode: RepeatMode,
    on: bool,
    chosen: Seq<usize>,
    s: u64,
    row: usize,
)
    requires
        q.wf(),
        row < q.items.len(),
    ensures
        q.with_repeat(mode).repeat == mode,
        q.with_repeat(mode).items == q.items,
        q.with_repeat(mode).current == q.current,
        q.with_repeat(mode).shuffle == q.shuffle,
        q.with_repeat(mode).order == q.order,
        q.with_shuffle(on, s).shuffle == on,
        q.with_shuffle(on, s).items == q.items,
        q.with_shuffle(on, s).current == q.current,
        q.with_shuffle(on, s).repeat == q.repeat,
        q.with_shuffle(on, s).loop_set == q.loop_set,
        !on ==> q.with_shuffle(on, s).order[row as int] == row,
        chosen.contains(row) ==> q.looped(Some(chosen)).loop_set is Some && q.looped(
            Some(chosen),
        ).loop_set->0.contains(row),
        q.looped(Some(chosen)).items == q.items,
        q.looped(Some(chosen)).current == q.current,
        q.looped(Some(chosen)).shuffle == q.shuffle,
        q.looped(None) == (QueueView { loop_set: None, ..q }),
{
    lemma_slots(chosen, q.items.len());
    if chosen.contains(row) {
        assert(slots(chosen, q.items.len()).contains(row));
    }
}

/// The rows that a scramble touches: those that were chosen and are there, or all.
pub proof fn law_scramble_touches_what_was_chosen(q: QueueView, chosen: Seq<usize>, row: usize)
    requires
        q.wf(),
        row < q.items.len(),
    ensures
        q.scramble_slots(None).contains(row),
        q.scramble_slots(Some(chosen)).contains(row) <==> chosen.contains(row),
{
    lemma_identity_is_order(q.items.len());
    lemma_slots(chosen, q.items.len());
}

/// The rows of a loop that stay are the loop once others are dropped, each on its
/// track.
pub proof fn law_pruning_keeps_the_loop(q: QueueView, alive: Seq<i64>, s: u64)
    requires
        q.wf(),
        q.loop_set is Some,
    ensures
        ({
            let n = q.pruned(alive, s);
            let kept = q.loop_set->0.filter(|p: usize| alive.contains(q.items[p as int]));
            &&& kept.len() == 0 ==> n.loop_set is None
            &&& kept.len() > 0 ==> n.loop_set is Some && n.loop_set->0.len() == kept.len()
            &&& forall|i: int|
                0 <= i < kept.len() ==> n.items[n.loop_set->0[i] as int]
                    == q.items[#[trigger] kept[i] as int]
        }),
{
    let keep = |p: usize| alive.contains(q.items[p as int]);
    let set = q.loop_set->0;
    let kept = set.filter(keep);
    let n = q.pruned(alive, s);
    let alive_id = |id: i64| alive.contains(id);
    if q.items.all(alive_id) {
        assert(set.all(keep)) by {
            assert forall|i: int| 0 <= i < set.len() implies keep(#[trigger] set[i]) by {
                assert(set[i] < q.items.len());
                assert(alive_id(q.items[set[i] as int]));
            }
        }
        lemma_filter_all(set, keep);
    } else {
        assert forall|i: int| 0 <= i < kept.len() implies n.items[n.loop_set->0[i] as int]
            == q.items[#[trigger] kept[i] as int] by {
            set.lemma_filter_contains_rev(keep, kept[i]);
            let p = kept[i];
            assert(set.contains(p) && keep(p));
            let j = set.index_of(p);
            assert(set[j] == p && p < q.items.len());
            crate::queue::lemma_kept_row(q.items, alive, p as int, q.items.len() as int);
            assert(q.items.take(q.items.len() as int) =~= q.items);
        }
    }
}

/// A shuffled order is drawn from its seed: its last row is the first number drawn,
/// modulo the number of rows.
pub proof fn law_shuffle_is_drawn_from_its_seed(n: nat, seed: u64)
    requires
        2 <= n <= usize::MAX,
    ensures
        shuffled(n, seed)[n - 1] == crate::shuffle::rng_out(
            crate::shuffle::rng_mix(crate::shuffle::rng_start(seed)),
        ) % (n as u64),
{
    let state = crate::shuffle::rng_start(seed);
    let next = crate::shuffle::rng_mix(state);
    let j = crate::shuffle::rng_out(next) % (n as u64);
    let order = crate::shuffle::identity(n);
    let first = crate::shuffle::swapped(order, n - 1, j as int);
    assert(first[n - 1] == j);
    lemma_rest_of_shuffle(first, next, (n - 2) as nat, n - 1);
}

/// Entries behind those that are still to be drawn stay.
proof fn lemma_rest_of_shuffle(order: Seq<usize>, state: u64, i: nat, k: int)
    requires
        i < k < order.len(),
        order.len() <= usize::MAX,
    ensures
        crate::shuffle::shuffle_from(order, state, i)[k] == order[k],
        crate::shuffle::shuffle_from(order, state, i).len() == order.len(),
    decreases i,
{
    if i > 0 {
        let next = crate::shuffle::rng_mix(state);
        let j = crate::shuffle::rng_out(next) % ((i + 1) as u64);
        let then_order = crate::shuffle::swapped(order, i as int, j as int);
        assert(j <= i);
        lemma_rest_of_shuffle(then_order, next, (i - 1) as nat, k);
    }
}

} // verus!
