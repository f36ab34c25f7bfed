//! Playback order.
//!
//! Free of any engine or storage concern: the queue holds track ids and answers
//! "what plays next".

use vstd::prelude::*;

use crate::clock::{clock_seed, since_epoch};
use crate::shuffle::{
    identity, in_order, is_order, lemma_identity_is_order, lemma_shuffled_is_order,
    lemma_swap_is_order, position, shuffle, shuffled, swap, swapped,
};
use crate::text::{chars_of, lower, lowered, reads, trim, trimmed};

verus! {

/// What happens at the end of the queue.
#[derive(Debug, Clone, Copy, PartialEq, Eq, Structural)]
pub enum RepeatMode {
    Off,
    /// Wrap around at the end of the queue.
    All,
    /// Keep replaying the current track.
    One,
}

impl Default for RepeatMode {
    fn default() -> (r: Self)
        ensures
            r == RepeatMode::Off,
    {
        RepeatMode::Off
    }
}

/// The settings form of a mode.
pub open spec fn mode_text(mode: RepeatMode) -> Seq<char> {
    match mode {
        RepeatMode::Off => "off"@,
        RepeatMode::All => "all"@,
        RepeatMode::One => "one"@,
    }
}

/// The mode that a word names, if any.
pub open spec fn mode_named(word: Seq<char>) -> Option<RepeatMode> {
    if word == "off"@ || word == "none"@ {
        Some(RepeatMode::Off)
    } else if word == "all"@ || word == "queue"@ {
        Some(RepeatMode::All)
    } else if word == "one"@ || word == "track"@ || word == "single"@ {
        Some(RepeatMode::One)
    } else {
        None
    }
}

impl RepeatMode {
    pub fn as_str(&self) -> (r: &'static str)
        ensures
            r@ == mode_text(*self),
    {
        match self {
            RepeatMode::Off => "off",
            RepeatMode::All => "all",
            RepeatMode::One => "one",
        }
    }

    /// The mode that `s` names, whatever its case and surrounding space.
    pub fn parse(s: &str) -> (r: Option<Self>)
        ensures
            r == mode_named(lowered(trimmed(s@))),
    {
        let chars = chars_of(s);
        let word = lower(trim(chars.as_slice()));
        let w = word.as_slice();
        if reads(w, "off") || reads(w, "none") {
            Some(RepeatMode::Off)
        } else if reads(w, "all") || reads(w, "queue") {
            Some(RepeatMode::All)
        } else if reads(w, "one") || reads(w, "track") || reads(w, "single") {
            Some(RepeatMode::One)
        } else {
            None
        }
    }
}

/// A mode's settings form names that mode again.
pub proof fn lemma_mode_round_trips(mode: RepeatMode)
    ensures
        mode_named(lowered(trimmed(mode_text(mode)))) == Some(mode),
{
    reveal_strlit("off");
    reveal_strlit("none");
    reveal_strlit("all");
    reveal_strlit("queue");
    reveal_strlit("one");
    reveal_strlit("track");
    reveal_strlit("single");
    let s = mode_text(mode);
    assert(trimmed(s) == s);
    assert(lowered(s) =~= s);
    assert("all"@[0] == 'a');
    assert("one"@[1] == 'n');
    assert("off"@[1] == 'f');
    assert("all"@[1] == 'l');
}

/// What a queue holds.
#[verifier::ext_equal]
pub struct QueueView {
    /// Track ids, in the order they are displayed.
    pub items: Seq<i64>,
    /// Which of them is selected.
    pub current: Option<usize>,
    pub repeat: RepeatMode,
    pub shuffle: bool,
    /// The order in which the positions play.
    pub order: Seq<usize>,
    /// Zero asks for the clock.
    pub seed: u64,
    /// The positions that playback is confined to, if it is.
    pub loop_set: Option<Seq<usize>>,
}

/// Whether `set` is a strictly increasing list of positions below `n`.
pub open spec fn is_slots(set: Seq<usize>, n: nat) -> bool {
    &&& forall|i: int| 0 <= i < set.len() ==> #[trigger] set[i] < n
    &&& forall|i: int, j: int| 0 <= i < j < set.len() ==> set[i] < set[j]
}

/// The positions below `n` that `chosen` names, in increasing order, each once.
pub open spec fn slots(chosen: Seq<usize>, n: nat) -> Seq<usize> {
    identity(n).filter(|p: usize| chosen.contains(p))
}

/// The order in which `n` positions play.
///
/// A shuffle puts the current position first, so that shuffling mid-track does
/// not skip what is playing.
pub open spec fn play_order(n: nat, shuffle: bool, current: Option<usize>, seed: u64) -> Seq<
    usize,
> {
    if !shuffle || n < 2 {
        identity(n)
    } else {
        let order = shuffled(n, seed);
        match current {
            Some(c) => swapped(order, 0, order.index_of(c)),
            None => order,
        }
    }
}

/// Where the row at `position` stands once `from` has moved to `to`.
pub open spec fn position_after(position: int, from: int, to: int) -> int {
    if position == from {
        to
    } else if from < position <= to {
        position - 1
    } else if to <= position < from {
        position + 1
    } else {
        position
    }
}

/// The entry after entry `i`, the first one after the last.
pub open spec fn after(set: Seq<usize>, i: int) -> usize {
    if i + 1 < set.len() {
        set[i + 1]
    } else {
        set[0]
    }
}

/// The entry before entry `i`, the last one before the first.
pub open spec fn before(set: Seq<usize>, i: int) -> usize {
    if i > 0 {
        set[i - 1]
    } else {
        set.last()
    }
}

/// How many rows before `i` have an id in `alive`.
pub open spec fn kept_before(items: Seq<i64>, alive: Seq<i64>, i: int) -> nat {
    items.take(i).filter(|id: i64| alive.contains(id)).len()
}

impl QueueView {
    /// What holds of every queue.
    pub open spec fn wf(self) -> bool {
        &&& self.items.len() <= usize::MAX
        &&& is_order(self.order, self.items.len())
        &&& !self.shuffle ==> self.order == identity(self.items.len())
        &&& match self.current {
            Some(c) => c < self.items.len(),
            None => true,
        }
        &&& match self.loop_set {
            Some(set) => {
                &&& set.len() > 0
                &&& is_slots(set, self.items.len())
                &&& self.repeat == RepeatMode::Off
            },
            None => true,
        }
    }

    /// The queue nothing has been put in.
    pub open spec fn fresh() -> QueueView {
        QueueView {
            items: Seq::empty(),
            current: None,
            repeat: RepeatMode::Off,
            shuffle: false,
            order: Seq::empty(),
            seed: 0,
            loop_set: None,
        }
    }

    /// The id of the selected row.
    pub open spec fn playing(self) -> Option<i64> {
        match self.current {
            Some(c) => Some(self.items[c as int]),
            None => None,
        }
    }

    /// Whether `s` may seed this queue: its own seed, or any where it has none.
    pub open spec fn seeds(self, s: u64) -> bool {
        self.seed != 0 ==> s == self.seed
    }

    pub open spec fn with_seed(self, seed: u64) -> QueueView {
        QueueView { seed, ..self }
    }

    pub open spec fn reshuffled(self, s: u64) -> QueueView {
        QueueView { order: play_order(self.items.len(), self.shuffle, self.current, s), ..self }
    }

    pub open spec fn with_current(self, c: usize) -> QueueView {
        QueueView { current: Some(c), ..self }
    }

    pub open spec fn replaced(self, tracks: Seq<i64>, start: Option<usize>, s: u64) -> QueueView {
        QueueView {
            items: tracks,
            current: match start {
                Some(c) => if c < tracks.len() {
                    Some(c)
                } else {
                    None
                },
                None => None,
            },
            loop_set: None,
            ..self
        }.reshuffled(s)
    }

    pub open spec fn extended(self, tracks: Seq<i64>, s: u64) -> QueueView {
        if tracks.len() == 0 {
            self
        } else {
            QueueView { items: self.items + tracks, ..self }.reshuffled(s)
        }
    }

    pub open spec fn staged(self, tracks: Seq<i64>, s: u64) -> QueueView {
        if tracks.len() == 0 {
            self
        } else {
            QueueView {
                items: tracks + self.items,
                current: match self.current {
                    Some(c) => Some((c + tracks.len()) as usize),
                    None => None,
                },
                loop_set: match self.loop_set {
                    Some(set) => Some(
                        Seq::new(set.len(), |i: int| (set[i] + tracks.len()) as usize),
                    ),
                    None => None,
                },
                ..self
            }.reshuffled(s)
        }
    }

    /// Whether moving `from` to `to` changes anything.
    pub open spec fn moves(self, from: usize, to: usize) -> bool {
        from < self.items.len() && to < self.items.len() && from != to
    }

    pub open spec fn moved(self, from: usize, to: usize, s: u64) -> QueueView {
        if !self.moves(from, to) {
            self
        } else {
            let n = self.items.len();
            QueueView {
                items: self.items.remove(from as int).insert(
                    to as int,
                    self.items[from as int],
                ),
                current: match self.current {
                    Some(c) => Some(position_after(c as int, from as int, to as int) as usize),
                    None => None,
                },
                loop_set: match self.loop_set {
                    Some(set) => Some(
                        slots(
                            Seq::new(
                                set.len(),
                                |i: int|
                                    position_after(set[i] as int, from as int, to as int) as usize,
                            ),
                            n,
                        ),
                    ),
                    None => None,
                },
                ..self
            }.reshuffled(s)
        }
    }

    /// The rows that a scramble of `chosen` touches.
    pub open spec fn scramble_slots(self, chosen: Option<Seq<usize>>) -> Seq<usize> {
        match chosen {
            Some(chosen) => slots(chosen, self.items.len()),
            None => identity(self.items.len()),
        }
    }

    /// The rows at `rows` permuted: row `rows[j]` gets what stood at
    /// `rows[perm[j]]`.
    pub open spec fn permuted(self, rows: Seq<usize>, perm: Seq<usize>) -> QueueView {
        QueueView {
            items: Seq::new(
                self.items.len(),
                |i: int|
                    if rows.contains(i as usize) {
                        self.items[rows[perm[rows.index_of(i as usize)] as int] as int]
                    } else {
                        self.items[i]
                    },
            ),
            current: match self.current {
                Some(c) => if rows.contains(c) {
                    Some(rows[perm.index_of(rows.index_of(c) as usize)])
                } else {
                    Some(c)
                },
                None => None,
            },
            ..self
        }
    }

    /// A scramble of `chosen`, drawn from `s`, and the order reshuffled from `t`.
    pub open spec fn scrambled(self, chosen: Option<Seq<usize>>, s: u64, t: u64) -> QueueView {
        let rows = self.scramble_slots(chosen);
        if rows.len() < 2 {
            self
        } else {
            self.permuted(rows, shuffled(rows.len(), s)).reshuffled(t)
        }
    }

    pub open spec fn cleared(self) -> QueueView {
        QueueView {
            items: Seq::empty(),
            order: Seq::empty(),
            current: None,
            loop_set: None,
            ..self
        }
    }

    /// The first row that holds `id` selected, if there is one.
    pub open spec fn selected(self, id: i64) -> QueueView {
        match self.items.index_of_first(id) {
            Some(i) => self.with_current(i as usize),
            None => self,
        }
    }

    pub open spec fn with_repeat(self, mode: RepeatMode) -> QueueView {
        QueueView { repeat: mode, loop_set: None, ..self }
    }

    pub open spec fn looped(self, chosen: Option<Seq<usize>>) -> QueueView {
        match chosen {
            Some(chosen) => {
                let set = slots(chosen, self.items.len());
                if set.len() == 0 {
                    QueueView { loop_set: None, ..self }
                } else {
                    QueueView { loop_set: Some(set), repeat: RepeatMode::Off, ..self }
                }
            },
            None => QueueView { loop_set: None, ..self },
        }
    }

    pub open spec fn with_shuffle(self, on: bool, s: u64) -> QueueView {
        if self.shuffle == on {
            self
        } else {
            QueueView { shuffle: on, ..self }.reshuffled(s)
        }
    }

    /// Only the rows whose ids are in `alive`. The selection and the loop go
    /// where their rows went.
    pub open spec fn pruned(self, alive: Seq<i64>, s: u64) -> QueueView {
        let keep = |p: usize| alive.contains(self.items[p as int]);
        if self.items.all(|id: i64| alive.contains(id)) {
            self
        } else {
            QueueView {
                items: self.items.filter(|id: i64| alive.contains(id)),
                current: match self.current {
                    Some(c) => if keep(c) {
                        Some(kept_before(self.items, alive, c as int) as usize)
                    } else {
                        None
                    },
                    None => None,
                },
                loop_set: match self.loop_set {
                    Some(set) => if set.filter(keep).len() == 0 {
                        None
                    } else {
                        Some(
                            set.filter(keep).map_values(
                                |p: usize|
                                    kept_before(self.items, alive, p as int) as usize,
                            ),
                        )
                    },
                    None => None,
                },
                ..self
            }.reshuffled(s)
        }
    }

    /// Where the walk goes from here, if it goes on.
    pub open spec fn next_position(self) -> Option<usize> {
        if self.items.len() == 0 {
            None
        } else {
            match (self.loop_set, self.current) {
                (Some(set), Some(c)) => if set.contains(c) {
                    Some(after(set, set.index_of(c)))
                } else {
                    Some(set[0])
                },
                (Some(set), None) => Some(set[0]),
                (None, Some(c)) => {
                    let pos = self.order.index_of(c);
                    if pos + 1 < self.order.len() {
                        Some(self.order[pos + 1])
                    } else if self.repeat == RepeatMode::All {
                        Some(self.order[0])
                    } else {
                        None
                    }
                },
                (None, None) => Some(self.order[0]),
            }
        }
    }

    /// Where the walk came from, if it came from anywhere.
    pub open spec fn previous_position(self) -> Option<usize> {
        if self.items.len() == 0 {
            None
        } else {
            match (self.loop_set, self.current) {
                (Some(set), Some(c)) => if set.contains(c) {
                    Some(before(set, set.index_of(c)))
                } else {
                    Some(set.last())
                },
                (Some(set), None) => Some(set.last()),
                (None, Some(c)) => {
                    let pos = self.order.index_of(c);
                    if pos > 0 {
                        Some(self.order[pos - 1])
                    } else if self.repeat == RepeatMode::All {
                        Some(self.order.last())
                    } else {
                        None
                    }
                },
                (None, None) => None,
            }
        }
    }

    /// The queue once its walk has gone to `to`, or stayed where it ended.
    pub open spec fn gone_to(self, to: Option<usize>) -> QueueView {
        match to {
            Some(c) => self.with_current(c),
            None => self,
        }
    }

    /// The id at `to`.
    pub open spec fn id_at(self, to: Option<usize>) -> Option<i64> {
        match to {
            Some(c) => Some(self.items[c as int]),
            None => None,
        }
    }
}


/// Slots are the chosen positions below `n`, increasing and without repeats.
pub proof fn lemma_slots(chosen: Seq<usize>, n: nat)
    requires
        n <= usize::MAX,
    ensures
        is_slots(slots(chosen, n), n),
        slots(chosen, n).len() <= n,
        forall|p: usize| #[trigger]
            slots(chosen, n).contains(p) <==> p < n && chosen.contains(p),
    decreases n,
{
    reveal(Seq::filter);
    let keep = |p: usize| chosen.contains(p);
    if n > 0 {
        let m = (n - 1) as nat;
        lemma_slots(chosen, m);
        assert(identity(n).drop_last() =~= identity(m));
        let before = slots(chosen, m);
        let now = slots(chosen, n);
        if chosen.contains(m as usize) {
            assert(now =~= before.push(m as usize));
            assert forall|p: usize| #[trigger] now.contains(p) <==> p < n && chosen.contains(p) by {
                if p == m as usize {
                    assert(now[before.len() as int] == p);
                } else if before.contains(p) {
                    assert(now[before.index_of(p)] == p);
                } else if now.contains(p) {
                    assert(before[now.index_of(p)] == p);
                }
            }
        } else {
            assert(now =~= before);
            assert forall|p: usize| #[trigger] now.contains(p) <==> p < n && chosen.contains(p) by {
                assert(before.contains(p) <==> p < m && chosen.contains(p));
            }
        }
    }
}

/// One row further, the count of kept rows goes up by that row.
proof fn lemma_kept_step(items: Seq<i64>, alive: Seq<i64>, i: int)
    requires
        0 <= i < items.len(),
    ensures
        kept_before(items, alive, i + 1) == kept_before(items, alive, i) + (if alive.contains(
            items[i],
        ) {
            1nat
        } else {
            0nat
        }),
        items.take(i + 1).filter(|id: i64| alive.contains(id)) == (if alive.contains(items[i]) {
            items.take(i).filter(|id: i64| alive.contains(id)).push(items[i])
        } else {
            items.take(i).filter(|id: i64| alive.contains(id))
        }),
{
    reveal(Seq::filter);
    assert(items.take(i + 1).drop_last() =~= items.take(i));
}

/// Later rows come later among the kept ones.
proof fn lemma_kept_monotone(items: Seq<i64>, alive: Seq<i64>, i: int, j: int)
    requires
        0 <= i <= j <= items.len(),
    ensures
        kept_before(items, alive, i) <= kept_before(items, alive, j),
        i < j && alive.contains(items[i]) ==> kept_before(items, alive, i) < kept_before(
            items,
            alive,
            j,
        ),
        kept_before(items, alive, j) <= j,
    decreases j,
{
    if j > 0 {
        lemma_kept_step(items, alive, j - 1);
        if i < j {
            lemma_kept_monotone(items, alive, i, j - 1);
        } else {
            lemma_kept_monotone(items, alive, j - 1, j - 1);
        }
    } else {
        reveal(Seq::filter);
    }
}

/// A kept row stands among the kept rows where the count of those before it
/// says.
pub proof fn lemma_kept_row(items: Seq<i64>, alive: Seq<i64>, c: int, n: int)
    requires
        0 <= c < n <= items.len(),
        alive.contains(items[c]),
    ensures
        items.take(n).filter(|id: i64| alive.contains(id)).len() == kept_before(items, alive, n),
        kept_before(items, alive, c) < kept_before(items, alive, n),
        items.take(n).filter(|id: i64| alive.contains(id))[kept_before(items, alive, c) as int]
            == items[c],
    decreases n,
{
    lemma_kept_step(items, alive, n - 1);
    lemma_kept_monotone(items, alive, c, n);
    if c < n - 1 {
        lemma_kept_row(items, alive, c, n - 1);
    }
}

/// Pruning keeps a queue well formed before its order is rebuilt.
proof fn lemma_pruned_rows(q: QueueView, alive: Seq<i64>)
    requires
        q.wf(),
    ensures
        ({
            let keep = |p: usize| alive.contains(q.items[p as int]);
            let kept = q.items.filter(|id: i64| alive.contains(id));
            &&& kept.len() <= q.items.len()
            &&& match q.current {
                Some(c) => keep(c) ==> kept_before(q.items, alive, c as int) < kept.len(),
                None => true,
            }
            &&& match q.loop_set {
                Some(set) => is_slots(
                    set.filter(keep).map_values(
                        |p: usize| kept_before(q.items, alive, p as int) as usize,
                    ),
                    kept.len(),
                ),
                None => true,
            }
        }),
{
    let keep = |p: usize| alive.contains(q.items[p as int]);
    let kept = q.items.filter(|id: i64| alive.contains(id));
    let n = q.items.len() as int;
    assert(q.items.take(n) =~= q.items);
    lemma_kept_monotone(q.items, alive, 0, n);
    assert(kept.len() == kept_before(q.items, alive, n));
    if let Some(c) = q.current {
        if keep(c) {
            lemma_kept_row(q.items, alive, c as int, n);
        }
    }
    if let Some(set) = q.loop_set {
        let left = set.filter(keep);
        let m = left.map_values(|p: usize| kept_before(q.items, alive, p as int) as usize);
        lemma_filter_increasing(set, keep);
        assert forall|i: int| 0 <= i < m.len() implies #[trigger] m[i] < kept.len() by {
            set.lemma_filter_pred(keep, i);
            lemma_filter_from(set, keep, i);
            lemma_kept_row(q.items, alive, left[i] as int, n);
        }
        assert forall|i: int, j: int| 0 <= i < j < m.len() implies m[i] < m[j] by {
            set.lemma_filter_pred(keep, i);
            lemma_filter_from(set, keep, i);
            lemma_filter_from(set, keep, j);
            assert(left[i] < left[j]);
            lemma_kept_monotone(q.items, alive, left[i] as int, left[j] as int);
            lemma_kept_monotone(q.items, alive, left[j] as int, n);
        }
    }
}

/// What a filter leaves comes from what it was given.
proof fn lemma_filter_from(set: Seq<usize>, keep: spec_fn(usize) -> bool, i: int)
    requires
        0 <= i < set.filter(keep).len(),
    ensures
        set.contains(set.filter(keep)[i]),
    decreases set.len(),
{
    reveal(Seq::filter);
    let rest = set.drop_last();
    if i < rest.filter(keep).len() {
        lemma_filter_from(rest, keep, i);
        let k = rest.index_of(rest.filter(keep)[i]);
        assert(set[k] == rest.filter(keep)[i]);
    } else {
        assert(set[set.len() - 1] == set.filter(keep)[i]);
    }
}

/// A filter of an increasing list is increasing.
proof fn lemma_filter_increasing(set: Seq<usize>, keep: spec_fn(usize) -> bool)
    requires
        forall|i: int, j: int| 0 <= i < j < set.len() ==> set[i] < set[j],
    ensures
        forall|i: int, j: int|
            0 <= i < j < set.filter(keep).len() ==> set.filter(keep)[i] < set.filter(keep)[j],
    decreases set.len(),
{
    reveal(Seq::filter);
    if set.len() > 0 {
        let rest = set.drop_last();
        lemma_filter_increasing(rest, keep);
        assert forall|i: int, j: int| 0 <= i < j < set.filter(keep).len() implies set.filter(
            keep,
        )[i] < set.filter(keep)[j] by {
            if j == rest.filter(keep).len() {
                lemma_filter_from(rest, keep, i);
                let k = rest.index_of(rest.filter(keep)[i]);
                assert(set[k] < set[set.len() - 1]);
            }
        }
    }
}

/// The order in which positions play holds each of them once.
pub proof fn lemma_play_order(n: nat, shuffle: bool, current: Option<usize>, seed: u64)
    requires
        n <= usize::MAX,
        match current {
            Some(c) => c < n,
            None => true,
        },
    ensures
        is_order(play_order(n, shuffle, current, seed), n),
        shuffle && n >= 2 && current is Some ==> play_order(n, shuffle, current, seed)[0]
            == current->0,
{
    lemma_identity_is_order(n);
    if shuffle && n >= 2 {
        lemma_shuffled_is_order(n, seed);
        if let Some(c) = current {
            let order = shuffled(n, seed);
            assert(order.contains(c));
            lemma_swap_is_order(order, n, 0, order.index_of(c));
        }
    }
}

/// The positions below `n` that `chosen` names, in increasing order, each once.
fn slots_of(chosen: &[usize], n: usize) -> (out: Vec<usize>)
    ensures
        out@ == slots(chosen@, n as nat),
        is_slots(out@, n as nat),
{
    let mut named: Vec<bool> = Vec::new();
    let mut i: usize = 0;
    while i < n
        invariant
            i <= n,
            named@.len() == i,
            forall|p: int| 0 <= p < i ==> !#[trigger] named@[p],
        decreases n - i,
    {
        named.push(false);
        i = i + 1;
    }
    let mut k: usize = 0;
    while k < chosen.len()
        invariant
            k <= chosen@.len(),
            named@.len() == n,
            forall|p: int| 0 <= p < n ==> #[trigger] named@[p] == chosen@.take(k as int).contains(p as usize),
        decreases chosen@.len() - k,
    {
        let ghost before = named@;
        let c: usize = chosen[k];
        if c < n {
            named.set(c, true);
        }
        proof {
            let t = chosen@.take(k as int);
            let u = chosen@.take(k as int + 1);
            assert(u =~= t.push(c));
            assert forall|p: int| 0 <= p < n implies #[trigger] named@[p] == u.contains(p as usize) by {
                assert(before[p] == t.contains(p as usize));
                if t.contains(p as usize) {
                    assert(u[t.index_of(p as usize)] == p as usize);
                }
                if p == c {
                    assert(u[k as int] == p as usize);
                }
                if u.contains(p as usize) && p != c {
                    assert(t[u.index_of(p as usize)] == p as usize);
                }
            }
        }
        k = k + 1;
    }
    assert(chosen@.take(k as int) =~= chosen@);
    let mut out: Vec<usize> = Vec::new();
    let mut p: usize = 0;
    while p < n
        invariant
            p <= n,
            named@.len() == n,
            forall|q: int| 0 <= q < n ==> #[trigger] named@[q] == chosen@.contains(q as usize),
            out@ == slots(chosen@, p as nat),
        decreases n - p,
    {
        proof {
            reveal(Seq::filter);
            assert(identity((p + 1) as nat).drop_last() =~= identity(p as nat));
        }
        if named[p] {
            out.push(p);
        }
        p = p + 1;
    }
    proof {
        lemma_slots(chosen@, n as nat);
    }
    out
}

/// Where `id` first stands in `items`.
fn row_of(items: &[i64], id: i64) -> (r: Option<usize>)
    ensures
        match r {
            Some(i) => i < items@.len() && items@[i as int] == id && (forall|j: int|
                0 <= j < i ==> items@[j] != id),
            None => !items@.contains(id),
        },
{
    let mut i: usize = 0;
    while i < items.len()
        invariant
            i <= items@.len(),
            forall|j: int| 0 <= j < i ==> items@[j] != id,
        decreases items@.len() - i,
    {
        if items[i] == id {
            return Some(i);
        }
        i = i + 1;
    }
    None
}

/// A copy of `v`.
fn copied<T: Copy>(v: &[T]) -> (out: Vec<T>)
    ensures
        out@ == v@,
{
    let mut out: Vec<T> = Vec::new();
    let mut i: usize = 0;
    while i < v.len()
        invariant
            i <= v@.len(),
            out@ == v@.take(i as int),
        decreases v@.len() - i,
    {
        out.push(v[i]);
        i = i + 1;
    }
    out
}

/// The play queue.
#[derive(Debug)]
pub struct Queue {
    items: Vec<i64>,
    /// Index into `items` of what is playing. `None` when nothing is selected.
    current: Option<usize>,
    repeat: RepeatMode,
    shuffle: bool,
    /// Playback order: a permutation of indices into `items`.
    order: Vec<usize>,
    seed: u64,
    /// Positions playback is confined to, sorted and without repeats. `None`
    /// walks the whole queue. Positions rather than ids: a queue may hold the
    /// same track twice, and the user chose rows, not tracks.
    loop_set: Option<Vec<usize>>,
}

impl View for Queue {
    type V = QueueView;

    closed spec fn view(&self) -> QueueView {
        QueueView {
            items: self.items@,
            current: self.current,
            repeat: self.repeat,
            shuffle: self.shuffle,
            order: self.order@,
            seed: self.seed,
            loop_set: match self.loop_set {
                Some(set) => Some(set@),
                None => None,
            },
        }
    }
}

impl Clone for Queue {
    fn clone(&self) -> (r: Self)
        ensures
            r@ == self@,
    {
        Queue {
            items: copied(self.items.as_slice()),
            current: self.current,
            repeat: self.repeat,
            shuffle: self.shuffle,
            order: copied(self.order.as_slice()),
            seed: self.seed,
            loop_set: match &self.loop_set {
                Some(set) => Some(copied(set.as_slice())),
                None => None,
            },
        }
    }
}

impl Default for Queue {
    fn default() -> (r: Self)
        ensures
            r@ == QueueView::fresh(),
            r@.wf(),
    {
        Queue::new()
    }
}

impl Queue {
    pub fn new() -> (r: Self)
        ensures
            r@ == QueueView::fresh(),
            r@.wf(),
    {
        proof {
            assert(identity(0) =~= Seq::<usize>::empty());
        }
        Queue {
            items: Vec::new(),
            current: None,
            repeat: RepeatMode::Off,
            shuffle: false,
            order: Vec::new(),
            seed: 0,
            loop_set: None,
        }
    }

    pub fn items(&self) -> (r: &[i64])
        ensures
            r@ == self@.items,
    {
        self.items.as_slice()
    }

    pub fn len(&self) -> (r: usize)
        ensures
            r == self@.items.len(),
    {
        self.items.len()
    }

    pub fn is_empty(&self) -> (r: bool)
        ensures
            r == (self@.items.len() == 0),
    {
        self.items.len() == 0
    }

    pub fn repeat(&self) -> (r: RepeatMode)
        ensures
            r == self@.repeat,
    {
        self.repeat
    }

    /// Choose what happens at the end of the queue. Lifts any loop.
    pub fn set_repeat(&mut self, mode: RepeatMode)
        ensures
            final(self)@ == old(self)@.with_repeat(mode),
            old(self)@.wf() ==> final(self)@.wf(),
    {
        self.repeat = mode;
        self.loop_set = None;
    }

    pub fn shuffle_enabled(&self) -> (r: bool)
        ensures
            r == self@.shuffle,
    {
        self.shuffle
    }

    pub fn loop_set(&self) -> (r: Option<&[usize]>)
        ensures
            match r {
                Some(set) => self@.loop_set == Some(set@),
                None => self@.loop_set is None,
            },
    {
        match &self.loop_set {
            Some(set) => Some(set.as_slice()),
            None => None,
        }
    }

    /// Confine playback to `positions`, or lift the confinement with `None`.
    ///
    /// Exclusive with repeat: a loop is its own answer to "what happens at the
    /// end", so setting one puts repeat back to off, and `set_repeat` clears
    /// the loop in turn. Out-of-range positions are dropped; an empty set is
    /// the same as none.
    pub fn set_loop(&mut self, positions: Option<Vec<usize>>)
        ensures
            final(self)@ == old(self)@.looped(
                match positions {
                    Some(p) => Some(p@),
                    None => None,
                },
            ),
            old(self)@.wf() ==> final(self)@.wf(),
    {
        self.loop_set = None;
        if let Some(p) = positions {
            let set = slots_of(p.as_slice(), self.items.len());
            if set.len() > 0 {
                self.loop_set = Some(set);
                self.repeat = RepeatMode::Off;
            }
        }
    }

    pub fn current_index(&self) -> (r: Option<usize>)
        ensures
            r == self@.current,
    {
        self.current
    }

    /// The id of the selected row.
    pub fn current(&self) -> (r: Option<i64>)
        requires
            self@.wf(),
        ensures
            r == self@.playing(),
    {
        match self.current {
            Some(c) => Some(self.items[c]),
            None => None,
        }
    }

    /// The queue's own seed, or one from the clock where it has none.
    fn seed_or_clock(&self) -> (s: u64)
        ensures
            self@.seeds(s),
    {
        if self.seed == 0 {
            clock_seed(since_epoch())
        } else {
            self.seed
        }
    }

    /// The seed set, zero when the clock is to be asked.
    pub fn seed(&self) -> (s: u64)
        ensures
            s == self@.seed,
    {
        self.seed
    }

    /// Rebuild the order in which the rows play.
    fn reshuffle(&mut self, s: u64)
        requires
            match old(self)@.current {
                Some(c) => c < old(self)@.items.len(),
                None => true,
            },
        ensures
            final(self)@ == old(self)@.reshuffled(s),
            final(self)@.items.len() <= usize::MAX,
            is_order(final(self)@.order, final(self)@.items.len()),
            !final(self)@.shuffle ==> final(self)@.order == identity(final(self)@.items.len()),
    {
        let n: usize = self.items.len();
        proof {
            lemma_play_order(n as nat, self.shuffle, self.current, s);
        }
        if !self.shuffle || n < 2 {
            self.order = in_order(n);
            return;
        }
        let mut order = shuffle(n, s);
        if let Some(c) = self.current {
            assert(order@.contains(c));
            if let Some(pos) = position(order.as_slice(), c) {
                assert(order@.index_of(c) == pos);
                swap(&mut order, 0, pos);
            }
        }
        self.order = order;
    }

    /// [`Queue::replace`], with the seed to shuffle from.
    pub fn replace_seeded(&mut self, tracks: Vec<i64>, start: Option<usize>, s: u64)
        requires
            old(self)@.wf(),
        ensures
            final(self)@ == old(self)@.replaced(tracks@, start, s),
            final(self)@.wf(),
    {
        self.current = match start {
            Some(c) => if c < tracks.len() {
                Some(c)
            } else {
                None
            },
            None => None,
        };
        self.items = tracks;
        self.loop_set = None;
        self.reshuffle(s);
    }

    /// Replace the queue, selecting `start` (an index into `tracks`).
    pub fn replace(&mut self, tracks: Vec<i64>, start: Option<usize>)
        requires
            old(self)@.wf(),
        ensures
            exists|s: u64| #[trigger]
                old(self)@.seeds(s) && final(self)@ == old(self)@.replaced(tracks@, start, s),
            final(self)@.wf(),
    {
        let s: u64 = self.seed_or_clock();
        self.replace_seeded(tracks, start, s);
    }

    /// [`Queue::extend`], with the seed to shuffle from.
    pub fn extend_seeded(&mut self, tracks: Vec<i64>, s: u64)
        requires
            old(self)@.wf(),
            old(self)@.items.len() + tracks@.len() <= usize::MAX,
        ensures
            final(self)@ == old(self)@.extended(tracks@, s),
            final(self)@.wf(),
    {
        if tracks.len() == 0 {
            return;
        }
        let mut tracks = tracks;
        self.items.append(&mut tracks);
        self.reshuffle(s);
    }

    /// Append to the end, keeping whatever is playing.
    pub fn extend(&mut self, tracks: Vec<i64>)
        requires
            old(self)@.wf(),
            old(self)@.items.len() + tracks@.len() <= usize::MAX,
        ensures
            exists|s: u64| #[trigger]
                old(self)@.seeds(s) && final(self)@ == old(self)@.extended(tracks@, s),
            final(self)@.wf(),
    {
        let s: u64 = self.seed_or_clock();
        self.extend_seeded(tracks, s);
    }

    /// [`Queue::insert_front`], with the seed to shuffle from.
    pub fn insert_front_seeded(&mut self, tracks: Vec<i64>, s: u64)
        requires
            old(self)@.wf(),
            old(self)@.items.len() + tracks@.len() <= usize::MAX,
        ensures
            final(self)@ == old(self)@.staged(tracks@, s),
            final(self)@.wf(),
    {
        if tracks.len() == 0 {
            return;
        }
        let count: usize = tracks.len();
        let mut items = tracks;
        items.append(&mut self.items);
        self.items = items;
        self.current = match self.current {
            Some(c) => Some(c + count),
            None => None,
        };
        let mut shifted: Option<Vec<usize>> = None;
        if let Some(set) = &self.loop_set {
            let mut moved: Vec<usize> = Vec::new();
            let mut i: usize = 0;
            while i < set.len()
                invariant
                    i <= set@.len(),
                    forall|k: int| 0 <= k < set@.len() ==> #[trigger] set@[k] + count <= usize::MAX,
                    moved@ == Seq::new(i as nat, |k: int| (set@[k] + count) as usize),
                decreases set@.len() - i,
            {
                moved.push(set[i] + count);
                i = i + 1;
            }
            shifted = Some(moved);
        }
        self.loop_set = shifted;
        self.reshuffle(s);
    }

    /// Insert at the top — the stage — keeping whatever is playing.
    ///
    /// The current index moves with its track rather than staying put: staging
    /// something must never silently reassign "what is playing" to a different
    /// file.
    pub fn insert_front(&mut self, tracks: Vec<i64>)
        requires
            old(self)@.wf(),
            old(self)@.items.len() + tracks@.len() <= usize::MAX,
        ensures
            exists|s: u64| #[trigger]
                old(self)@.seeds(s) && final(self)@ == old(self)@.staged(tracks@, s),
            final(self)@.wf(),
    {
        let s: u64 = self.seed_or_clock();
        self.insert_front_seeded(tracks, s);
    }

    /// Where the row at `position` sits once `from` has moved to `to`.
    fn position_after_move(position: usize, from: usize, to: usize) -> (r: usize)
        requires
            position < usize::MAX,
        ensures
            r == position_after(position as int, from as int, to as int),
    {
        if position == from {
            return to;
        }
        let mut moved: usize = position;
        if moved > from {
            moved = moved - 1;
        }
        if moved >= to {
            moved = moved + 1;
        }
        moved
    }

    /// Whether moving a row from `from` to `to` is possible and changes anything.
    pub fn can_move(&self, from: usize, to: usize) -> (r: bool)
        ensures
            r == self@.moves(from, to),
    {
        from != to && from < self.items.len() && to < self.items.len()
    }

    /// [`Queue::move_item`], with the seed to shuffle from.
    pub fn move_item_seeded(&mut self, from: usize, to: usize, s: u64) -> (r: bool)
        requires
            old(self)@.wf(),
        ensures
            r == old(self)@.moves(from, to),
            final(self)@ == old(self)@.moved(from, to, s),
            final(self)@.wf(),
    {
        let n: usize = self.items.len();
        if from >= n || to >= n || from == to {
            return false;
        }
        let id: i64 = self.items.remove(from);
        self.items.insert(to, id);
        self.current = match self.current {
            Some(c) => Some(Self::position_after_move(c, from, to)),
            None => None,
        };
        let mut carried: Option<Vec<usize>> = None;
        if let Some(set) = &self.loop_set {
            let mut moved: Vec<usize> = Vec::new();
            let mut i: usize = 0;
            while i < set.len()
                invariant
                    i <= set@.len(),
                    from < n,
                    to < n,
                    forall|k: int| 0 <= k < set@.len() ==> #[trigger] set@[k] < n,
                    moved@ == Seq::new(
                        i as nat,
                        |k: int| position_after(set@[k] as int, from as int, to as int) as usize,
                    ),
                decreases set@.len() - i,
            {
                moved.push(Self::position_after_move(set[i], from, to));
                i = i + 1;
            }
            proof {
                lemma_slots(moved@, n as nat);
                assert(moved@[0] < n);
                assert(moved@.contains(moved@[0]));
                assert(slots(moved@, n as nat).contains(moved@[0]));
            }
            carried = Some(slots_of(moved.as_slice(), n));
        }
        self.loop_set = carried;
        self.reshuffle(s);
        true
    }

    /// Move one row, returning whether anything changed.
    ///
    /// Indices are into the queue as displayed, which is the unshuffled order:
    /// reordering is about the list the user is looking at, and shuffle is
    /// layered over it. The selection and the loop follow their rows by index
    /// rather than by id: a queue may hold the same track twice.
    pub fn move_item(&mut self, from: usize, to: usize) -> (r: bool)
        requires
            old(self)@.wf(),
        ensures
            r == old(self)@.moves(from, to),
            exists|s: u64| #[trigger]
                old(self)@.seeds(s) && final(self)@ == old(self)@.moved(from, to, s),
            final(self)@.wf(),
    {
        let s: u64 = self.seed_or_clock();
        self.move_item_seeded(from, to, s)
    }

    /// [`Queue::scramble`], with the seed to draw from and the one to shuffle
    /// the order from.
    pub fn scramble_seeded(&mut self, positions: Option<&[usize]>, s: u64, t: u64)
        requires
            old(self)@.wf(),
        ensures
            final(self)@ == old(self)@.scrambled(
                match positions {
                    Some(p) => Some(p@),
                    None => None,
                },
                s,
                t,
            ),
            final(self)@.wf(),
    {
        let n: usize = self.items.len();
        let rows: Vec<usize> = match positions {
            Some(chosen) => slots_of(chosen, n),
            None => in_order(n),
        };
        if rows.len() < 2 {
            return;
        }
        let perm = shuffle(rows.len(), s);
        let ghost old_view = self@;
        let ghost k = rows@.len();
        let before = copied(self.items.as_slice());
        let mut j: usize = 0;
        while j < rows.len()
            invariant
                j <= rows@.len(),
                is_slots(rows@, n as nat),
                is_order(perm@, rows@.len()),
                before@.len() == n,
                self.items@.len() == n,
                self@ == (QueueView { items: self.items@, ..old_view }),
                forall|i: int|
                    0 <= i < n ==> #[trigger] self.items@[i] == (if rows@.take(j as int).contains(
                        i as usize,
                    ) {
                        before@[rows@[perm@[rows@.index_of(i as usize)] as int] as int]
                    } else {
                        before@[i]
                    }),
            decreases rows@.len() - j,
        {
            let ghost prior = self.items@;
            let row: usize = rows[j];
            let id: i64 = before[rows[perm[j]]];
            self.items.set(row, id);
            proof {
                let a = rows@.take(j as int);
                let b = rows@.take(j as int + 1);
                assert(b =~= a.push(row));
                assert(rows@[rows@.index_of(row)] == row);
                assert(rows@.index_of(row) == j);
                assert forall|i: int| 0 <= i < n implies #[trigger] self.items@[i] == (
                if b.contains(i as usize) {
                    before@[rows@[perm@[rows@.index_of(i as usize)] as int] as int]
                } else {
                    before@[i]
                }) by {
                    assert(prior[i] == (if a.contains(i as usize) {
                        before@[rows@[perm@[rows@.index_of(i as usize)] as int] as int]
                    } else {
                        before@[i]
                    }));
                    if i == row {
                        assert(b[j as int] == i as usize);
                    } else {
                        if a.contains(i as usize) {
                            assert(b[a.index_of(i as usize)] == i as usize);
                        }
                        if b.contains(i as usize) {
                            assert(a[b.index_of(i as usize)] == i as usize);
                        }
                    }
                }
            }
            j = j + 1;
        }
        assert(rows@.take(j as int) =~= rows@);
        assert(self.items@ =~= old_view.permuted(rows@, perm@).items);
        if let Some(cur) = self.current {
            if let Some(at) = position(rows.as_slice(), cur) {
                assert(rows@.index_of(cur) == at);
                assert(perm@.contains(at));
                if let Some(to) = position(perm.as_slice(), at) {
                    assert(perm@.index_of(at) == to);
                    self.current = Some(rows[to]);
                }
            }
        }
        self.reshuffle(t);
    }

    /// Permute the tracks at `positions` among themselves — or the whole queue
    /// with `None`. A one-shot, visible reorder, unlike shuffle mode, which
    /// leaves the list alone and hides the order it actually plays in.
    ///
    /// The loop, being positional, is untouched: scrambling five selected rows
    /// and then looping them loops the same five slots.
    pub fn scramble(&mut self, positions: Option<&[usize]>)
        requires
            old(self)@.wf(),
        ensures
            exists|s: u64, t: u64| #[trigger]
                old(self)@.seeds(s) && #[trigger] old(self)@.seeds(t) && final(self)@
                    == old(self)@.scrambled(
                    match positions {
                        Some(p) => Some(p@),
                        None => None,
                    },
                    s,
                    t,
                ),
            final(self)@.wf(),
    {
        let s: u64 = self.seed_or_clock();
        let t: u64 = self.seed_or_clock();
        self.scramble_seeded(positions, s, t);
    }

    /// [`Queue::retain`], with the seed to shuffle from.
    pub fn retain_seeded(&mut self, alive: &[i64], s: u64) -> (r: bool)
        requires
            old(self)@.wf(),
        ensures
            r == !old(self)@.items.all(|id: i64| alive@.contains(id)),
            final(self)@ == old(self)@.pruned(alive@, s),
            final(self)@.wf(),
    {
        let ghost q = self@;
        let n: usize = self.items.len();
        let mut kept: Vec<i64> = Vec::new();
        let mut counts: Vec<usize> = Vec::new();
        let mut lives: Vec<bool> = Vec::new();
        let mut i: usize = 0;
        assert(q.items.take(0).filter(|id: i64| alive@.contains(id)) =~= Seq::<i64>::empty()) by {
            reveal(Seq::filter);
        }
        while i < n
            invariant
                i <= n,
                n == q.items.len(),
                self.items@ == q.items,
                kept@ == q.items.take(i as int).filter(|id: i64| alive@.contains(id)),
                kept@.len() <= i,
                counts@.len() == i,
                lives@.len() == i,
                forall|k: int|
                    0 <= k < i ==> #[trigger] counts@[k] == kept_before(q.items, alive@, k),
                forall|k: int| 0 <= k < i ==> #[trigger] lives@[k] == alive@.contains(q.items[k]),
                kept@.len() == i <==> (forall|k: int|
                    0 <= k < i ==> alive@.contains(#[trigger] q.items[k])),
            decreases n - i,
        {
            proof {
                lemma_kept_step(q.items, alive@, i as int);
            }
            let id: i64 = self.items[i];
            let lives_here: bool = row_of(alive, id).is_some();
            counts.push(kept.len());
            lives.push(lives_here);
            if lives_here {
                kept.push(id);
            }
            i = i + 1;
        }
        assert(q.items.take(n as int) =~= q.items);
        if kept.len() == n {
            assert(q.items.all(|id: i64| alive@.contains(id)));
            return false;
        }
        assert(!q.items.all(|id: i64| alive@.contains(id))) by {
            let k = choose|k: int| 0 <= k < n && !alive@.contains(#[trigger] q.items[k]);
            assert(!(|id: i64| alive@.contains(id))(q.items[k]));
        }
        proof {
            lemma_pruned_rows(q, alive@);
        }
        let ghost keep = |p: usize| alive@.contains(q.items[p as int]);
        self.current = match self.current {
            Some(c) => if lives[c] {
                Some(counts[c])
            } else {
                None
            },
            None => None,
        };
        let mut left: Option<Vec<usize>> = None;
        if let Some(set) = &self.loop_set {
            let mut rows: Vec<usize> = Vec::new();
            let mut k: usize = 0;
            let ghost to = |p: usize| kept_before(q.items, alive@, p as int) as usize;
            assert(set@.take(0).filter(keep).map_values(to) =~= Seq::<usize>::empty()) by {
                reveal(Seq::filter);
            }
            while k < set.len()
                invariant
                    k <= set@.len(),
                    n == q.items.len(),
                    is_slots(set@, n as nat),
                    counts@.len() == n,
                    lives@.len() == n,
                    forall|k: int|
                        0 <= k < n ==> #[trigger] counts@[k] == kept_before(q.items, alive@, k),
                    forall|k: int|
                        0 <= k < n ==> #[trigger] lives@[k] == alive@.contains(q.items[k]),
                    keep == (|p: usize| alive@.contains(q.items[p as int])),
                    to == (|p: usize| kept_before(q.items, alive@, p as int) as usize),
                    rows@ == set@.take(k as int).filter(keep).map_values(to),
                decreases set@.len() - k,
            {
                let p: usize = set[k];
                proof {
                    reveal(Seq::filter);
                    assert(set@.take(k as int + 1).drop_last() =~= set@.take(k as int));
                    let before = set@.take(k as int).filter(keep);
                    assert(before.push(p).map_values(to) =~= before.map_values(to).push(to(p)));
                }
                if lives[p] {
                    rows.push(counts[p]);
                }
                k = k + 1;
            }
            assert(set@.take(k as int) =~= set@);
            if rows.len() > 0 {
                left = Some(rows);
            }
        }
        self.items = kept;
        self.loop_set = left;
        self.reshuffle(s);
        true
    }

    /// Drop every row whose id is not in `alive`, returning whether any went.
    ///
    /// The selection and the loop follow the rows that stay; a selected row
    /// that goes leaves nothing selected.
    pub fn retain(&mut self, alive: &[i64]) -> (r: bool)
        requires
            old(self)@.wf(),
        ensures
            r == !old(self)@.items.all(|id: i64| alive@.contains(id)),
            exists|s: u64| #[trigger]
                old(self)@.seeds(s) && final(self)@ == old(self)@.pruned(alive@, s),
            final(self)@.wf(),
    {
        let s: u64 = self.seed_or_clock();
        self.retain_seeded(alive, s)
    }

    pub fn clear(&mut self)
        ensures
            final(self)@ == old(self)@.cleared(),
            final(self)@.wf(),
    {
        self.items.clear();
        self.order.clear();
        self.current = None;
        self.loop_set = None;
        assert(identity(0) =~= Seq::<usize>::empty());
    }

    /// Select `track_id` if present, so "play this" from a list keeps context.
    pub fn select_track(&mut self, track_id: i64) -> (r: bool)
        ensures
            r == old(self)@.items.contains(track_id),
            final(self)@ == old(self)@.selected(track_id),
            old(self)@.wf() ==> final(self)@.wf(),
    {
        proof {
            self.items@.index_of_first_ensures(track_id);
        }
        match row_of(self.items.as_slice(), track_id) {
            Some(i) => {
                self.current = Some(i);
                true
            },
            None => false,
        }
    }

    /// [`Queue::set_shuffle`], with the seed to shuffle from.
    pub fn set_shuffle_seeded(&mut self, on: bool, s: u64)
        requires
            old(self)@.wf(),
        ensures
            final(self)@ == old(self)@.with_shuffle(on, s),
            final(self)@.wf(),
    {
        if self.shuffle != on {
            self.shuffle = on;
            self.reshuffle(s);
        }
    }

    pub fn set_shuffle(&mut self, on: bool)
        requires
            old(self)@.wf(),
        ensures
            exists|s: u64| #[trigger]
                old(self)@.seeds(s) && final(self)@ == old(self)@.with_shuffle(on, s),
            final(self)@.wf(),
    {
        let s: u64 = self.seed_or_clock();
        self.set_shuffle_seeded(on, s);
    }

    /// Seed the shuffle, which makes it reproducible.
    pub fn set_seed(&mut self, seed: u64)
        requires
            old(self)@.wf(),
        ensures
            exists|s: u64| #[trigger]
                old(self)@.with_seed(seed).seeds(s) && final(self)@ == old(self)@.with_seed(
                    seed,
                ).reshuffled(s),
            final(self)@.wf(),
    {
        self.seed = seed;
        let s: u64 = self.seed_or_clock();
        self.reshuffle(s);
    }

    /// Position of the current row within the playback order.
    fn order_position(&self) -> (r: Option<usize>)
        requires
            self@.wf(),
        ensures
            match r {
                Some(pos) => self@.current is Some && pos < self@.order.len() && pos
                    == self@.order.index_of(self@.current->0),
                None => self@.current is None,
            },
    {
        match self.current {
            Some(c) => {
                assert(self@.order.contains(c));
                position(self.order.as_slice(), c)
            },
            None => None,
        }
    }

    /// Advance to the next track, honouring shuffle and repeat.
    ///
    /// `RepeatMode::One` is deliberately ignored here: an explicit "next" from
    /// the user means the next track, not the same one again. Automatic advance
    /// at end-of-file goes through [`Queue::advance_on_eof`] instead.
    ///
    /// A loop always wraps; that is what makes it a loop. Shuffle mode's order
    /// is ignored inside one — the user picked these rows in this order.
    pub fn next(&mut self) -> (r: Option<i64>)
        requires
            old(self)@.wf(),
        ensures
            final(self)@ == old(self)@.gone_to(old(self)@.next_position()),
            r == old(self)@.id_at(old(self)@.next_position()),
            final(self)@.wf(),
    {
        if self.items.len() == 0 {
            return None;
        }
        let to: Option<usize> = match &self.loop_set {
            Some(set) => {
                let at: Option<usize> = match self.current {
                    Some(c) => position(set.as_slice(), c),
                    None => None,
                };
                proof {
                    if at is Some {
                        assert(set@.index_of(self.current->0) == at->0);
                    }
                }
                match at {
                    Some(k) => if k < set.len() - 1 {
                        Some(set[k + 1])
                    } else {
                        Some(set[0])
                    },
                    None => Some(set[0]),
                }
            },
            None => match self.order_position() {
                None => Some(self.order[0]),
                Some(pos) => if pos < self.order.len() - 1 {
                    Some(self.order[pos + 1])
                } else if self.repeat == RepeatMode::All {
                    Some(self.order[0])
                } else {
                    None
                },
            },
        };
        assert(to == self@.next_position());
        match to {
            Some(c) => {
                self.current = Some(c);
                Some(self.items[c])
            },
            None => None,
        }
    }

    /// Go back to the track before this one, honouring shuffle and repeat.
    pub fn previous(&mut self) -> (r: Option<i64>)
        requires
            old(self)@.wf(),
        ensures
            final(self)@ == old(self)@.gone_to(old(self)@.previous_position()),
            r == old(self)@.id_at(old(self)@.previous_position()),
            final(self)@.wf(),
    {
        if self.items.len() == 0 {
            return None;
        }
        let to: Option<usize> = match &self.loop_set {
            Some(set) => {
                let at: Option<usize> = match self.current {
                    Some(c) => position(set.as_slice(), c),
                    None => None,
                };
                proof {
                    if at is Some {
                        assert(set@.index_of(self.current->0) == at->0);
                    }
                }
                match at {
                    Some(k) => if k > 0 {
                        Some(set[k - 1])
                    } else {
                        Some(set[set.len() - 1])
                    },
                    None => Some(set[set.len() - 1]),
                }
            },
            None => match self.order_position() {
                None => None,
                Some(pos) => if pos > 0 {
                    Some(self.order[pos - 1])
                } else if self.repeat == RepeatMode::All {
                    Some(self.order[self.order.len() - 1])
                } else {
                    None
                },
            },
        };
        assert(to == self@.previous_position());
        match to {
            Some(c) => {
                self.current = Some(c);
                Some(self.items[c])
            },
            None => None,
        }
    }

    /// What to play when the current track ends by itself.
    pub fn advance_on_eof(&mut self) -> (r: Option<i64>)
        requires
            old(self)@.wf(),
        ensures
            old(self)@.repeat == RepeatMode::One ==> final(self)@ == old(self)@ && r
                == old(self)@.playing(),
            old(self)@.repeat != RepeatMode::One ==> {
                &&& final(self)@ == old(self)@.gone_to(old(self)@.next_position())
                &&& r == old(self)@.id_at(old(self)@.next_position())
            },
            final(self)@.wf(),
    {
        match self.repeat {
            RepeatMode::One => self.current(),
            _ => self.next(),
        }
    }
}

} // verus!
