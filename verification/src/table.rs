//! Small tables: one value for each key, the last one written.

use vstd::prelude::*;

verus! {

/// A table by number.
#[derive(Debug)]
pub struct Numbered<V> {
    rows: Vec<(i128, V)>,
}

/// The value that the rows hold for each key.
pub open spec fn numbers<V>(rows: Seq<(i128, V)>) -> Map<int, V>
    decreases rows.len(),
{
    if rows.len() == 0 {
        Map::empty()
    } else {
        numbers(rows.drop_last()).insert(rows.last().0 as int, rows.last().1)
    }
}

/// Whether no key has two rows.
pub open spec fn distinct_numbers<V>(rows: Seq<(i128, V)>) -> bool {
    forall|i: int, j: int| 0 <= i < j < rows.len() ==> rows[i].0 != rows[j].0
}

/// A row that is there is what its key has; a key without a row has nothing.
proof fn lemma_numbers<V>(rows: Seq<(i128, V)>)
    requires
        distinct_numbers(rows),
    ensures
        forall|i: int|
            0 <= i < rows.len() ==> numbers(rows).dom().contains((#[trigger] rows[i]).0 as int)
                && numbers(rows)[rows[i].0 as int] == rows[i].1,
        forall|k: int| #[trigger]
            numbers(rows).dom().contains(k) ==> exists|i: int|
                0 <= i < rows.len() && (#[trigger] rows[i]).0 == k,
    decreases rows.len(),
{
    if rows.len() > 0 {
        let front = rows.drop_last();
        assert forall|i: int, j: int| 0 <= i < j < front.len() implies front[i].0 != front[j].0 by {
            assert(front[i] == rows[i] && front[j] == rows[j]);
        }
        lemma_numbers(front);
        assert forall|i: int| 0 <= i < rows.len() implies numbers(rows).dom().contains(
            (#[trigger] rows[i]).0 as int,
        ) && numbers(rows)[rows[i].0 as int] == rows[i].1 by {
            if i < front.len() {
                assert(front[i] == rows[i]);
                assert(rows[i].0 != rows.last().0);
            }
        }
        assert forall|k: int| #[trigger] numbers(rows).dom().contains(k) implies exists|i: int|
            0 <= i < rows.len() && (#[trigger] rows[i]).0 == k by {
            if k == rows.last().0 {
                assert(rows[rows.len() - 1].0 == k);
            } else {
                assert(numbers(front).dom().contains(k));
                let i = choose|i: int| 0 <= i < front.len() && (#[trigger] front[i]).0 == k;
                assert(rows[i].0 == k);
            }
        }
    }
}

/// Rows that hold what a table has, and nothing else, make up that table.
proof fn lemma_numbers_from<V>(rows: Seq<(i128, V)>, m: Map<int, V>)
    requires
        distinct_numbers(rows),
        forall|i: int|
            0 <= i < rows.len() ==> m.dom().contains((#[trigger] rows[i]).0 as int)
                && m[rows[i].0 as int] == rows[i].1,
        forall|k: int| #[trigger]
            m.dom().contains(k) ==> exists|i: int|
                0 <= i < rows.len() && (#[trigger] rows[i]).0 == k,
    ensures
        numbers(rows) == m,
{
    lemma_numbers(rows);
    assert forall|k: int| numbers(rows).dom().contains(k) == m.dom().contains(k) by {
        if numbers(rows).dom().contains(k) {
            let i = choose|i: int| 0 <= i < rows.len() && (#[trigger] rows[i]).0 == k;
            assert(m.dom().contains(rows[i].0 as int));
        }
        if m.dom().contains(k) {
            let i = choose|i: int| 0 <= i < rows.len() && (#[trigger] rows[i]).0 == k;
            assert(numbers(rows).dom().contains(rows[i].0 as int));
        }
    }
    assert forall|k: int| numbers(rows).dom().contains(k) implies numbers(rows)[k] == m[k] by {
        let i = choose|i: int| 0 <= i < rows.len() && (#[trigger] rows[i]).0 == k;
        assert(rows[i].1 == m[k]);
    }
    assert(numbers(rows) =~= m);
}

impl<V> View for Numbered<V> {
    type V = Map<int, V>;

    closed spec fn view(&self) -> Map<int, V> {
        numbers(self.rows@)
    }
}

impl<V> Numbered<V> {
    pub closed spec fn wf(&self) -> bool {
        distinct_numbers(self.rows@)
    }

    pub fn new() -> (r: Self)
        ensures
            r.wf(),
            r@ == Map::<int, V>::empty(),
    {
        Numbered { rows: Vec::new() }
    }

    /// The rows, each with its key.
    pub fn rows(&self) -> (r: &Vec<(i128, V)>)
        ensures
            numbers(r@) == self@,
    {
        &self.rows
    }

    fn place(&self, key: i128) -> (r: Option<usize>)
        ensures
            match r {
                Some(i) => i < self.rows@.len() && self.rows@[i as int].0 == key,
                None => forall|i: int|
                    0 <= i < self.rows@.len() ==> (#[trigger] self.rows@[i]).0 != key,
            },
    {
        let mut i: usize = 0;
        while i < self.rows.len()
            invariant
                i <= self.rows@.len(),
                forall|k: int| 0 <= k < i ==> (#[trigger] self.rows@[k]).0 != key,
            decreases self.rows@.len() - i,
        {
            if self.rows[i].0 == key {
                return Some(i);
            }
            i = i + 1;
        }
        None
    }

    /// The value of a key, if it has one.
    pub fn get(&self, key: i128) -> (r: Option<&V>)
        requires
            self.wf(),
        ensures
            match r {
                Some(v) => self@.dom().contains(key as int) && *v == self@[key as int],
                None => !self@.dom().contains(key as int),
            },
    {
        proof {
            lemma_numbers(self.rows@);
        }
        match self.place(key) {
            Some(i) => Some(&self.rows[i].1),
            None => None,
        }
    }

    /// Give a key its value.
    pub fn set(&mut self, key: i128, value: V)
        requires
            old(self).wf(),
        ensures
            final(self).wf(),
            final(self)@ == old(self)@.insert(key as int, value),
    {
        proof {
            lemma_numbers(self.rows@);
        }
        match self.place(key) {
            Some(i) => {
                self.rows.set(i, (key, value));
                proof {
                    let m = old(self)@.insert(key as int, value);
                    let rows = self.rows@;
                    let had = old(self).rows@;
                    assert forall|k: int| #[trigger] m.dom().contains(k) implies exists|j: int|
                        0 <= j < rows.len() && (#[trigger] rows[j]).0 == k by {
                        if k == key {
                            assert(rows[i as int].0 == k);
                        } else {
                            let j = choose|j: int| 0 <= j < had.len() && (#[trigger] had[j]).0
                                == k;
                            assert(rows[j].0 == k);
                        }
                    }
                    assert forall|j: int| 0 <= j < rows.len() implies m.dom().contains(
                        (#[trigger] rows[j]).0 as int,
                    ) && m[rows[j].0 as int] == rows[j].1 by {
                        if j != i {
                            assert(rows[j] == had[j]);
                        }
                    }
                    lemma_numbers_from(rows, m);
                }
            },
            None => {
                self.rows.push((key, value));
                assert(self.rows@.drop_last() =~= old(self).rows@);
            },
        }
    }

    /// Take a key's value out, if it has one.
    pub fn remove(&mut self, key: i128) -> (r: Option<V>)
        requires
            old(self).wf(),
        ensures
            final(self).wf(),
            final(self)@ == old(self)@.remove(key as int),
            match r {
                Some(v) => old(self)@.dom().contains(key as int) && v == old(self)@[key as int],
                None => !old(self)@.dom().contains(key as int),
            },
    {
        proof {
            lemma_numbers(self.rows@);
        }
        match self.place(key) {
            Some(i) => {
                let ghost had = self.rows@;
                let (_, value) = self.rows.remove(i);
                proof {
                    let m = old(self)@.remove(key as int);
                    let rows = self.rows@;
                    assert forall|j: int| 0 <= j < rows.len() implies m.dom().contains(
                        (#[trigger] rows[j]).0 as int,
                    ) && m[rows[j].0 as int] == rows[j].1 by {
                        let k = if j < i {
                            j
                        } else {
                            j + 1
                        };
                        assert(rows[j] == had[k]);
                    }
                    assert forall|k: int| #[trigger] m.dom().contains(k) implies exists|j: int|
                        0 <= j < rows.len() && (#[trigger] rows[j]).0 == k by {
                        let j = choose|j: int| 0 <= j < had.len() && (#[trigger] had[j]).0 == k;
                        if j < i {
                            assert(rows[j].0 == k);
                        } else {
                            assert(rows[j - 1].0 == k);
                        }
                    }
                    lemma_numbers_from(rows, m);
                }
                Some(value)
            },
            None => {
                assert(!self@.dom().contains(key as int));
                assert(self@ =~= self@.remove(key as int));
                None
            },
        }
    }
}

/// A table by name.
#[derive(Debug)]
pub struct Named<V> {
    rows: Vec<(String, V)>,
}

/// The value that the rows hold for each key.
pub open spec fn names<V>(rows: Seq<(String, V)>) -> Map<Seq<char>, V>
    decreases rows.len(),
{
    if rows.len() == 0 {
        Map::empty()
    } else {
        names(rows.drop_last()).insert(rows.last().0@, rows.last().1)
    }
}

/// Whether no key has two rows.
pub open spec fn distinct_names<V>(rows: Seq<(String, V)>) -> bool {
    forall|i: int, j: int| 0 <= i < j < rows.len() ==> rows[i].0@ != rows[j].0@
}

proof fn lemma_names<V>(rows: Seq<(String, V)>)
    requires
        distinct_names(rows),
    ensures
        forall|i: int|
            0 <= i < rows.len() ==> names(rows).dom().contains((#[trigger] rows[i]).0@) && names(
                rows,
            )[rows[i].0@] == rows[i].1,
        forall|k: Seq<char>| #[trigger]
            names(rows).dom().contains(k) ==> exists|i: int|
                0 <= i < rows.len() && (#[trigger] rows[i]).0@ == k,
    decreases rows.len(),
{
    if rows.len() > 0 {
        let front = rows.drop_last();
        assert forall|i: int, j: int| 0 <= i < j < front.len() implies front[i].0@
            != front[j].0@ by {
            assert(front[i] == rows[i] && front[j] == rows[j]);
        }
        lemma_names(front);
        assert forall|i: int| 0 <= i < rows.len() implies names(rows).dom().contains(
            (#[trigger] rows[i]).0@,
        ) && names(rows)[rows[i].0@] == rows[i].1 by {
            if i < front.len() {
                assert(front[i] == rows[i]);
                assert(rows[i].0@ != rows.last().0@);
            }
        }
        assert forall|k: Seq<char>| #[trigger] names(rows).dom().contains(k) implies exists|i: int|
            0 <= i < rows.len() && (#[trigger] rows[i]).0@ == k by {
            if k == rows.last().0@ {
                assert(rows[rows.len() - 1].0@ == k);
            } else {
                assert(names(front).dom().contains(k));
                let i = choose|i: int| 0 <= i < front.len() && (#[trigger] front[i]).0@ == k;
                assert(rows[i].0@ == k);
            }
        }
    }
}

proof fn lemma_names_from<V>(rows: Seq<(String, V)>, m: Map<Seq<char>, V>)
    requires
        distinct_names(rows),
        forall|i: int|
            0 <= i < rows.len() ==> m.dom().contains((#[trigger] rows[i]).0@) && m[rows[i].0@]
                == rows[i].1,
        forall|k: Seq<char>| #[trigger]
            m.dom().contains(k) ==> exists|i: int|
                0 <= i < rows.len() && (#[trigger] rows[i]).0@ == k,
    ensures
        names(rows) == m,
{
    lemma_names(rows);
    assert forall|k: Seq<char>| names(rows).dom().contains(k) == m.dom().contains(k) by {
        if names(rows).dom().contains(k) {
            let i = choose|i: int| 0 <= i < rows.len() && (#[trigger] rows[i]).0@ == k;
            assert(m.dom().contains(rows[i].0@));
        }
        if m.dom().contains(k) {
            let i = choose|i: int| 0 <= i < rows.len() && (#[trigger] rows[i]).0@ == k;
            assert(names(rows).dom().contains(rows[i].0@));
        }
    }
    assert forall|k: Seq<char>| names(rows).dom().contains(k) implies names(rows)[k] == m[k] by {
        let i = choose|i: int| 0 <= i < rows.len() && (#[trigger] rows[i]).0@ == k;
        assert(rows[i].1 == m[k]);
    }
    assert(names(rows) =~= m);
}

impl<V> View for Named<V> {
    type V = Map<Seq<char>, V>;

    closed spec fn view(&self) -> Map<Seq<char>, V> {
        names(self.rows@)
    }
}

impl<V> Named<V> {
    pub closed spec fn wf(&self) -> bool {
        distinct_names(self.rows@)
    }

    pub fn new() -> (r: Self)
        ensures
            r.wf(),
            r@ == Map::<Seq<char>, V>::empty(),
    {
        Named { rows: Vec::new() }
    }

    /// The rows, each with its key.
    pub fn rows(&self) -> (r: &Vec<(String, V)>)
        ensures
            names(r@) == self@,
    {
        &self.rows
    }

    fn place(&self, key: &str) -> (r: Option<usize>)
        ensures
            match r {
                Some(i) => i < self.rows@.len() && self.rows@[i as int].0@ == key@,
                None => forall|i: int|
                    0 <= i < self.rows@.len() ==> (#[trigger] self.rows@[i]).0@ != key@,
            },
    {
        let name = key.to_owned();
        let mut i: usize = 0;
        while i < self.rows.len()
            invariant
                i <= self.rows@.len(),
                name@ == key@,
                forall|k: int| 0 <= k < i ==> (#[trigger] self.rows@[k]).0@ != key@,
            decreases self.rows@.len() - i,
        {
            if self.rows[i].0 == name {
                return Some(i);
            }
            i = i + 1;
        }
        None
    }

    /// The value of a key, if it has one.
    pub fn get(&self, key: &str) -> (r: Option<&V>)
        requires
            self.wf(),
        ensures
            match r {
                Some(v) => self@.dom().contains(key@) && *v == self@[key@],
                None => !self@.dom().contains(key@),
            },
    {
        proof {
            lemma_names(self.rows@);
        }
        match self.place(key) {
            Some(i) => Some(&self.rows[i].1),
            None => None,
        }
    }

    /// Give a key its value.
    pub fn set(&mut self, key: &str, value: V)
        requires
            old(self).wf(),
        ensures
            final(self).wf(),
            final(self)@ == old(self)@.insert(key@, value),
    {
        proof {
            lemma_names(self.rows@);
        }
        match self.place(key) {
            Some(i) => {
                self.rows.set(i, (key.to_owned(), value));
                proof {
                    let m = old(self)@.insert(key@, value);
                    let rows = self.rows@;
                    let had = old(self).rows@;
                    assert forall|a: int, b: int| 0 <= a < b < rows.len() implies rows[a].0@
                        != rows[b].0@ by {
                        assert(had[a].0@ != had[b].0@);
                    }
                    assert forall|k: Seq<char>| #[trigger]
                        m.dom().contains(k) implies exists|j: int|
                        0 <= j < rows.len() && (#[trigger] rows[j]).0@ == k by {
                        if k == key@ {
                            assert(rows[i as int].0@ == k);
                        } else {
                            let j = choose|j: int| 0 <= j < had.len() && (#[trigger] had[j]).0@
                                == k;
                            assert(rows[j].0@ == k);
                        }
                    }
                    assert forall|j: int| 0 <= j < rows.len() implies m.dom().contains(
                        (#[trigger] rows[j]).0@,
                    ) && m[rows[j].0@] == rows[j].1 by {
                        if j != i {
                            assert(rows[j] == had[j]);
                        }
                    }
                    lemma_names_from(rows, m);
                }
            },
            None => {
                self.rows.push((key.to_owned(), value));
                assert(self.rows@.drop_last() =~= old(self).rows@);
            },
        }
    }
}

} // verus!
