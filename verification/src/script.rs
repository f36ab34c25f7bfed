//! Operations that need their host.
//!
//! The library never touches a disk, a socket or a process. An operation that
//! needs one is a function of the state and of the answers its host has given so
//! far. It either comes to an end or names the next thing it needs done; the
//! host does it, adds the answer, and calls the operation again from the start.

use vstd::prelude::*;

verus! {

/// How far an operation came with the answers it was given.
#[derive(Debug)]
pub enum Progress<A, T, E> {
    /// It needs this done before it can go on.
    Ask(A),
    /// It is finished.
    Done(T),
    /// It is finished, without success.
    Failed(E),
}

/// A run of an operation: the state it leaves, how many answers it has used, and
/// how far it came.
pub struct Outcome<S, A, T, E> {
    pub state: S,
    pub at: int,
    pub end: Progress<A, T, E>,
}

/// One run after another, where the first is finished with success.
pub open spec fn then_do<S, A, T, U, E>(
    first: Outcome<S, A, T, E>,
    next: spec_fn(S, int, T) -> Outcome<S, A, U, E>,
) -> Outcome<S, A, U, E> {
    match first.end {
        Progress::Done(t) => next(first.state, first.at, t),
        Progress::Ask(a) => Outcome {
            state: first.state,
            at: first.at,
            end: Progress::Ask(a),
        },
        Progress::Failed(e) => Outcome {
            state: first.state,
            at: first.at,
            end: Progress::Failed(e),
        },
    }
}

pub open spec fn done<S, A, T, E>(state: S, at: int, t: T) -> Outcome<S, A, T, E> {
    Outcome { state, at, end: Progress::Done(t) }
}

pub open spec fn failed<S, A, T, E>(state: S, at: int, e: E) -> Outcome<S, A, T, E> {
    Outcome { state, at, end: Progress::Failed(e) }
}

/// The next answer, or the request for it.
pub open spec fn asked<S, A, R, E>(state: S, said: Seq<R>, at: int, a: A) -> Outcome<S, A, R, E> {
    if 0 <= at < said.len() {
        done(state, at + 1, said[at])
    } else {
        Outcome { state, at, end: Progress::Ask(a) }
    }
}

/// The answers given so far, and which of them comes next.
pub struct Script<'a, R> {
    answers: &'a Vec<R>,
    at: usize,
}

impl<'a, R> Script<'a, R> {
    pub closed spec fn said(&self) -> Seq<R> {
        self.answers@
    }

    pub closed spec fn place(&self) -> int {
        self.at as int
    }

    /// From the first answer on.
    pub fn new(answers: &'a Vec<R>) -> (r: Self)
        ensures
            r.said() == answers@,
            r.place() == 0,
    {
        Script { answers, at: 0 }
    }

    /// The next answer, if it was given.
    pub fn next_answer(&mut self) -> (r: Option<&'a R>)
        ensures
            final(self).said() == old(self).said(),
            match r {
                Some(answer) => 0 <= old(self).place() < old(self).said().len() && *answer
                    == old(self).said()[old(self).place()] && final(self).place()
                    == old(self).place() + 1,
                None => !(0 <= old(self).place() < old(self).said().len())
                    && final(self).place() == old(self).place(),
            },
    {
        if self.at < self.answers.len() {
            let i: usize = self.at;
            self.at = i + 1;
            Some(&self.answers[i])
        } else {
            None
        }
    }
}

} // verus!
