//! The judge queue: a first-in-first-out line of requests served one at a
//! time, so that at most one judge execution is in flight system-wide. A
//! worker that drives this state over a channel makes `submit` safe from
//! many concurrent producers; the discipline itself is decided here.
use vstd::prelude::*;

use crate::judger::empty_detail;
use crate::judger::failed_result;
use crate::judger::Judge;
use crate::judger::Status;
use crate::judger::Tests;

verus! {

/// The queue's state: the pending requests in arrival order, and whether a
/// request is being executed right now.
pub struct Judger {
    pub pending: Vec<Judge>,
    pub busy: bool,
}

impl Judger {
    /// A fresh queue: nothing pending, nothing in flight.
    pub fn daemon() -> (r: Judger)
        ensures
            r.pending@.len() == 0,
            !r.busy,
    {
        Judger { pending: Vec::new(), busy: false }
    }

    /// Accepts a request unconditionally — the queue is unbounded — at the
    /// back of the line, behind every earlier arrival.
    pub fn submit(&mut self, j: Judge)
        ensures
            final(self).pending@ == old(self).pending@.push(j),
            final(self).busy == old(self).busy,
    {
        self.pending.push(j);
    }

    /// Takes the next request to execute: the earliest arrival still
    /// pending, and only when nothing is in flight — never a later request,
    /// and never a second one beside a running one.
    pub fn begin(&mut self) -> (r: Option<Judge>)
        ensures
            old(self).busy || old(self).pending@.len() == 0 ==> (r is None && *final(self) == *old(
                self,
            )),
            !old(self).busy && old(self).pending@.len() > 0 ==> (r == Some(
                old(self).pending@[0],
            ) && final(self).pending@ == old(self).pending@.drop_first() && final(self).busy),
    {
        if self.busy || self.pending.len() == 0 {
            return None;
        }
        self.busy = true;
        let j = self.pending.remove(0);
        proof {
            assert(self.pending@ =~= old(self).pending@.drop_first());
        }
        Some(j)
    }

    /// Settles the request in flight. The orchestration's result is handed
    /// through; if orchestration failed without one, JudgeFailed with empty
    /// detail stands in, so a result is always delivered.
    pub fn complete(&mut self, outcome: Option<(Status, Tests)>) -> (r: (Status, Tests))
        requires
            old(self).busy,
        ensures
            !final(self).busy,
            final(self).pending@ == old(self).pending@,
            outcome matches Some(given) ==> r == given,
            outcome is None ==> (r.0 is JudgeFailed && empty_detail(r.1)),
    {
        self.busy = false;
        match outcome {
            Some(given) => given,
            None => failed_result(),
        }
    }
}

} // verus!
