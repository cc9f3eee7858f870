//! The testing phase as a state machine: the planned tests are visited in
//! order, each is decided from the sandbox outcome and the output
//! comparison, and a decisive failure stops the run and leaves the rest
//! skipped.
use vstd::prelude::*;

use crate::judger::compare::normal_compare;
use crate::judger::compare::normal_eq;
use crate::judger::plan::sorted_strict;
use crate::judger::plan::sviews;
use crate::judger::run::RunStatistics;
use crate::judger::run::RunStatus;
use crate::judger::Status;
use crate::judger::Test;
use crate::judger::Tests;

verus! {

/// What the driver observed for one test execution: the child finished and
/// its output and the expected answer were read back; the child was stopped
/// by a limit or crashed; or the isolation layer itself failed.
pub enum TestEvent {
    Finished(RunStatistics, Vec<u8>, Vec<u8>),
    Stopped(RunStatistics),
    Failed,
}

/// The verdict one event earns its test.
pub open spec fn verdict_of(e: TestEvent) -> Status {
    match e {
        TestEvent::Finished(_, out, expected) => if normal_eq(out@, expected@) {
            Status::Accepted
        } else {
            Status::WrongAnswer
        },
        TestEvent::Stopped(stats) => if stats.status is RuntimeError {
            Status::RuntimeError
        } else {
            Status::MemoryLimitExceeded
        },
        TestEvent::Failed => Status::JudgeFailed,
    }
}

/// The wall time one event records, in milliseconds.
pub open spec fn time_of(e: TestEvent) -> u32 {
    match e {
        TestEvent::Finished(stats, _, _) => stats.time,
        TestEvent::Stopped(stats) => stats.time,
        TestEvent::Failed => 0,
    }
}

/// A memory amount squeezed into the record's field.
pub open spec fn mem32_spec(m: u64) -> u32 {
    if m <= u32::MAX {
        m as u32
    } else {
        u32::MAX
    }
}

/// The memory one event records, in bytes.
pub open spec fn memory_of(e: TestEvent) -> u32 {
    match e {
        TestEvent::Finished(stats, _, _) => mem32_spec(stats.memory),
        TestEvent::Stopped(stats) => mem32_spec(stats.memory),
        TestEvent::Failed => 0,
    }
}

/// Whether the run goes on after a test with this verdict.
pub open spec fn continues(s: Status) -> bool {
    s is Accepted || s is WrongAnswer
}

/// The names of a sequence of test records, in order.
pub open spec fn names_of(ts: Seq<Test>) -> Seq<Seq<char>> {
    ts.map_values(|t: Test| t.name@)
}

/// The tests of a well-formed run stand in strictly increasing
/// lexicographic order of their names: the run visits them in that order,
/// earlier names first.
pub proof fn lemma_run_order(m: JudgeRun, i: int, j: int)
    requires
        m.wf(),
        0 <= i < j < m.tests@.len(),
    ensures
        crate::judger::plan::lex_lt(m.tests@[i].name@, m.tests@[j].name@),
{
    assert(names_of(m.tests@)[i] == m.tests@[i].name@);
    assert(names_of(m.tests@)[j] == m.tests@[j].name@);
}

/// The testing phase of one judge run. The planned tests stand in
/// lexicographic order; those before `next` are decided, those from `next`
/// on still read Skipped with zero time and memory, and `halted` says that
/// a decisive failure ended the run early.
pub struct JudgeRun {
    pub tests: Vec<Test>,
    pub next: usize,
    pub halted: bool,
}

impl JudgeRun {
    /// The machine's invariant.
    pub open spec fn wf(self) -> bool {
        &&& self.next <= self.tests@.len()
        &&& sorted_strict(names_of(self.tests@))
        &&& forall|i: int|
            self.next <= i < self.tests@.len() ==> (#[trigger] self.tests@[i]).status is Skipped
                && self.tests@[i].time == 0 && self.tests@[i].memory == 0
    }

    /// Lays out the run over the planned test names: every test starts
    /// Skipped with zero time and memory, in the given order.
    pub fn new(names: &Vec<String>) -> (r: JudgeRun)
        requires
            sorted_strict(sviews(names@)),
        ensures
            r.wf(),
            r.next == 0,
            !r.halted,
            names_of(r.tests@) == sviews(names@),
            r.tests@.len() == names@.len(),
    {
        let mut tests: Vec<Test> = Vec::new();
        let mut i: usize = 0;
        while i < names.len()
            invariant
                0 <= i <= names@.len(),
                tests@.len() == i,
                forall|j: int|
                    0 <= j < i ==> (#[trigger] tests@[j]).status is Skipped && tests@[j].time == 0
                        && tests@[j].memory == 0,
                forall|j: int| 0 <= j < i ==> (#[trigger] tests@[j]).name@ == names@[j]@,
            decreases names@.len() - i,
        {
            let t = Test {
                name: names[i].clone(),
                status: Status::Skipped,
                time: 0,
                memory: 0,
            };
            tests.push(t);
            i = i + 1;
        }
        proof {
            assert(names_of(tests@) =~= sviews(names@));
        }
        JudgeRun { tests, next: 0, halted: false }
    }

    /// The name of the test to execute now, or nothing when the run is over:
    /// every test is decided or a decisive failure halted it.
    pub fn current_test(&self) -> (r: Option<String>)
        ensures
            match r {
                Some(name) => !self.halted && self.next < self.tests@.len() && name@
                    == self.tests@[self.next as int].name@,
                None => self.halted || self.next >= self.tests@.len(),
            },
    {
        if self.halted || self.next >= self.tests.len() {
            None
        } else {
            Some(self.tests[self.next].name.clone())
        }
    }

    /// Decides the current test from what the driver observed. The verdict,
    /// time and memory land in the test's record; every other record is
    /// untouched; and the run halts exactly when the verdict is neither
    /// Accepted nor WrongAnswer — a wrong answer never stops later tests.
    pub fn record(&mut self, e: TestEvent)
        requires
            old(self).wf(),
            !old(self).halted,
            old(self).next < old(self).tests@.len(),
            e matches TestEvent::Finished(stats, _, _) ==> stats.status is Success,
            e matches TestEvent::Stopped(stats) ==> !(stats.status is Success),
        ensures
            final(self).wf(),
            final(self).next == old(self).next + 1,
            final(self).tests@.len() == old(self).tests@.len(),
            forall|i: int|
                0 <= i < old(self).tests@.len() && i != old(self).next ==> final(self).tests@[i]
                    == old(self).tests@[i],
            final(self).tests@[old(self).next as int].name@ == old(self).tests@[old(
                self,
            ).next as int].name@,
            final(self).tests@[old(self).next as int].status == verdict_of(e),
            final(self).tests@[old(self).next as int].time == time_of(e),
            final(self).tests@[old(self).next as int].memory == memory_of(e),
            final(self).halted == !continues(verdict_of(e)),
    {
        let idx = self.next;
        let n = self.tests.len();
        proof {
            assert(idx < n);
        }
        let name = self.tests[idx].name.clone();
        let status: Status;
        let time: u32;
        let memory: u32;
        match e {
            TestEvent::Finished(stats, out, expected) => {
                status = if normal_compare(&out, &expected) {
                    Status::Accepted
                } else {
                    Status::WrongAnswer
                };
                time = stats.time;
                memory = mem32(stats.memory);
            },
            TestEvent::Stopped(stats) => {
                status = match stats.status {
                    RunStatus::RuntimeError => Status::RuntimeError,
                    _ => Status::MemoryLimitExceeded,
                };
                time = stats.time;
                memory = mem32(stats.memory);
            },
            TestEvent::Failed => {
                status = Status::JudgeFailed;
                time = 0;
                memory = 0;
            },
        }
        let halt = !(matches!(status, Status::Accepted) || matches!(status, Status::WrongAnswer));
        let decided = Test { name, status, time, memory };
        let step = idx + 1;
        self.tests[idx] = decided;
        self.next = step;
        self.halted = halt;
        proof {
            assert(names_of(self.tests@) =~= names_of(old(self).tests@));
        }
    }

    /// Whether the run is over: every test decided or the run halted.
    pub fn done(&self) -> (r: bool)
        ensures
            r == (self.halted || self.next >= self.tests@.len()),
    {
        self.halted || self.next >= self.tests.len()
    }

    /// Closes the run: the aggregate verdict over the recorded statuses in
    /// execution order, beside the full ordered test list.
    pub fn finish(self) -> (r: (Status, Tests))
        ensures
            r.0 == crate::judger::aggregate_of(crate::judger::statuses_of(self.tests@)),
            r.1 == Tests::Tests(self.tests),
    {
        let status = crate::judger::aggregate(&self.tests);
        (status, Tests::Tests(self.tests))
    }
}

/// A memory amount squeezed into a record's 32-bit field.
pub fn mem32(m: u64) -> (r: u32)
    ensures
        r == mem32_spec(m),
{
    if m <= 0xffff_ffff {
        m as u32
    } else {
        u32::MAX
    }
}

} // verus!
