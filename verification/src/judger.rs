//! Verdicts, the per-test record of one judge run, and the reduction of
//! per-test outcomes into a single aggregate verdict.
use vstd::prelude::*;

pub mod compare;
pub mod machine;
pub mod plan;
pub mod queue;
pub mod run;

verus! {

/// The nine-way classification of a judge run or of one test.
#[derive(Debug, Clone, Copy, PartialEq, Eq, Structural)]
pub enum Status {
    JudgeFailed,
    TestdataError,
    CompilationError,
    RuntimeError,
    TimeLimitExceeded,
    MemoryLimitExceeded,
    WrongAnswer,
    Accepted,
    Skipped,
}

impl Status {
    /// The wire name of this verdict, as callers persist it.
    pub fn as_str(self) -> (r: &'static str)
        ensures
            self is JudgeFailed ==> r@ == "judge_failed"@,
            self is TestdataError ==> r@ == "testdata_error"@,
            self is CompilationError ==> r@ == "compilation_error"@,
            self is RuntimeError ==> r@ == "runtime_error"@,
            self is TimeLimitExceeded ==> r@ == "time_limit_exceeded"@,
            self is MemoryLimitExceeded ==> r@ == "memory_limit_exceeded"@,
            self is WrongAnswer ==> r@ == "wrong_answer"@,
            self is Accepted ==> r@ == "accepted"@,
            self is Skipped ==> r@ == "skipped"@,
    {
        match self {
            Status::JudgeFailed => "judge_failed",
            Status::TestdataError => "testdata_error",
            Status::CompilationError => "compilation_error",
            Status::RuntimeError => "runtime_error",
            Status::TimeLimitExceeded => "time_limit_exceeded",
            Status::MemoryLimitExceeded => "memory_limit_exceeded",
            Status::WrongAnswer => "wrong_answer",
            Status::Accepted => "accepted",
            Status::Skipped => "skipped",
        }
    }
}

/// The outcome recorded for one test of a run.
#[derive(Debug, Clone)]
pub struct Test {
    pub name: String,
    pub status: Status,
    pub time: u32,
    pub memory: u32,
}

/// Mathematical image of a [`Test`].
pub ghost struct TestV {
    pub name: Seq<char>,
    pub status: Status,
    pub time: u32,
    pub memory: u32,
}

impl View for Test {
    type V = TestV;

    open spec fn view(&self) -> TestV {
        TestV { name: self.name@, status: self.status, time: self.time, memory: self.memory }
    }
}

/// The detail payload of a judge result: either a free-text message (the
/// compile/testdata failure path) or the ordered list of per-test records.
#[derive(Debug, Clone)]
pub enum Tests {
    Message(String),
    Tests(Vec<Test>),
}

/// One judge request, consumed exactly once.
pub struct Judge {
    pub record_id: String,
    pub problem_id: String,
    pub time_limit: u32,
    pub memory_limit: u32,
    pub language: String,
    pub code: String,
}

/// A status that decides the aggregate verdict.
pub open spec fn decisive(s: Status) -> bool {
    !(s is Accepted) && !(s is Skipped)
}

/// The aggregate verdict of a run: the first decisive per-test status in
/// execution order, or Accepted when there is none.
pub open spec fn aggregate_of(ss: Seq<Status>) -> Status
    decreases ss.len(),
{
    if ss.len() == 0 {
        Status::Accepted
    } else if decisive(ss[0]) {
        ss[0]
    } else {
        aggregate_of(ss.drop_first())
    }
}

/// The statuses of a sequence of test records, in order.
pub open spec fn statuses_of(ts: Seq<Test>) -> Seq<Status> {
    Seq::new(ts.len(), |i: int| ts[i].status)
}

/// The aggregate verdict is Accepted exactly when every test either passed
/// or was never executed.
pub proof fn lemma_aggregate_accepted_iff(ss: Seq<Status>)
    ensures
        aggregate_of(ss) is Accepted <==> (forall|i: int|
            0 <= i < ss.len() ==> ss[i] is Accepted || ss[i] is Skipped),
    decreases ss.len(),
{
    if ss.len() == 0 {
    } else if decisive(ss[0]) {
        assert(!(ss[0] is Accepted || ss[0] is Skipped));
    } else {
        lemma_aggregate_accepted_iff(ss.drop_first());
        assert(forall|i: int| 0 <= i < ss.drop_first().len() ==> ss.drop_first()[i] == ss[i + 1]);
        if forall|i: int| 0 <= i < ss.len() ==> ss[i] is Accepted || ss[i] is Skipped {
            assert(forall|i: int|
                0 <= i < ss.drop_first().len() ==> ss.drop_first()[i] is Accepted
                    || ss.drop_first()[i] is Skipped);
        }
        if forall|i: int|
            0 <= i < ss.drop_first().len() ==> ss.drop_first()[i] is Accepted
                || ss.drop_first()[i] is Skipped {
            assert forall|i: int| 0 <= i < ss.len() implies ss[i] is Accepted
                || ss[i] is Skipped by {
                if i > 0 {
                    assert(ss.drop_first()[i - 1] == ss[i]);
                }
            }
        }
    }
}

/// Dropping a non-decisive head does not change the aggregate; a decisive
/// head is the aggregate.
pub proof fn lemma_aggregate_first_decisive(ss: Seq<Status>, k: int)
    requires
        0 <= k < ss.len(),
        decisive(ss[k]),
        forall|i: int| 0 <= i < k ==> !decisive(ss[i]),
    ensures
        aggregate_of(ss) == ss[k],
    decreases k,
{
    if k > 0 {
        lemma_aggregate_first_decisive(ss.drop_first(), k - 1);
    }
}

/// A result detail that carries no information: the empty message payload.
pub open spec fn empty_detail(d: Tests) -> bool {
    d matches Tests::Message(m) && m@ == "{}"@
}

/// The result of a run whose test-data directory could not be read: verdict
/// TestdataError with empty detail.
pub fn testdata_error_result() -> (r: (Status, Tests))
    ensures
        r.0 is TestdataError,
        empty_detail(r.1),
{
    (Status::TestdataError, Tests::Message(String::from_str("{}")))
}

/// The result of a run whose submission could not be compiled, or whose
/// language is not supported: verdict CompilationError with empty detail.
pub fn compilation_error_result() -> (r: (Status, Tests))
    ensures
        r.0 is CompilationError,
        empty_detail(r.1),
{
    (Status::CompilationError, Tests::Message(String::from_str("{}")))
}

/// The result substituted when the judging machinery itself failed: verdict
/// JudgeFailed with empty detail. A caller always receives a result.
pub fn failed_result() -> (r: (Status, Tests))
    ensures
        r.0 is JudgeFailed,
        empty_detail(r.1),
{
    (Status::JudgeFailed, Tests::Message(String::from_str("{}")))
}

/// Whether a compilation run produced a usable binary: the sandbox reports
/// success and the compiler exited with zero. An internal sandbox error
/// counts as a failed compilation.
pub fn compile_succeeded(r: &Result<run::RunStatistics, run::RunError>) -> (b: bool)
    ensures
        b == (r matches Ok(s) && s.status is Success && s.code == 0),
{
    match r {
        Ok(s) => matches!(s.status, run::RunStatus::Success) && s.code == 0,
        Err(_) => false,
    }
}

/// How a judge run begins: rejected outright with a final result, or bound
/// for compilation with the invocation to run and the testing phase laid
/// out.
pub enum StartOutcome {
    Rejected(Status, Tests),
    Compile(run::RunConfig, machine::JudgeRun),
}

/// Admits one judge request. An unreadable test-data directory is rejected
/// as TestdataError before anything else; an unsupported language as
/// CompilationError; in both cases with empty detail and no sandbox call,
/// since no compile invocation is handed out. Otherwise the compiler
/// invocation for the request's language is returned together with the
/// testing phase over the directory's planned test set.
pub fn start_judge(
    j: &Judge,
    listing: Option<&Vec<String>>,
    compiler_c: &str,
    compiler_cxx: &str,
) -> (r: StartOutcome)
    ensures
        listing is None ==> (r matches StartOutcome::Rejected(s, d) && s is TestdataError
            && empty_detail(d)),
        listing is Some && !(j.language@ == "c"@ || j.language@ == "cxx"@) ==> (r
            matches StartOutcome::Rejected(s, d) && s is CompilationError && empty_detail(d)),
        listing matches Some(names) ==> ((j.language@ == "c"@ || j.language@ == "cxx"@) ==> (r
            matches StartOutcome::Compile(cfg, m) && run::is_compile_config(
            cfg,
            j.language@,
            compiler_c@,
            compiler_cxx@,
        ) && m.wf() && m.next == 0 && !m.halted && plan::is_plan(
            plan::sviews(names@),
            machine::names_of(m.tests@),
        ))),
{
    let names = match listing {
        None => {
            return StartOutcome::Rejected(
                Status::TestdataError,
                Tests::Message(String::from_str("{}")),
            );
        },
        Some(names) => names,
    };
    let cfg = match run::compile_config(j.language.as_str(), compiler_c, compiler_cxx) {
        None => {
            return StartOutcome::Rejected(
                Status::CompilationError,
                Tests::Message(String::from_str("{}")),
            );
        },
        Some(cfg) => cfg,
    };
    let planned = plan::plan_tests(names);
    let m = machine::JudgeRun::new(&planned);
    StartOutcome::Compile(cfg, m)
}

/// Computes the aggregate verdict of the recorded tests.
pub fn aggregate(tests: &Vec<Test>) -> (s: Status)
    ensures
        s == aggregate_of(statuses_of(tests@)),
{
    let ghost ss = statuses_of(tests@);
    proof {
        assert(ss.skip(0) =~= ss);
    }
    let mut i: usize = 0;
    while i < tests.len()
        invariant
            0 <= i <= tests.len(),
            ss == statuses_of(tests@),
            ss.len() == tests@.len(),
            aggregate_of(ss) == aggregate_of(ss.skip(i as int)),
        decreases tests.len() - i,
    {
        let st = tests[i].status;
        if !(matches!(st, Status::Accepted) || matches!(st, Status::Skipped)) {
            assert(ss.skip(i as int)[0] == st);
            return st;
        }
        assert(ss.skip(i as int).drop_first() =~= ss.skip(i + 1));
        i = i + 1;
    }
    assert(ss.skip(i as int) =~= Seq::<Status>::empty());
    Status::Accepted
}

} // verus!
