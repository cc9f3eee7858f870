//! The sandbox model: what one invocation of the native process-isolation
//! primitive is asked to do, what it reports back, and how its raw report is
//! classified. The primitive itself runs outside this library; everything
//! that can be decided from plain values is decided here.
use vstd::prelude::*;

use crate::judger::plan::str_eq;

verus! {

/// How many argument or environment slots the native primitive offers; a
/// longer vector is a configuration error, never truncated.
pub const VECTOR_CAP: usize = 256;

/// The wall-time budget of a compilation, in milliseconds.
pub const COMPILE_TIME_LIMIT: u32 = 10000;

/// The memory budget of a compilation, in bytes.
pub const COMPILE_MEMORY_LIMIT: u64 = 0x10000000;

/// One sandbox invocation: the executable, its standard streams, its
/// argument and environment vectors, and the limits to enforce.
#[derive(Debug, Clone)]
pub struct RunConfig {
    pub time_limit: u32,
    pub memory_limit: u64,
    pub exec_path: String,
    pub input_path: String,
    pub output_path: String,
    pub env: Vec<String>,
    pub args: Vec<String>,
}

/// What the sandbox measured and how the child ended.
#[derive(Debug, Clone, Copy)]
pub struct RunStatistics {
    pub time: u32,
    pub memory: u64,
    pub code: u32,
    pub status: RunStatus,
}

/// The four ways a sandboxed child can terminate.
#[derive(Debug, Clone, Copy, PartialEq, Eq, Structural)]
pub enum RunStatus {
    Success,
    TimeLimitExceeded,
    MemoryLimitExceeded,
    RuntimeError,
}

/// Failure of the isolation layer itself, as opposed to any outcome of the
/// child.
#[derive(Debug, Clone, Copy, PartialEq, Eq, Structural)]
pub enum RunError {
    Internal,
}

/// The raw record the native primitive fills in: measured resources, how
/// the child exited, a numeric outcome code and its own internal-error flag.
#[derive(Debug, Clone, Copy)]
pub struct RawOutcome {
    pub cpu_time: i32,
    pub real_time: i32,
    pub memory: i64,
    pub signal: i32,
    pub exit_code: i32,
    pub error: i32,
    pub result: i32,
}

/// No NUL character anywhere in the string: the precondition for handing it
/// across the C boundary.
pub open spec fn nul_free(s: Seq<char>) -> bool {
    forall|i: int| 0 <= i < s.len() ==> s[i] != '\0'
}

/// A configuration the native primitive can be asked to run: every string
/// NUL-free and both vectors within the fixed capacity.
pub open spec fn valid_run_config(c: RunConfig) -> bool {
    &&& nul_free(c.exec_path@)
    &&& nul_free(c.input_path@)
    &&& nul_free(c.output_path@)
    &&& c.env@.len() <= VECTOR_CAP
    &&& c.args@.len() <= VECTOR_CAP
    &&& forall|i: int| 0 <= i < c.env@.len() ==> nul_free(#[trigger] c.env@[i]@)
    &&& forall|i: int| 0 <= i < c.args@.len() ==> nul_free(#[trigger] c.args@[i]@)
}

/// Whether the string is free of NUL characters.
fn str_nul_free(s: &str) -> (r: bool)
    ensures
        r == nul_free(s@),
{
    let n = s.unicode_len();
    let mut i: usize = 0;
    while i < n
        invariant
            0 <= i <= n,
            n == s@.len(),
            forall|j: int| 0 <= j < i ==> s@[j] != '\0',
        decreases n - i,
    {
        if s.get_char(i) == '\0' {
            return false;
        }
        i = i + 1;
    }
    true
}

/// Whether every string of the vector is free of NUL characters.
fn all_nul_free(v: &Vec<String>) -> (r: bool)
    ensures
        r == (forall|i: int| 0 <= i < v@.len() ==> nul_free(#[trigger] v@[i]@)),
{
    let mut i: usize = 0;
    while i < v.len()
        invariant
            0 <= i <= v@.len(),
            forall|j: int| 0 <= j < i ==> nul_free(#[trigger] v@[j]@),
        decreases v@.len() - i,
    {
        if !str_nul_free(v[i].as_str()) {
            return false;
        }
        i = i + 1;
    }
    true
}

/// Checks a configuration before it crosses into the native primitive: an
/// embedded NUL or an overfull vector is reported as an internal error, as
/// the isolation layer would refuse it, and is never silently truncated.
pub fn check_config(c: &RunConfig) -> (r: Result<(), RunError>)
    ensures
        r is Ok <==> valid_run_config(*c),
        r is Err ==> r == Err::<(), RunError>(RunError::Internal),
{
    if c.env.len() > VECTOR_CAP || c.args.len() > VECTOR_CAP {
        return Err(RunError::Internal);
    }
    if !str_nul_free(c.exec_path.as_str()) {
        return Err(RunError::Internal);
    }
    if !str_nul_free(c.input_path.as_str()) {
        return Err(RunError::Internal);
    }
    if !str_nul_free(c.output_path.as_str()) {
        return Err(RunError::Internal);
    }
    if !all_nul_free(&c.env) {
        return Err(RunError::Internal);
    }
    if !all_nul_free(&c.args) {
        return Err(RunError::Internal);
    }
    Ok(())
}

/// The statistics a raw record stands for: measured values clamped into
/// their unsigned fields, with a negative exit code kept non-zero.
pub open spec fn stats_of(raw: RawOutcome, status: RunStatus) -> RunStatistics {
    RunStatistics {
        time: if raw.real_time >= 0 {
            raw.real_time as u32
        } else {
            0
        },
        memory: if raw.memory >= 0 {
            raw.memory as u64
        } else {
            0
        },
        code: if raw.exit_code >= 0 {
            raw.exit_code as u32
        } else {
            u32::MAX
        },
        status,
    }
}

/// The termination kind a raw outcome code names, if any.
pub open spec fn status_of_code(code: i32) -> Option<RunStatus> {
    if code == 0 {
        Some(RunStatus::Success)
    } else if code == 1 || code == 2 {
        Some(RunStatus::TimeLimitExceeded)
    } else if code == 3 {
        Some(RunStatus::MemoryLimitExceeded)
    } else if code == 4 {
        Some(RunStatus::RuntimeError)
    } else {
        None
    }
}

/// Classifies the raw record of one sandbox invocation: the primitive's own
/// error flag or an unknown outcome code is an internal error; otherwise the
/// numeric code names the termination kind and the measured resources are
/// carried over.
pub fn classify(raw: &RawOutcome) -> (r: Result<RunStatistics, RunError>)
    ensures
        raw.error != 0 ==> r == Err::<RunStatistics, RunError>(RunError::Internal),
        raw.error == 0 ==> match status_of_code(raw.result) {
            Some(st) => r == Ok::<RunStatistics, RunError>(stats_of(*raw, st)),
            None => r == Err::<RunStatistics, RunError>(RunError::Internal),
        },
{
    if raw.error != 0 {
        return Err(RunError::Internal);
    }
    let status = if raw.result == 0 {
        RunStatus::Success
    } else if raw.result == 1 || raw.result == 2 {
        RunStatus::TimeLimitExceeded
    } else if raw.result == 3 {
        RunStatus::MemoryLimitExceeded
    } else if raw.result == 4 {
        RunStatus::RuntimeError
    } else {
        return Err(RunError::Internal);
    };
    let time: u32 = if raw.real_time >= 0 {
        raw.real_time as u32
    } else {
        0
    };
    let memory: u64 = if raw.memory >= 0 {
        raw.memory as u64
    } else {
        0
    };
    let code: u32 = if raw.exit_code >= 0 {
        raw.exit_code as u32
    } else {
        u32::MAX
    };
    Ok(RunStatistics { time, memory, code, status })
}

/// Whether the language tag names one of the two fixed compilers.
pub fn language_supported(language: &str) -> (r: bool)
    ensures
        r == (language@ == "c"@ || language@ == "cxx"@),
{
    str_eq(language, "c") || str_eq(language, "cxx")
}

/// The compiler invocation owed to a supported language: a generous fixed
/// budget, the source at the scratch code path, the binary at the scratch
/// output path, native code generation with warnings, debug symbols, a
/// static runtime, UTF-8 sources and a modern standard.
pub open spec fn is_compile_config(
    c: RunConfig,
    language: Seq<char>,
    compiler_c: Seq<char>,
    compiler_cxx: Seq<char>,
) -> bool {
    &&& c.time_limit == COMPILE_TIME_LIMIT
    &&& c.memory_limit == COMPILE_MEMORY_LIMIT
    &&& c.exec_path@ == (if language == "c"@ {
        compiler_c
    } else {
        compiler_cxx
    })
    &&& c.input_path@ == "/dev/null"@
    &&& c.output_path@ == "/dev/null"@
    &&& c.env@.len() == 0
    &&& c.args@.len() == 9
    &&& c.args@[0]@ == "/tmp/boardjudge/judge/code"@
    &&& c.args@[1]@ == "-o"@
    &&& c.args@[2]@ == "/tmp/boardjudge/judge/a.out"@
    &&& c.args@[3]@ == "-g"@
    &&& c.args@[4]@ == "-Wall"@
    &&& c.args@[5]@ == "-static-libgcc"@
    &&& c.args@[6]@ == "-fexec-charset=UTF-8"@
    &&& c.args@[7]@ == "-std=c++2b"@
    &&& c.args@[8]@ == "-march=native"@
}

/// The fixed compiler invocation for a supported language. An unsupported
/// language yields nothing: no sandbox call is to be made for it.
pub fn compile_config(language: &str, compiler_c: &str, compiler_cxx: &str) -> (r: Option<
    RunConfig,
>)
    ensures
        r is Some <==> (language@ == "c"@ || language@ == "cxx"@),
        r matches Some(c) ==> is_compile_config(c, language@, compiler_c@, compiler_cxx@),
{
    let exec_path: String;
    if str_eq(language, "c") {
        exec_path = String::from_str(compiler_c);
    } else if str_eq(language, "cxx") {
        exec_path = String::from_str(compiler_cxx);
    } else {
        return None;
    }
    let mut args: Vec<String> = Vec::new();
    args.push(String::from_str("/tmp/boardjudge/judge/code"));
    args.push(String::from_str("-o"));
    args.push(String::from_str("/tmp/boardjudge/judge/a.out"));
    args.push(String::from_str("-g"));
    args.push(String::from_str("-Wall"));
    args.push(String::from_str("-static-libgcc"));
    args.push(String::from_str("-fexec-charset=UTF-8"));
    args.push(String::from_str("-std=c++2b"));
    args.push(String::from_str("-march=native"));
    Some(
        RunConfig {
            time_limit: COMPILE_TIME_LIMIT,
            memory_limit: COMPILE_MEMORY_LIMIT,
            exec_path,
            input_path: String::from_str("/dev/null"),
            output_path: String::from_str("/dev/null"),
            env: Vec::new(),
            args,
        },
    )
}

/// The sandbox invocation of one test: the compiled binary under the
/// request's declared limits, reading the test's input file, writing the
/// scratch output file.
pub fn test_config(time_limit: u32, memory_limit: u32, input_path: String) -> (r: RunConfig)
    ensures
        r.time_limit == time_limit,
        r.memory_limit == memory_limit as u64,
        r.exec_path@ == "/tmp/boardjudge/judge/a.out"@,
        r.input_path@ == input_path@,
        r.output_path@ == "/tmp/boardjudge/judge/output"@,
        r.env@.len() == 0,
        r.args@.len() == 0,
{
    RunConfig {
        time_limit,
        memory_limit: memory_limit as u64,
        exec_path: String::from_str("/tmp/boardjudge/judge/a.out"),
        input_path,
        output_path: String::from_str("/tmp/boardjudge/judge/output"),
        env: Vec::new(),
        args: Vec::new(),
    }
}

/// The test-data directory of a problem under the judge root.
pub fn testdata_dir(root: &str, problem_id: &str) -> (r: String)
    ensures
        r@ == root@ + "/"@ + problem_id@ + "/testdata"@,
{
    String::from_str(root).concat("/").concat(problem_id).concat("/testdata")
}

/// One file of a problem's test data: the named test with the given suffix.
pub fn testdata_file(root: &str, problem_id: &str, name: &str, suffix: &str) -> (r: String)
    ensures
        r@ == root@ + "/"@ + problem_id@ + "/testdata/"@ + name@ + suffix@,
{
    String::from_str(root).concat("/").concat(problem_id).concat("/testdata/").concat(name).concat(
        suffix,
    )
}

} // verus!
