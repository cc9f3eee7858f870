use boardjudge::judger::run::check_config;
use boardjudge::judger::run::classify;
use boardjudge::judger::run::compile_config;
use boardjudge::judger::run::language_supported;
use boardjudge::judger::run::test_config;
use boardjudge::judger::run::testdata_dir;
use boardjudge::judger::run::testdata_file;
use boardjudge::judger::run::RawOutcome;
use boardjudge::judger::run::RunConfig;
use boardjudge::judger::run::RunError;
use boardjudge::judger::run::RunStatus;

fn raw(result: i32) -> RawOutcome {
    RawOutcome {
        cpu_time: 7,
        real_time: 12,
        memory: 4096,
        signal: 0,
        exit_code: 3,
        error: 0,
        result,
    }
}

fn plain_config() -> RunConfig {
    RunConfig {
        time_limit: 1000,
        memory_limit: 1 << 20,
        exec_path: "/bin/true".to_string(),
        input_path: "/dev/null".to_string(),
        output_path: "/dev/null".to_string(),
        env: Vec::new(),
        args: Vec::new(),
    }
}

#[test]
fn outcome_codes_name_the_termination_kinds() {
    assert!(matches!(
        classify(&raw(0)),
        Ok(s) if s.status == RunStatus::Success && s.time == 12 && s.memory == 4096 && s.code == 3
    ));
    assert!(matches!(classify(&raw(1)), Ok(s) if s.status == RunStatus::TimeLimitExceeded));
    assert!(matches!(classify(&raw(2)), Ok(s) if s.status == RunStatus::TimeLimitExceeded));
    assert!(matches!(classify(&raw(3)), Ok(s) if s.status == RunStatus::MemoryLimitExceeded));
    assert!(matches!(classify(&raw(4)), Ok(s) if s.status == RunStatus::RuntimeError));
}

#[test]
fn unknown_outcome_codes_are_internal_errors() {
    assert!(matches!(classify(&raw(5)), Err(RunError::Internal)));
    assert!(matches!(classify(&raw(-1)), Err(RunError::Internal)));
}

#[test]
fn the_error_flag_overrides_everything() {
    let mut r = raw(0);
    r.error = 1;
    assert!(matches!(classify(&r), Err(RunError::Internal)));
}

#[test]
fn a_plain_configuration_is_accepted() {
    assert!(check_config(&plain_config()).is_ok());
}

#[test]
fn an_embedded_nul_is_a_configuration_error() {
    let mut c = plain_config();
    c.exec_path = "/bin/\0true".to_string();
    assert!(matches!(check_config(&c), Err(RunError::Internal)));
    let mut c = plain_config();
    c.args = vec!["-\0x".to_string()];
    assert!(matches!(check_config(&c), Err(RunError::Internal)));
}

#[test]
fn an_overfull_vector_is_a_configuration_error_not_a_truncation() {
    let mut c = plain_config();
    c.args = (0..257).map(|i| format!("arg{}", i)).collect();
    assert!(matches!(check_config(&c), Err(RunError::Internal)));
    let mut c = plain_config();
    c.args = (0..256).map(|i| format!("arg{}", i)).collect();
    assert!(check_config(&c).is_ok());
}

#[test]
fn the_two_fixed_languages_are_supported() {
    assert!(language_supported("c"));
    assert!(language_supported("cxx"));
    assert!(!language_supported("java"));
    assert!(!language_supported(""));
}

#[test]
fn the_compiler_invocation_is_fixed() {
    let c = compile_config("cxx", "/usr/bin/gcc", "/usr/bin/g++").unwrap();
    assert_eq!(c.time_limit, 10000);
    assert_eq!(c.memory_limit, 256 << 20);
    assert_eq!(c.exec_path, "/usr/bin/g++");
    assert_eq!(c.input_path, "/dev/null");
    assert_eq!(c.output_path, "/dev/null");
    assert!(c.env.is_empty());
    assert_eq!(
        c.args,
        vec![
            "/tmp/boardjudge/judge/code",
            "-o",
            "/tmp/boardjudge/judge/a.out",
            "-g",
            "-Wall",
            "-static-libgcc",
            "-fexec-charset=UTF-8",
            "-std=c++2b",
            "-march=native",
        ]
    );
    let c = compile_config("c", "/usr/bin/gcc", "/usr/bin/g++").unwrap();
    assert_eq!(c.exec_path, "/usr/bin/gcc");
}

#[test]
fn an_unsupported_language_gets_no_invocation() {
    assert!(compile_config("java", "/usr/bin/gcc", "/usr/bin/g++").is_none());
}

#[test]
fn the_test_invocation_uses_the_declared_limits() {
    let c = test_config(2000, 1 << 26, "/data/p/testdata/a.in".to_string());
    assert_eq!(c.time_limit, 2000);
    assert_eq!(c.memory_limit, 1 << 26);
    assert_eq!(c.exec_path, "/tmp/boardjudge/judge/a.out");
    assert_eq!(c.input_path, "/data/p/testdata/a.in");
    assert_eq!(c.output_path, "/tmp/boardjudge/judge/output");
    assert!(c.env.is_empty());
    assert!(c.args.is_empty());
}

#[test]
fn testdata_paths_are_assembled_from_their_parts() {
    assert_eq!(testdata_dir("/data", "p1"), "/data/p1/testdata");
    assert_eq!(testdata_file("/data", "p1", "a", ".in"), "/data/p1/testdata/a.in");
    assert_eq!(testdata_file("/data", "p1", "a", ".out"), "/data/p1/testdata/a.out");
}
