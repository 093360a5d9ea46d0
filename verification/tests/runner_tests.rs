use usaco_cli::preferences::{CPPCompiler, Language};
use usaco_cli::problem::{IoMode, ReleasedProblemData, TestCase};
use usaco_cli::runner::{
    artifact_fresh, cleanup_files, compile_args, compiler_program, effective_time_limit,
    interpreter_candidates, judge_case, plan_case_io, probe_decision, resolve_case_source,
    CaseOutcome, CaseSource, CaseVerdict, ProbeOutcome, ProbeStep, RunPhase, RunSession,
    TestError,
};

#[test]
fn staleness_check_needs_both_files() {
    assert!(!artifact_fresh(None, None));
    assert!(!artifact_fresh(Some(5), None));
    assert!(!artifact_fresh(None, Some(5)));
}

#[test]
fn staleness_check_wants_strictly_newer_artifact() {
    assert!(artifact_fresh(Some(5), Some(6)));
    assert!(!artifact_fresh(Some(5), Some(5)));
    assert!(!artifact_fresh(Some(6), Some(5)));
}

#[test]
fn staleness_check_is_idempotent() {
    for (s, a) in [(Some(3u64), Some(9u64)), (Some(9), Some(3)), (None, Some(1))] {
        let first = artifact_fresh(s, a);
        let again = artifact_fresh(s, a);
        assert_eq!(first, again);
    }
}

#[test]
fn compile_command_has_standard_flags() {
    assert_eq!(compiler_program(CPPCompiler::GCC), "g++");
    assert_eq!(compiler_program(CPPCompiler::Clang), "clang");
    let args = compile_args("bin/bronze/123", "src/bronze/123.cpp");
    assert_eq!(args, vec!["-Wall", "-g", "-o", "bin/bronze/123", "src/bronze/123.cpp"]);
}

#[test]
fn interpreter_probing_order_and_decisions() {
    assert_eq!(interpreter_candidates(), ["python3", "python2", "python", "py3", "py"]);
    assert_eq!(probe_decision(&ProbeOutcome::Launched), ProbeStep::UseCandidate);
    assert_eq!(probe_decision(&ProbeOutcome::Missing), ProbeStep::TryNext);
    assert_eq!(probe_decision(&ProbeOutcome::Failed), ProbeStep::Abort);
}

#[test]
fn time_limit_defaults_differ_by_toolchain() {
    assert_eq!(effective_time_limit(None, Language::CPP), None);
    assert_eq!(effective_time_limit(Some(-1), Language::CPP), Some(2));
    assert_eq!(effective_time_limit(Some(-1), Language::Python), Some(4));
    assert_eq!(effective_time_limit(Some(7), Language::Python), Some(7));
    assert_eq!(effective_time_limit(Some(-3), Language::CPP), Some(2));
}

#[test]
fn stdio_case_passes_for_matching_output() {
    // problem with stdio input and output; a solution that squares its
    // input turns "3\n" into "9\n" and passes
    let plan = plan_case_io(&IoMode::Stdio, &IoMode::Stdio, "3\n");
    assert!(plan.file_to_write.is_none());
    assert_eq!(plan.stdin_data.as_deref(), Some("3\n"));
    assert!(plan.file_to_read.is_none());

    let mut run = RunSession::start(true);
    assert_eq!(run.current_phase(), RunPhase::Compiling);
    run.on_compile_result(true);
    assert_eq!(run.current_phase(), RunPhase::AwaitingCases);
    run.on_cases(vec![TestCase { input: "3\n".to_string(), output: "9\n".to_string() }]);
    assert_eq!(run.current_phase(), RunPhase::RunningCases);
    assert_eq!(run.current_case().unwrap().input, "3\n");
    run.on_case_outcome(&CaseOutcome::Completed { output: "9\n".to_string() });
    assert_eq!(run.verdict_list(), &vec![CaseVerdict::Passed]);
    assert_eq!(run.current_phase(), RunPhase::CleaningUp);
    run.on_cleanup_done();
    assert_eq!(run.current_phase(), RunPhase::Done);
}

#[test]
fn file_mode_case_wires_files_and_cleans_them_up() {
    let input = IoMode::File("a.in".to_string());
    let output = IoMode::File("a.out".to_string());
    // a.in is written before the spawn, a.out read after exit
    let plan = plan_case_io(&input, &output, "3 4\n");
    assert_eq!(plan.file_to_write, Some(("a.in".to_string(), "3 4\n".to_string())));
    assert!(plan.stdin_data.is_none());
    assert_eq!(plan.file_to_read.as_deref(), Some("a.out"));
    // and both are deleted afterwards
    assert_eq!(cleanup_files(&input, &output), vec!["a.in", "a.out"]);
    assert_eq!(cleanup_files(&IoMode::Stdio, &IoMode::Stdio), Vec::<String>::new());
}

#[test]
fn timed_out_case_is_reported_and_run_continues() {
    let mut run = RunSession::start(false);
    run.on_cases(vec![
        TestCase { input: "1\n".to_string(), output: "1\n".to_string() },
        TestCase { input: "2\n".to_string(), output: "4\n".to_string() },
    ]);
    // case 1 never exits within its limit: reported as timed out, and
    // the runner proceeds to case 2 rather than hanging
    run.on_case_outcome(&CaseOutcome::TimedOut);
    assert_eq!(run.current_phase(), RunPhase::RunningCases);
    assert_eq!(run.current_case().unwrap().input, "2\n");
    run.on_case_outcome(&CaseOutcome::Completed { output: "4\n".to_string() });
    assert_eq!(run.verdict_list(), &vec![CaseVerdict::TimedOut, CaseVerdict::Passed]);
    assert_eq!(run.current_phase(), RunPhase::CleaningUp);
}

#[test]
fn failed_compilation_aborts_before_any_case() {
    let mut run = RunSession::start(true);
    run.on_compile_result(false);
    assert_eq!(run.current_phase(), RunPhase::Failed(TestError::CompilationFailed));
    assert!(run.verdict_list().is_empty());
    assert!(run.current_case().is_none());
}

#[test]
fn wrong_output_fails_the_case() {
    let verdict = judge_case("9\n", &CaseOutcome::Completed { output: "8\n".to_string() });
    assert_eq!(verdict, CaseVerdict::Failed);
    let verdict = judge_case("9\n", &CaseOutcome::Completed { output: " 9 \n".to_string() });
    assert_eq!(verdict, CaseVerdict::Passed);
    assert_eq!(judge_case("9\n", &CaseOutcome::TimedOut), CaseVerdict::TimedOut);
}

#[test]
fn case_source_resolution() {
    let released = Some(ReleasedProblemData {
        writeup: "w".to_string(),
        writeup_url: "https://example.org/writeup".to_string(),
        official_test_case_url: "https://example.org/data.zip".to_string(),
    });
    assert!(matches!(resolve_case_source(false, &released), CaseSource::Sample));
    match resolve_case_source(true, &released) {
        CaseSource::FetchOfficial(url) => assert_eq!(url, "https://example.org/data.zip"),
        other => panic!("unexpected source: {:?}", other),
    }
    assert!(matches!(resolve_case_source(true, &None), CaseSource::Unavailable));
}

#[test]
fn empty_case_set_goes_straight_to_cleanup() {
    let mut run = RunSession::start(false);
    run.on_cases(Vec::new());
    assert_eq!(run.current_phase(), RunPhase::CleaningUp);
    assert!(run.verdict_list().is_empty());
}

#[test]
fn unreleased_official_data_is_fatal() {
    let mut run = RunSession::start(false);
    run.on_cases_unavailable();
    assert_eq!(run.current_phase(), RunPhase::Failed(TestError::OfficialDataUnavailable));
}
