// The execution engine core: rendering, transcripts, verdicts, and the
// round trip between apply mode and check mode.

use sqlplannertest::apply::{
    generate_result, relative_test_name, require_tests_discovered, result_path, run_cases,
    run_test_file, summarize_outcomes, ApplyError, FileOutcome, PlannerTestApplyOptions,
};
use sqlplannertest::test_runner::{diff_lines, transcripts_match, DiffTag};
use sqlplannertest::{parse_test_cases, ParsedTestCase, PlannerTestRunner, TestCase};

fn parsed(id: Option<&str>, desc: Option<&str>, sql: &str, no_capture: bool) -> ParsedTestCase {
    ParsedTestCase {
        id: id.map(|s| s.to_string()),
        desc: desc.map(|s| s.to_string()),
        sql: sql.to_string(),
        before_sql: vec![],
        no_capture,
        tasks: vec![],
    }
}

struct ConstRunner;

impl PlannerTestRunner for ConstRunner {
    fn run(&mut self, _test_case: &ParsedTestCase) -> Result<String, String> {
        Ok("CONSTANT OUTPUT".to_string())
    }
}

struct SpyRunner {
    invocations: usize,
}

impl PlannerTestRunner for SpyRunner {
    fn run(&mut self, _test_case: &ParsedTestCase) -> Result<String, String> {
        self.invocations += 1;
        Ok("side effect".to_string())
    }
}

struct FailingRunner;

impl PlannerTestRunner for FailingRunner {
    fn run(&mut self, _test_case: &ParsedTestCase) -> Result<String, String> {
        Err("boom".to_string())
    }
}

#[test]
fn header_both_id_and_description() {
    let mut out = String::new();
    generate_result(&parsed(Some("q1"), Some("join test"), "SELECT 1;", false), &Ok("ok".to_string()), &mut out);
    assert_eq!(out, "-- q1: join test\nSELECT 1;\n/*\nok\n*/\n\n");
}

#[test]
fn header_only_id() {
    let mut out = String::new();
    generate_result(&parsed(Some("q1"), None, "SELECT 1;", false), &Ok("ok".to_string()), &mut out);
    assert_eq!(out, "-- q1\nSELECT 1;\n/*\nok\n*/\n\n");
}

#[test]
fn header_only_description() {
    let mut out = String::new();
    generate_result(&parsed(None, Some("a test"), "SELECT 1;", false), &Ok("ok".to_string()), &mut out);
    assert_eq!(out, "-- a test\nSELECT 1;\n/*\nok\n*/\n\n");
}

#[test]
fn header_placeholder_without_id_or_description() {
    let mut out = String::new();
    generate_result(&parsed(None, None, "SELECT 1;", false), &Ok("ok".to_string()), &mut out);
    assert_eq!(out, "-- (no id or description)\nSELECT 1;\n/*\nok\n*/\n\n");
}

#[test]
fn success_output_is_trimmed_at_the_end() {
    let mut out = String::new();
    generate_result(
        &parsed(Some("t"), None, "SELECT 1;", false),
        &Ok("plan line  \n\t\n".to_string()),
        &mut out,
    );
    assert_eq!(out, "-- t\nSELECT 1;\n/*\nplan line\n*/\n\n");
}

#[test]
fn runner_failure_is_rendered_as_error_block() {
    let mut out = String::new();
    generate_result(
        &parsed(Some("t"), None, "SELECT 1;", false),
        &Err("something broke".to_string()),
        &mut out,
    );
    assert_eq!(out, "-- t\nSELECT 1;\n/*\nError\nsomething broke\n*/\n\n");
}

#[test]
fn run_cases_continues_after_a_failed_case() {
    let cases = vec![parsed(Some("a"), None, "S1", false), parsed(Some("b"), None, "S2", false)];
    let mut runner = FailingRunner;
    let (transcript, results) = run_cases(&mut runner, &cases);
    assert_eq!(results.len(), 2);
    assert!(results.iter().all(|r| r.is_err()));
    assert_eq!(
        transcript,
        "-- a\nS1\n/*\nError\nboom\n*/\n\n-- b\nS2\n/*\nError\nboom\n*/\n\n"
    );
}

#[test]
fn no_capture_case_is_invisible_but_still_run() {
    let cases = vec![
        parsed(Some("setup"), None, "CREATE TABLE t(v int);", true),
        parsed(Some("q"), None, "SELECT v FROM t;", false),
    ];
    let mut spy = SpyRunner { invocations: 0 };
    let (transcript, results) = run_cases(&mut spy, &cases);
    assert_eq!(spy.invocations, 2);
    assert_eq!(results.len(), 2);
    assert!(!transcript.contains("setup"));
    assert!(transcript.contains("-- q"));
}

#[test]
fn all_no_capture_gives_empty_transcript() {
    let cases = vec![parsed(None, None, "A", true), parsed(None, None, "B", true)];
    let mut spy = SpyRunner { invocations: 0 };
    let (transcript, _) = run_cases(&mut spy, &cases);
    assert_eq!(spy.invocations, 2);
    assert_eq!(transcript, "");
}

#[test]
fn apply_then_check_round_trip_passes() {
    let raw = vec![
        TestCase {
            id: Some("one".to_string()),
            desc: None,
            sql: "SELECT 1;".to_string(),
            before: None,
            no_capture: None,
            tasks: None,
        },
        TestCase {
            id: None,
            desc: Some("second".to_string()),
            sql: "SELECT 2;".to_string(),
            before: Some(vec!["*one".to_string()]),
            no_capture: None,
            tasks: None,
        },
    ];
    // Apply mode: generate and "store" the expectation.
    let cases = parse_test_cases(&String::new(), raw.clone(), &vec![]).unwrap();
    let mut runner = ConstRunner;
    let (stored, _) = run_cases(&mut runner, &cases);
    // Check mode: regenerate with the same runner and diff.
    let cases = parse_test_cases(&String::new(), raw, &vec![]).unwrap();
    let mut runner = ConstRunner;
    let (fresh, _) = run_cases(&mut runner, &cases);
    assert!(transcripts_match(&fresh, &stored));
    let diff = diff_lines(&fresh, &stored);
    assert!(diff.iter().all(|c| c.tag == DiffTag::Equal));
}

#[test]
fn apply_twice_is_byte_identical() {
    let raw = vec![TestCase {
        id: Some("q".to_string()),
        desc: None,
        sql: "SELECT 1;".to_string(),
        before: None,
        no_capture: None,
        tasks: None,
    }];
    let first = {
        let cases = parse_test_cases(&String::new(), raw.clone(), &vec![]).unwrap();
        run_cases(&mut ConstRunner, &cases).0
    };
    let second = {
        let cases = parse_test_cases(&String::new(), raw, &vec![]).unwrap();
        run_cases(&mut ConstRunner, &cases).0
    };
    assert_eq!(first, second);
}

#[test]
fn mismatch_is_detected_even_for_trailing_whitespace() {
    let generated = "-- q\nSELECT 1;\n/*\nok\n*/\n\n".to_string();
    let expected = "-- q\nSELECT 1;\n/*\nok\n*/\n \n".to_string();
    assert!(!transcripts_match(&generated, &expected));
    let diff = diff_lines(&generated, &expected);
    assert!(diff.iter().any(|c| c.tag != DiffTag::Equal));
}

#[test]
fn run_test_file_resolves_and_runs_in_one_pass() {
    let raw = vec![
        TestCase {
            id: Some("setup".to_string()),
            desc: None,
            sql: "CREATE TABLE t(v int);".to_string(),
            before: None,
            no_capture: None,
            tasks: None,
        },
        TestCase {
            id: None,
            desc: None,
            sql: "SELECT v FROM t;".to_string(),
            before: Some(vec!["*setup".to_string()]),
            no_capture: None,
            tasks: None,
        },
    ];
    let (transcript, results) =
        run_test_file(&String::new(), raw, &vec![], &mut ConstRunner).unwrap();
    assert_eq!(results.len(), 2);
    assert!(transcript.contains("-- setup"));
    assert!(transcript.contains("CONSTANT OUTPUT"));
}

#[test]
fn run_test_file_fails_before_running_on_a_bad_reference() {
    let raw = vec![TestCase {
        id: None,
        desc: None,
        sql: "SELECT 1;".to_string(),
        before: Some(vec!["*ghost".to_string()]),
        no_capture: None,
        tasks: None,
    }];
    let mut spy = SpyRunner { invocations: 0 };
    let err = run_test_file(&String::new(), raw, &vec![], &mut spy).unwrap_err();
    assert!(err.is_not_found());
    assert_eq!(spy.invocations, 0);
}

#[test]
fn zero_discovered_files_is_a_failure() {
    let outcomes: Vec<FileOutcome> = vec![];
    let verdict = summarize_outcomes(&outcomes);
    match verdict {
        Err(ApplyError::NoTestDiscovered) => {}
        _ => panic!("an empty run must fail"),
    }
    assert_eq!(ApplyError::NoTestDiscovered.message(), "no test discovered");
}

#[test]
fn zero_discovered_files_fails_in_either_mode() {
    match require_tests_discovered(0) {
        Err(ApplyError::NoTestDiscovered) => {}
        _ => panic!("a run that found nothing must fail"),
    }
    assert!(require_tests_discovered(3).is_ok());
}

#[test]
fn failed_files_are_all_named_in_the_verdict() {
    let outcomes = vec![
        FileOutcome { testname: "a.yml".to_string(), outcome: Ok(12) },
        FileOutcome { testname: "b.yml".to_string(), outcome: Err("boom".to_string()) },
        FileOutcome { testname: "c.yml".to_string(), outcome: Err("crash".to_string()) },
    ];
    match summarize_outcomes(&outcomes) {
        Err(ApplyError::FailedCases(names)) => {
            assert_eq!(names, vec!["b.yml".to_string(), "c.yml".to_string()]);
        }
        _ => panic!("a run with failures must fail"),
    }
    assert_eq!(
        ApplyError::FailedCases(vec!["b.yml".to_string()]).message(),
        "Cannot apply planner test"
    );
}

#[test]
fn all_files_passing_gives_success() {
    let outcomes = vec![
        FileOutcome { testname: "a.yml".to_string(), outcome: Ok(3) },
        FileOutcome { testname: "b.yml".to_string(), outcome: Ok(4) },
    ];
    assert!(summarize_outcomes(&outcomes).is_ok());
}

#[test]
fn verdict_does_not_depend_on_completion_order() {
    let forward = vec![
        FileOutcome { testname: "a.yml".to_string(), outcome: Ok(1) },
        FileOutcome { testname: "b.yml".to_string(), outcome: Err("x".to_string()) },
    ];
    let backward = vec![
        FileOutcome { testname: "b.yml".to_string(), outcome: Err("x".to_string()) },
        FileOutcome { testname: "a.yml".to_string(), outcome: Ok(1) },
    ];
    assert_eq!(summarize_outcomes(&forward).is_ok(), summarize_outcomes(&backward).is_ok());
    let ok1 = vec![FileOutcome { testname: "a.yml".to_string(), outcome: Ok(1) }];
    let ok2 = vec![FileOutcome { testname: "a.yml".to_string(), outcome: Ok(99) }];
    assert_eq!(summarize_outcomes(&ok1).is_ok(), summarize_outcomes(&ok2).is_ok());
}

#[test]
fn serial_and_concurrent_schedules_agree_per_file() {
    // Each file's transcript is a function of that file's cases and its
    // own runner; running the two files in either order gives the same
    // per-file transcripts.
    let file_a = vec![parsed(Some("a"), None, "SELECT a;", false)];
    let file_b = vec![parsed(Some("b"), None, "SELECT b;", false)];
    let (ta1, _) = run_cases(&mut ConstRunner, &file_a);
    let (tb1, _) = run_cases(&mut ConstRunner, &file_b);
    let (tb2, _) = run_cases(&mut ConstRunner, &file_b);
    let (ta2, _) = run_cases(&mut ConstRunner, &file_a);
    assert_eq!(ta1, ta2);
    assert_eq!(tb1, tb2);
}

#[test]
fn default_options_run_everything_concurrently() {
    let options = PlannerTestApplyOptions::default();
    assert!(!options.serial);
    assert!(options.selections.is_empty());
}

#[test]
fn result_path_replaces_the_test_suffix() {
    assert_eq!(result_path(&"tests/join.yml".to_string()), "tests/join.planner.sql");
    assert_eq!(result_path(&"a/b.c.yml".to_string()), "a/b.c.planner.sql");
    let p = "tests/join.yml".to_string();
    assert_ne!(result_path(&p), p);
}

#[test]
fn relative_test_name_strips_the_scan_root() {
    assert_eq!(
        relative_test_name(&"tests".to_string(), &"tests/sub/a.yml".to_string()),
        Some("sub/a.yml".to_string())
    );
    assert_eq!(
        relative_test_name(&"tests/".to_string(), &"tests/a.yml".to_string()),
        Some("a.yml".to_string())
    );
    assert_eq!(
        relative_test_name(&String::new(), &"a.yml".to_string()),
        Some("a.yml".to_string())
    );
    assert_eq!(relative_test_name(&"other".to_string(), &"tests/a.yml".to_string()), None);
}
