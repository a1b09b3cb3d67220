// Pattern building and discovery, plus the diff renderer and the
// demonstration runner.

use sqlplannertest::discover::{discover_tests, discover_tests_with_selections, mk_patterns};
use sqlplannertest::naivedb::NaiveDb;
use sqlplannertest::test_runner::{
    check_test_name, render_diff_line, render_line_number, DiffChange, DiffTag,
};
use sqlplannertest::{ParsedTestCase, PlannerTestRunner};

#[test]
fn empty_selection_selects_all_tests() {
    let patterns = mk_patterns(&"tests".to_string(), &vec![]);
    assert_eq!(patterns, vec!["tests/**/[!_]*.yml".to_string()]);
}

#[test]
fn each_selection_gives_a_file_and_a_module_pattern() {
    let patterns = mk_patterns(
        &"tests".to_string(),
        &vec!["tpch::q1".to_string(), "basic".to_string()],
    );
    assert_eq!(
        patterns,
        vec![
            "tests/**/tpch/q1.yml".to_string(),
            "tests/tpch/q1/**/[!_]*.yml".to_string(),
            "tests/**/basic.yml".to_string(),
            "tests/basic/**/[!_]*.yml".to_string(),
        ]
    );
}

#[test]
fn root_with_trailing_separator_is_not_doubled() {
    let patterns = mk_patterns(&"tests/".to_string(), &vec![]);
    assert_eq!(patterns, vec!["tests/**/[!_]*.yml".to_string()]);
}

#[test]
fn invalid_pattern_aborts_discovery() {
    let r = discover_tests(&"tests***".to_string());
    assert_eq!(r.unwrap_err(), "input pattern is invalid");
}

#[test]
fn discovery_with_no_matches_is_empty_not_an_error() {
    let r = discover_tests_with_selections(
        &"no_such_directory_anywhere".to_string(),
        &vec!["nothing".to_string()],
    );
    assert_eq!(r.unwrap(), vec![]);
}

#[test]
fn line_labels_are_one_based_and_four_columns() {
    assert_eq!(render_line_number(None), "    ");
    assert_eq!(render_line_number(Some(0)), "1   ");
    assert_eq!(render_line_number(Some(9)), "10  ");
    assert_eq!(render_line_number(Some(99)), "100 ");
    assert_eq!(render_line_number(Some(999)), "1000");
    assert_eq!(render_line_number(Some(9999)), "10000");
}

#[test]
fn diff_lines_are_rendered_with_labels_and_sign() {
    let change = DiffChange {
        tag: DiffTag::Delete,
        old_index: Some(2),
        new_index: None,
        text: "gone line\n".to_string(),
    };
    assert_eq!(render_diff_line(&change), "3        -gone line\n");
    let change = DiffChange {
        tag: DiffTag::Equal,
        old_index: Some(0),
        new_index: Some(0),
        text: "same\n".to_string(),
    };
    assert_eq!(render_diff_line(&change), "1   1     same\n");
    let change = DiffChange {
        tag: DiffTag::Insert,
        old_index: None,
        new_index: Some(4),
        text: "new line\n".to_string(),
    };
    assert_eq!(render_diff_line(&change), "    5    +new line\n");
}

#[test]
fn check_test_name_strips_suffix_and_path_separators() {
    assert_eq!(check_test_name(&"basic.yml".to_string()), Some("basic".to_string()));
    assert_eq!(check_test_name(&"tpch/q1.yml".to_string()), Some("tpch_q1".to_string()));
    assert_eq!(check_test_name(&"readme.md".to_string()), None);
}

#[test]
fn naive_db_echoes_one_block_per_task() {
    let mut db = NaiveDb::new();
    let tc = ParsedTestCase {
        id: Some("q".to_string()),
        desc: None,
        sql: "SELECT 1;".to_string(),
        before_sql: vec!["CREATE TABLE t(v int);".to_string()],
        no_capture: false,
        tasks: vec!["logical".to_string(), "physical".to_string()],
    };
    let got = db.run(&tc).unwrap();
    let want = "=== logical\nI'm a naive db, so I don't now how to process\nCREATE TABLE t(v int);\nSELECT 1;\n\n\
                === physical\nI'm a naive db, so I don't now how to process\nCREATE TABLE t(v int);\nSELECT 1;\n\n";
    assert_eq!(got, want);
}

#[test]
fn naive_db_without_tasks_answers_nothing() {
    let mut db = NaiveDb::default();
    let tc = ParsedTestCase {
        id: None,
        desc: None,
        sql: "SELECT 1;".to_string(),
        before_sql: vec![],
        no_capture: false,
        tasks: vec![],
    };
    assert_eq!(db.run(&tc).unwrap(), "");
}

#[test]
fn naive_db_fails_on_error_marker() {
    let mut db = NaiveDb::new();
    let tc = ParsedTestCase {
        id: None,
        desc: None,
        sql: "SELECT ERROR;".to_string(),
        before_sql: vec![],
        no_capture: false,
        tasks: vec![],
    };
    assert_eq!(db.run(&tc).unwrap_err(), "Ooops, error!");
    let tc = ParsedTestCase {
        id: None,
        desc: None,
        sql: "SELECT PANIC;".to_string(),
        before_sql: vec![],
        no_capture: false,
        tasks: vec![],
    };
    assert_eq!(db.run(&tc).unwrap_err(), "I'm panic!");
}
