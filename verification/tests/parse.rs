// Parsing and reference resolution, exercised through the public API.

use sqlplannertest::resolve::{collect_include_paths, ResolveError};
use sqlplannertest::{parse_test_cases, TestCase};

fn case(
    id: Option<&str>,
    desc: Option<&str>,
    sql: &str,
    before: Option<Vec<&str>>,
    no_capture: Option<bool>,
    tasks: Option<Vec<&str>>,
) -> TestCase {
    TestCase {
        id: id.map(|s| s.to_string()),
        desc: desc.map(|s| s.to_string()),
        sql: sql.to_string(),
        before: before.map(|v| v.into_iter().map(|s| s.to_string()).collect()),
        no_capture,
        tasks: tasks.map(|v| v.into_iter().map(|s| s.to_string()).collect()),
    }
}

#[test]
fn test_parse_planner_test() {
    let test_case = vec![
        case(Some("sql1"), None, "CREATE TABLE t1(v1 int);\n", None, None, None),
        case(Some("sql2"), None, "CREATE TABLE t2(v2 int);\n", None, None, None),
        case(
            None,
            Some("Test whether join works correctly."),
            "SELECT * FROM t1, t2 WHERE t1.v1 = t2.v2;\n",
            Some(vec!["*sql1", "*sql2", "CREATE TABLE t3(v3 int);"]),
            None,
            Some(vec!["logical", "physical"]),
        ),
    ];
    let test_case = parse_test_cases(&String::new(), test_case, &vec![]).unwrap();
    assert_eq!(test_case.len(), 3);
    assert_eq!(test_case[2].before_sql.len(), 3);
    assert_eq!(
        test_case[2].before_sql[0].trim(),
        "CREATE TABLE t1(v1 int);"
    );
}

#[test]
fn no_references_resolution_is_noop() {
    let raw = vec![
        case(Some("a"), Some("first"), "BODY ONE", Some(vec!["literal text"]), None, None),
        case(None, None, "BODY TWO", None, Some(true), Some(vec!["task"])),
    ];
    let parsed = parse_test_cases(&String::new(), raw, &vec![]).unwrap();
    assert_eq!(parsed.len(), 2);
    assert_eq!(parsed[0].sql, "BODY ONE");
    assert_eq!(parsed[0].before_sql, vec!["literal text".to_string()]);
    assert_eq!(parsed[0].id.as_deref(), Some("a"));
    assert_eq!(parsed[0].desc.as_deref(), Some("first"));
    assert!(!parsed[0].no_capture);
    assert!(parsed[0].tasks.is_empty());
    assert_eq!(parsed[1].sql, "BODY TWO");
    assert!(parsed[1].before_sql.is_empty());
    assert!(parsed[1].no_capture);
    assert_eq!(parsed[1].tasks, vec!["task".to_string()]);
}

#[test]
fn back_reference_resolves_to_exact_body() {
    let raw = vec![
        case(Some("x"), None, "CREATE TABLE a(x int);", None, None, None),
        case(None, None, "SELECT 1;", Some(vec!["*x"]), None, None),
    ];
    let parsed = parse_test_cases(&String::new(), raw, &vec![]).unwrap();
    assert_eq!(parsed[1].before_sql, vec!["CREATE TABLE a(x int);".to_string()]);
}

#[test]
fn forward_reference_is_allowed() {
    let raw = vec![
        case(None, None, "SELECT 1;", Some(vec!["*later"]), None, None),
        case(Some("later"), None, "CREATE TABLE z(v int);", None, None, None),
    ];
    let parsed = parse_test_cases(&String::new(), raw, &vec![]).unwrap();
    assert_eq!(parsed[0].before_sql, vec!["CREATE TABLE z(v int);".to_string()]);
}

#[test]
fn duplicate_id_last_declaration_wins() {
    let raw = vec![
        case(Some("d"), None, "FIRST", None, None, None),
        case(Some("d"), None, "SECOND", None, None, None),
        case(None, None, "SELECT 1;", Some(vec!["*d"]), None, None),
    ];
    let parsed = parse_test_cases(&String::new(), raw, &vec![]).unwrap();
    assert_eq!(parsed[2].before_sql, vec!["SECOND".to_string()]);
}

#[test]
fn missing_back_reference_fails_naming_the_id() {
    let raw = vec![
        case(None, None, "S1", None, None, None),
        case(None, None, "S2", Some(vec!["*missing"]), None, None),
    ];
    let err = parse_test_cases(&String::new(), raw, &vec![]).unwrap_err();
    assert!(err.is_not_found());
    let message = err.message();
    assert_eq!(message, "failed to resolve missing: not found");
    assert!(message.contains("missing"));
}

#[test]
fn inclusion_resolves_to_exact_file_contents() {
    let raw = vec![case(None, None, "SELECT 1;", Some(vec!["include_sql:frag.sql"]), None, None)];
    let base = "suite/dir".to_string();
    let wanted = collect_include_paths(&base, &raw);
    assert_eq!(wanted, vec!["suite/dir/frag.sql".to_string()]);
    let files = vec![("suite/dir/frag.sql".to_string(), "CREATE TABLE inc(v int);\n".to_string())];
    let parsed = parse_test_cases(&base, raw, &files).unwrap();
    assert_eq!(parsed[0].before_sql, vec!["CREATE TABLE inc(v int);\n".to_string()]);
}

#[test]
fn missing_inclusion_fails_naming_the_path() {
    let raw = vec![case(None, None, "SELECT 1;", Some(vec!["include_sql:gone.sql"]), None, None)];
    let err = parse_test_cases(&"dir".to_string(), raw, &vec![]).unwrap_err();
    assert!(!err.is_not_found());
    assert_eq!(err.message(), "failed to read: gone.sql");
}

#[test]
fn resolution_failure_is_atomic_for_the_file() {
    let raw = vec![
        case(Some("ok"), None, "FINE", None, None, None),
        case(None, None, "ALSO FINE", Some(vec!["*ok", "*nope"]), None, None),
        case(None, None, "NEVER REACHED", None, None, None),
    ];
    let r = parse_test_cases(&String::new(), raw, &vec![]);
    assert!(r.is_err());
    match r {
        Err(ResolveError::NotFound(id)) => assert_eq!(id, "nope"),
        _ => panic!("expected an unresolved back-reference"),
    }
}

#[test]
fn collect_include_paths_keeps_entry_order() {
    let raw = vec![
        case(None, None, "A", Some(vec!["include_sql:one.sql", "*x", "include_sql:two.sql"]), None, None),
        case(Some("x"), None, "B", Some(vec!["plain"]), None, None),
        case(None, None, "C", Some(vec!["include_sql:three.sql"]), None, None),
    ];
    let got = collect_include_paths(&"root".to_string(), &raw);
    assert_eq!(
        got,
        vec![
            "root/one.sql".to_string(),
            "root/two.sql".to_string(),
            "root/three.sql".to_string(),
        ]
    );
}
