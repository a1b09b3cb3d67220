//! A golden-file test harness for query-planner style test suites: it
//! discovers declarative test-case files, resolves cross-references
//! between cases, drives a pluggable runner over each case in file
//! order, and renders the outcome into a transcript that is either
//! written as the stored expectation or held against it.

use vstd::prelude::*;

pub mod apply;
pub mod discover;
pub mod naivedb;
pub mod resolve;
pub mod test_runner;
pub mod text;

pub use apply::{generate_result, run_cases, PlannerTestApplyOptions};
pub use discover::{discover_tests, discover_tests_with_selections};
pub use resolve::resolve_testcase_id;

verus! {

/// A test-case record as stored on disk.
#[derive(Clone, Debug)]
pub struct TestCase {
    pub id: Option<String>,
    pub desc: Option<String>,
    pub sql: String,
    pub before: Option<Vec<String>>,
    pub no_capture: Option<bool>,
    pub tasks: Option<Vec<String>>,
}

/// The mathematical value of a `TestCase`.
#[verifier::ext_equal]
pub struct TestCaseV {
    pub id: Option<Seq<char>>,
    pub desc: Option<Seq<char>>,
    pub sql: Seq<char>,
    pub before: Option<Seq<Seq<char>>>,
    pub no_capture: Option<bool>,
    pub tasks: Option<Seq<Seq<char>>>,
}

impl DeepView for TestCase {
    type V = TestCaseV;

    open spec fn deep_view(&self) -> TestCaseV {
        TestCaseV {
            id: self.id.deep_view(),
            desc: self.desc.deep_view(),
            sql: self.sql.deep_view(),
            before: self.before.deep_view(),
            no_capture: self.no_capture,
            tasks: self.tasks.deep_view(),
        }
    }
}

/// A test case whose "before" references have all been resolved to text.
#[derive(Clone, Debug)]
pub struct ParsedTestCase {
    pub id: Option<String>,
    pub desc: Option<String>,
    pub sql: String,
    pub before_sql: Vec<String>,
    pub no_capture: bool,
    pub tasks: Vec<String>,
}

/// The mathematical value of a `ParsedTestCase`.
#[verifier::ext_equal]
pub struct ParsedTestCaseV {
    pub id: Option<Seq<char>>,
    pub desc: Option<Seq<char>>,
    pub sql: Seq<char>,
    pub before_sql: Seq<Seq<char>>,
    pub no_capture: bool,
    pub tasks: Seq<Seq<char>>,
}

impl DeepView for ParsedTestCase {
    type V = ParsedTestCaseV;

    open spec fn deep_view(&self) -> ParsedTestCaseV {
        ParsedTestCaseV {
            id: self.id.deep_view(),
            desc: self.desc.deep_view(),
            sql: self.sql.deep_view(),
            before_sql: self.before_sql.deep_view(),
            no_capture: self.no_capture,
            tasks: self.tasks.deep_view(),
        }
    }
}

/// A planner test runner: turns one resolved case into a result string or
/// a failure message. Implementations are supplied by the embedding system.
pub trait PlannerTestRunner {
    /// Run a test case and return the result.
    fn run(&mut self, test_case: &ParsedTestCase) -> (r: Result<String, String>);
}

/// Resolves the decoded records of one test file into parsed cases;
/// `include_files` carries the contents read for the file's inclusions,
/// each under its path below `base_path`.
pub fn parse_test_cases(
    base_path: &String,
    tests: Vec<TestCase>,
    include_files: &Vec<(String, String)>,
) -> (r: Result<Vec<ParsedTestCase>, resolve::ResolveError>)
    ensures
        ({
            let s = resolve::resolve_cases(tests.deep_view(), base_path@, include_files.deep_view());
            match r {
                Ok(parsed) => s == Ok::<Seq<ParsedTestCaseV>, resolve::ResolveErrorV>(
                    parsed.deep_view(),
                ),
                Err(e) => s == Err::<Seq<ParsedTestCaseV>, resolve::ResolveErrorV>(e.deep_view()),
            }
        }),
{
    resolve::resolve_testcase_id(base_path, tests, include_files)
}

} // verus!
