use vstd::prelude::*;

use crate::text::{ends_with, trim_end_of, trim_end_str};
use crate::{ParsedTestCase, ParsedTestCaseV, PlannerTestRunner, TestCase};

verus! {

// Apply-mode core: render each case's block, accumulate a file's
// transcript by driving the runner over the cases in file order, and
// aggregate per-file outcomes into the run's overall verdict.

/// Options for an apply run.
#[derive(Clone)]
pub struct PlannerTestApplyOptions {
    /// Run the files strictly one at a time.
    pub serial: bool,
    /// A selection of test modules or files; empty selects all tests.
    pub selections: Vec<String>,
}

impl Default for PlannerTestApplyOptions {
    /// Not serial, no selections: run everything concurrently.
    fn default() -> (r: Self)
        ensures
            !r.serial,
            r.selections@.len() == 0,
    {
        PlannerTestApplyOptions { serial: false, selections: Vec::new() }
    }
}

/// The header line of one case's block, derived from its id and
/// description.
pub open spec fn render_header(id: Option<Seq<char>>, desc: Option<Seq<char>>) -> Seq<char> {
    match (id, desc) {
        (Some(i), Some(d)) => "-- "@ + i + ": "@ + d + "\n"@,
        (Some(i), None) => "-- "@ + i + "\n"@,
        (None, Some(d)) => "-- "@ + d + "\n"@,
        (None, None) => "-- (no id or description)\n"@,
    }
}

/// The outcome part of one case's block: a success is the trimmed output
/// in a comment block, a failure is the message in an "Error" comment
/// block.
pub open spec fn render_outcome(res: Result<Seq<char>, Seq<char>>) -> Seq<char> {
    match res {
        Ok(s) => "/*\n"@ + trim_end_of(s) + "\n*/\n"@,
        Err(e) => "/*\nError\n"@ + e + "\n*/\n"@,
    }
}

/// One case's whole rendered block: header, body, outcome, and a blank
/// separator line.
pub open spec fn render_case(tc: ParsedTestCaseV, res: Result<Seq<char>, Seq<char>>) -> Seq<char> {
    render_header(tc.id, tc.desc) + tc.sql + "\n"@ + render_outcome(res) + "\n"@
}

/// The mathematical value of one runner result.
pub open spec fn result_view_of(r: Result<String, String>) -> Result<Seq<char>, Seq<char>> {
    match r {
        Ok(s) => Ok(s@),
        Err(e) => Err(e@),
    }
}

/// The mathematical value of a list of runner results.
pub open spec fn results_view(rs: Seq<Result<String, String>>) -> Seq<
    Result<Seq<char>, Seq<char>>,
> {
    rs.map_values(|r: Result<String, String>| result_view_of(r))
}

/// The transcript of one file: each case's block in file order, with a
/// case flagged no-capture contributing nothing.
pub open spec fn transcript_of(
    cases: Seq<ParsedTestCaseV>,
    results: Seq<Result<Seq<char>, Seq<char>>>,
) -> Seq<char>
    decreases cases.len(),
{
    if cases.len() == 0 || results.len() == 0 {
        Seq::empty()
    } else {
        transcript_of(cases.drop_last(), results.drop_last()) + (if cases.last().no_capture {
            Seq::<char>::empty()
        } else {
            render_case(cases.last(), results.last())
        })
    }
}

/// Appends one case's rendered block — header, body, outcome, blank
/// separator — to the transcript `r`.
#[verifier::rlimit(50)]
pub fn generate_result(testcase: &ParsedTestCase, runner_result: &Result<String, String>, r: &mut String)
    ensures
        final(r)@ == old(r)@ + render_case(testcase.deep_view(), result_view_of(*runner_result)),
{
    match (&testcase.id, &testcase.desc) {
        (Some(id), Some(desc)) => {
            r.append("-- ");
            r.append(id.as_str());
            r.append(": ");
            r.append(desc.as_str());
            r.append("\n");
        },
        (Some(id), None) => {
            r.append("-- ");
            r.append(id.as_str());
            r.append("\n");
        },
        (None, Some(desc)) => {
            r.append("-- ");
            r.append(desc.as_str());
            r.append("\n");
        },
        (None, None) => {
            r.append("-- (no id or description)\n");
        },
    }
    r.append(testcase.sql.as_str());
    r.append("\n");
    match runner_result {
        Ok(res) => {
            r.append("/*\n");
            let trimmed = trim_end_str(res.as_str());
            r.append(trimmed);
            r.append("\n*/\n");
        },
        Err(err) => {
            r.append("/*\nError\n");
            r.append(err.as_str());
            r.append("\n*/\n");
        },
    }
    r.append("\n");
    proof {
        assert(r@ =~= old(r)@ + render_case(testcase.deep_view(), result_view_of(*runner_result)));
    }
}

/// Runs the supplied runner once per case, in file order, never
/// stopping at a failed case, and accumulates the transcript; returns
/// the transcript and one result per case, in order.
pub fn run_cases<R: PlannerTestRunner>(runner: &mut R, cases: &Vec<ParsedTestCase>) -> (r: (
    String,
    Vec<Result<String, String>>,
))
    ensures
        r.1@.len() == cases@.len(),
        r.0@ == transcript_of(cases.deep_view(), results_view(r.1@)),
{
    let ghost cv = cases.deep_view();
    let mut transcript = String::new();
    let mut results: Vec<Result<String, String>> = Vec::new();
    let mut i: usize = 0;
    while i < cases.len()
        invariant
            0 <= i <= cases.len(),
            cv == cases.deep_view(),
            cv.len() == cases@.len(),
            results@.len() == i,
            transcript@ == transcript_of(cv.take(i as int), results_view(results@)),
        decreases cases.len() - i,
    {
        let ghost t0 = transcript@;
        let ghost rs0 = results@;
        let result = runner.run(&cases[i]);
        let capture = !cases[i].no_capture;
        if capture {
            generate_result(&cases[i], &result, &mut transcript);
        }
        results.push(result);
        i += 1;
        proof {
            let rv = results_view(results@);
            assert(cv.take(i as int).drop_last() =~= cv.take(i - 1));
            assert(rv.drop_last() =~= results_view(rs0));
            assert(cv.take(i as int).last() == cv[i - 1]);
            assert(rv.last() == result_view_of(results@.last()));
            assert(transcript@ =~= transcript_of(cv.take(i as int), rv));
        }
    }
    proof {
        assert(cv.take(cv.len() as int) =~= cv);
    }
    (transcript, results)
}

/// Processes one file's decoded records: resolves them, then drives the
/// runner over the cases in file order; returns the transcript and one
/// result per case. Resolution failure fails the file before the runner
/// is ever invoked.
pub fn run_test_file<R: PlannerTestRunner>(
    base_path: &String,
    tests: Vec<TestCase>,
    include_files: &Vec<(String, String)>,
    runner: &mut R,
) -> (r: Result<(String, Vec<Result<String, String>>), crate::resolve::ResolveError>)
    ensures
        ({
            let s = crate::resolve::resolve_cases(
                tests.deep_view(),
                base_path@,
                include_files.deep_view(),
            );
            match r {
                Ok((transcript, results)) => s matches Ok(cases) && results@.len() == cases.len()
                    && transcript@ == transcript_of(cases, results_view(results@)),
                Err(e) => s == Err::<Seq<ParsedTestCaseV>, crate::resolve::ResolveErrorV>(
                    e.deep_view(),
                ),
            }
        }),
{
    match crate::parse_test_cases(base_path, tests, include_files) {
        Err(e) => Err(e),
        Ok(cases) => Ok(run_cases(runner, &cases)),
    }
}

/// What one apply run makes of one file: the decoded records resolved,
/// then the transcript of the cases against the runner's results.
pub open spec fn file_transcript(
    tests: Seq<crate::TestCaseV>,
    base: Seq<char>,
    files: Seq<(Seq<char>, Seq<char>)>,
    results: Seq<Result<Seq<char>, Seq<char>>>,
) -> Result<Seq<char>, crate::resolve::ResolveErrorV> {
    match crate::resolve::resolve_cases(tests, base, files) {
        Err(e) => Err(e),
        Ok(cases) => Ok(transcript_of(cases, results)),
    }
}

/// LAW: an apply run is deterministic — for one unchanged input and one
/// sequence of runner results, the transcript that comes out is one
/// value; two runs in succession write byte-identical output.
pub proof fn lemma_apply_deterministic(
    tests: Seq<crate::TestCaseV>,
    base: Seq<char>,
    files: Seq<(Seq<char>, Seq<char>)>,
    results1: Seq<Result<Seq<char>, Seq<char>>>,
    results2: Seq<Result<Seq<char>, Seq<char>>>,
)
    requires
        results1 == results2,
    ensures
        file_transcript(tests, base, files, results1) == file_transcript(
            tests,
            base,
            files,
            results2,
        ),
{
}

/// LAW: the expectation path is never the test file itself, so writing
/// the transcript leaves the input unchanged for the next run.
pub proof fn lemma_result_path_distinct(path: Seq<char>)
    requires
        ends_with(path, ".yml"@),
        path.len() > ".yml"@.len(),
    ensures
        with_result_suffix(path) != path,
{
    reveal_strlit(".yml");
    reveal_strlit(".planner.sql");
    assert(with_result_suffix(path).len() == path.len() + 8);
}

/// LAW: distinct test files get distinct expectation paths, so no two
/// concurrent files ever write the same output file.
pub proof fn lemma_result_paths_unique(path1: Seq<char>, path2: Seq<char>)
    requires
        ends_with(path1, ".yml"@),
        ends_with(path2, ".yml"@),
        path1 != path2,
    ensures
        with_result_suffix(path1) != with_result_suffix(path2),
{
    reveal_strlit(".yml");
    reveal_strlit(".planner.sql");
    if with_result_suffix(path1) == with_result_suffix(path2) {
        assert(with_result_suffix(path1).len() == path1.len() + 8);
        assert(with_result_suffix(path2).len() == path2.len() + 8);
        assert(path1.len() == path2.len());
        assert forall|i: int| 0 <= i < path1.len() implies path1[i] == path2[i] by {
            if i < path1.len() - 4 {
                assert(with_result_suffix(path1)[i] == path1[i]);
                assert(with_result_suffix(path2)[i] == path2[i]);
            } else {
                let j = i - (path1.len() - 4);
                assert(path1[i] == path1.subrange(path1.len() - 4, path1.len() as int)[j]);
                assert(path2[i] == path2.subrange(path2.len() - 4, path2.len() as int)[j]);
            }
        }
        assert(path1 =~= path2);
    }
}

/// LAW: a case flagged no-capture contributes nothing to the transcript;
/// the transcript is the one of the remaining cases and their results.
pub proof fn lemma_no_capture_invisible(
    cases: Seq<ParsedTestCaseV>,
    results: Seq<Result<Seq<char>, Seq<char>>>,
    i: int,
)
    requires
        0 <= i < cases.len(),
        cases.len() == results.len(),
        cases[i].no_capture,
    ensures
        transcript_of(cases, results) == transcript_of(cases.remove(i), results.remove(i)),
    decreases cases.len(),
{
    if i == cases.len() - 1 {
        assert(cases.remove(i) =~= cases.drop_last());
        assert(results.remove(i) =~= results.drop_last());
    } else {
        assert(cases.remove(i).drop_last() =~= cases.drop_last().remove(i));
        assert(results.remove(i).drop_last() =~= results.drop_last().remove(i));
        assert(cases.remove(i).last() == cases.last());
        assert(results.remove(i).last() == results.last());
        lemma_no_capture_invisible(cases.drop_last(), results.drop_last(), i);
    }
}

/// The outcome of one file's run: its logical name, and either the
/// elapsed milliseconds or the failure's description.
pub struct FileOutcome {
    pub testname: String,
    pub outcome: Result<u64, String>,
}

/// The mathematical value of a `FileOutcome`.
#[verifier::ext_equal]
pub struct FileOutcomeV {
    pub testname: Seq<char>,
    pub outcome: Result<u64, Seq<char>>,
}

impl DeepView for FileOutcome {
    type V = FileOutcomeV;

    open spec fn deep_view(&self) -> FileOutcomeV {
        FileOutcomeV {
            testname: self.testname@,
            outcome: match self.outcome {
                Ok(ms) => Ok(ms),
                Err(ref e) => Err(e@),
            },
        }
    }
}

/// Why a whole apply run failed.
#[derive(Clone, Debug)]
pub enum ApplyError {
    /// No test file was discovered at all.
    NoTestDiscovered,
    /// At least one file failed; the names of the failed files, in
    /// reporting order.
    FailedCases(Vec<String>),
}

impl ApplyError {
    /// The message that describes the failed run.
    pub fn message(&self) -> (r: String)
        ensures
            self is NoTestDiscovered ==> r@ == "no test discovered"@,
            self is FailedCases ==> r@ == "Cannot apply planner test"@,
    {
        match self {
            ApplyError::NoTestDiscovered => "no test discovered".to_owned(),
            ApplyError::FailedCases(_) => "Cannot apply planner test".to_owned(),
        }
    }
}

/// The names of the failed files, in order.
pub open spec fn failed_names(outcomes: Seq<FileOutcomeV>) -> Seq<Seq<char>>
    decreases outcomes.len(),
{
    if outcomes.len() == 0 {
        Seq::empty()
    } else {
        failed_names(outcomes.drop_last()) + (if outcomes.last().outcome is Err {
            seq![outcomes.last().testname]
        } else {
            Seq::<Seq<char>>::empty()
        })
    }
}

/// The run's verdict from the per-file outcomes: failure when nothing
/// was discovered, failure naming every failed file when any failed,
/// success otherwise.
pub fn summarize_outcomes(outcomes: &Vec<FileOutcome>) -> (r: Result<(), ApplyError>)
    ensures
        match r {
            Ok(()) => outcomes@.len() > 0 && failed_names(outcomes.deep_view()).len() == 0,
            Err(ApplyError::NoTestDiscovered) => outcomes@.len() == 0,
            Err(ApplyError::FailedCases(names)) => outcomes@.len() > 0 && failed_names(
                outcomes.deep_view(),
            ) == names.deep_view() && names@.len() > 0,
        },
{
    let ghost ov = outcomes.deep_view();
    if outcomes.len() == 0 {
        return Err(ApplyError::NoTestDiscovered);
    }
    let mut failed: Vec<String> = Vec::new();
    let mut i: usize = 0;
    proof {
        assert(failed.deep_view() =~= failed_names(ov.take(0)));
    }
    while i < outcomes.len()
        invariant
            0 <= i <= outcomes.len(),
            ov == outcomes.deep_view(),
            ov.len() == outcomes@.len(),
            failed.deep_view() == failed_names(ov.take(i as int)),
        decreases outcomes.len() - i,
    {
        let ghost f0 = failed.deep_view();
        if outcomes[i].outcome.is_err() {
            failed.push(outcomes[i].testname.clone());
        }
        i += 1;
        proof {
            assert(ov.take(i as int).drop_last() =~= ov.take(i - 1));
            assert(ov.take(i as int).last() == ov[i - 1]);
            if ov[i - 1].outcome is Err {
                assert(failed.deep_view() =~= f0 + seq![ov[i - 1].testname]);
            } else {
                assert(failed.deep_view() =~= f0 + Seq::<Seq<char>>::empty());
            }
        }
    }
    proof {
        assert(ov.take(ov.len() as int) =~= ov);
    }
    if failed.len() == 0 {
        proof {
            assert(failed.deep_view() =~= Seq::<Seq<char>>::empty());
        }
        Ok(())
    } else {
        Err(ApplyError::FailedCases(failed))
    }
}

/// Every file of the run succeeded.
pub open spec fn all_ok(outcomes: Seq<FileOutcomeV>) -> bool {
    forall|i: int| 0 <= i < outcomes.len() ==> (#[trigger] outcomes[i]).outcome is Ok
}

/// LAW: the run succeeds exactly when every file succeeded.
pub proof fn lemma_verdict_iff_all_ok(outcomes: Seq<FileOutcomeV>)
    ensures
        (failed_names(outcomes).len() == 0) <==> all_ok(outcomes),
    decreases outcomes.len(),
{
    if outcomes.len() > 0 {
        lemma_verdict_iff_all_ok(outcomes.drop_last());
        if failed_names(outcomes).len() == 0 {
            assert forall|i: int| 0 <= i < outcomes.len() implies (#[trigger] outcomes[i]).outcome
                is Ok by {
                if i < outcomes.len() - 1 {
                    assert(outcomes.drop_last()[i] == outcomes[i]);
                }
            }
        } else {
            if all_ok(outcomes) {
                assert(forall|i: int|
                    0 <= i < outcomes.drop_last().len() ==> #[trigger] outcomes.drop_last()[i]
                        == outcomes[i]);
            }
        }
    }
}

/// LAW: the run's verdict does not depend on the order in which the
/// files completed — outcomes that are a rearrangement of one another
/// yield the same overall pass or fail.
pub proof fn lemma_verdict_order_independent(a: Seq<FileOutcomeV>, b: Seq<FileOutcomeV>)
    requires
        a.to_multiset() == b.to_multiset(),
    ensures
        (failed_names(a).len() == 0) <==> (failed_names(b).len() == 0),
{
    a.to_multiset_ensures();
    b.to_multiset_ensures();
    lemma_verdict_iff_all_ok(a);
    lemma_verdict_iff_all_ok(b);
    if all_ok(a) {
        assert forall|i: int| 0 <= i < b.len() implies (#[trigger] b[i]).outcome is Ok by {
            assert(b.contains(b[i]));
            assert(a.to_multiset().count(b[i]) > 0);
            assert(a.contains(b[i]));
            let j = choose|j: int| 0 <= j < a.len() && a[j] == b[i];
            assert(a[j].outcome is Ok);
        }
    }
    if all_ok(b) {
        assert forall|i: int| 0 <= i < a.len() implies (#[trigger] a[i]).outcome is Ok by {
            assert(a.contains(a[i]));
            assert(b.to_multiset().count(a[i]) > 0);
            assert(b.contains(a[i]));
            let j = choose|j: int| 0 <= j < b.len() && b[j] == a[i];
            assert(b[j].outcome is Ok);
        }
    }
}

/// The rule that a run must find work, whatever the mode: zero
/// discovered test files is a failure outcome of its own.
pub fn require_tests_discovered(discovered: usize) -> (r: Result<(), ApplyError>)
    ensures
        r is Ok <==> discovered > 0,
        discovered == 0 ==> r == Err::<(), ApplyError>(ApplyError::NoTestDiscovered),
{
    if discovered == 0 {
        Err(ApplyError::NoTestDiscovered)
    } else {
        Ok(())
    }
}

/// The companion expectation path of a test file: the test suffix
/// replaced by the result suffix.
pub open spec fn with_result_suffix(path: Seq<char>) -> Seq<char> {
    path.take(path.len() - ".yml"@.len()) + ".planner.sql"@
}

/// The expectation path that belongs to the test file `path`.
pub fn result_path(path: &String) -> (r: String)
    requires
        ends_with(path@, ".yml"@),
        path@.len() > ".yml"@.len(),
        path@[path@.len() - ".yml"@.len() - 1] != '/',
    ensures
        r@ == with_result_suffix(path@),
{
    proof {
        reveal_strlit(".yml");
    }
    let len = path.as_str().unicode_len();
    let mut r = path.as_str().substring_char(0, len - 4).to_owned();
    r.append(".planner.sql");
    proof {
        assert(path@.subrange(0, path@.len() - 4) =~= path@.take(path@.len() - ".yml"@.len()));
    }
    r
}

/// The logical name of a test file below the scan root `dir`: the path
/// relative to `dir`, or nothing where `path` does not lie below it.
pub open spec fn relative_name(dir: Seq<char>, path: Seq<char>) -> Option<Seq<char>> {
    if dir.len() == 0 {
        Some(path)
    } else if path == dir {
        Some(Seq::empty())
    } else if dir[dir.len() - 1] == '/' && crate::text::starts_with(path, dir) {
        Some(path.skip(dir.len() as int))
    } else if crate::text::starts_with(path, dir + "/"@) {
        Some(path.skip(dir.len() as int + 1))
    } else {
        None
    }
}

/// The logical test name of `path` relative to the scan root `dir`.
pub fn relative_test_name(dir: &String, path: &String) -> (r: Option<String>)
    ensures
        match r {
            Some(n) => relative_name(dir@, path@) == Some(n@),
            None => relative_name(dir@, path@) is None,
        },
{
    let dl = dir.as_str().unicode_len();
    if dl == 0 {
        return Some(path.clone());
    }
    if path.eq(dir) {
        return Some(String::new());
    }
    if dir.as_str().get_char(dl - 1) == '/' && crate::text::str_starts_with(
        path.as_str(),
        dir.as_str(),
    ) {
        return Some(crate::text::str_after(path.as_str(), dl));
    }
    let mut dir_slash = dir.clone();
    dir_slash.append("/");
    let pl = path.as_str().unicode_len();
    if crate::text::str_starts_with(path.as_str(), dir_slash.as_str()) {
        proof {
            reveal_strlit("/");
            assert(dir_slash@.len() == dl + 1);
            assert(dl + 1 <= pl);
        }
        return Some(crate::text::str_after(path.as_str(), dl + 1));
    }
    None
}

} // verus!
