use vstd::prelude::*;

use crate::text::{path_join, path_join_exec, starts_with, str_after, str_starts_with};
use crate::{ParsedTestCase, ParsedTestCaseV, TestCase, TestCaseV};

verus! {

// Reference resolution: every "before" entry of a case is a literal
// fragment, a back-reference "*id" to a sibling case's body, or an
// inclusion "include_sql:<path>" of a file below the test file's
// directory. Resolution replaces each entry by its concrete text and
// fails on the first entry that cannot be resolved.

/// Why resolution of one file failed.
#[derive(Clone, Debug)]
pub enum ResolveError {
    /// A back-reference named an id that no case in the file declares.
    NotFound(String),
    /// An inclusion named a file whose contents were not available.
    Io(String),
}

/// The mathematical value of a `ResolveError`.
#[verifier::ext_equal]
pub enum ResolveErrorV {
    NotFound(Seq<char>),
    Io(Seq<char>),
}

impl DeepView for ResolveError {
    type V = ResolveErrorV;

    open spec fn deep_view(&self) -> ResolveErrorV {
        match self {
            ResolveError::NotFound(id) => ResolveErrorV::NotFound(id@),
            ResolveError::Io(path) => ResolveErrorV::Io(path@),
        }
    }
}

/// The message that describes a resolution failure.
pub open spec fn error_message(e: ResolveErrorV) -> Seq<char> {
    match e {
        ResolveErrorV::NotFound(id) => "failed to resolve "@ + id + ": not found"@,
        ResolveErrorV::Io(path) => "failed to read: "@ + path,
    }
}

impl ResolveError {
    /// The human-readable description of this failure; a back-reference
    /// failure names the missing id, an inclusion failure the path.
    pub fn message(&self) -> (r: String)
        ensures
            r@ == error_message(self.deep_view()),
    {
        match self {
            ResolveError::NotFound(id) => {
                let mut m = "failed to resolve ".to_owned();
                m.append(id.as_str());
                m.append(": not found");
                proof {
                    assert(m@ =~= error_message(self.deep_view()));
                }
                m
            },
            ResolveError::Io(path) => {
                let mut m = "failed to read: ".to_owned();
                m.append(path.as_str());
                proof {
                    assert(m@ =~= error_message(self.deep_view()));
                }
                m
            },
        }
    }

    /// Whether this failure is an unresolved back-reference.
    pub fn is_not_found(&self) -> (r: bool)
        ensures
            r == (self.deep_view() is NotFound),
    {
        match self {
            ResolveError::NotFound(_) => true,
            ResolveError::Io(_) => false,
        }
    }
}

/// The body text of the case declaring `id`, where the last declaration
/// of a repeated id wins.
pub open spec fn id_lookup(tests: Seq<TestCaseV>, id: Seq<char>) -> Option<Seq<char>>
    decreases tests.len(),
{
    if tests.len() == 0 {
        None
    } else if tests.last().id == Some(id) {
        Some(tests.last().sql)
    } else {
        id_lookup(tests.drop_last(), id)
    }
}

/// The contents stored under `key`, first match wins.
pub open spec fn assoc(files: Seq<(Seq<char>, Seq<char>)>, key: Seq<char>) -> Option<Seq<char>>
    decreases files.len(),
{
    if files.len() == 0 {
        None
    } else if files[0].0 == key {
        Some(files[0].1)
    } else {
        assoc(files.skip(1), key)
    }
}

/// What one "before" entry resolves to: the body of the case named by a
/// back-reference, the contents of an included file, or the entry itself.
pub open spec fn resolve_entry(
    tests: Seq<TestCaseV>,
    base: Seq<char>,
    files: Seq<(Seq<char>, Seq<char>)>,
    entry: Seq<char>,
) -> Result<Seq<char>, ResolveErrorV> {
    if starts_with(entry, "*"@) {
        let id = entry.skip("*"@.len() as int);
        match id_lookup(tests, id) {
            Some(sql) => Ok(sql),
            None => Err(ResolveErrorV::NotFound(id)),
        }
    } else if starts_with(entry, "include_sql:"@) {
        let rel = entry.skip("include_sql:"@.len() as int);
        match assoc(files, path_join(base, rel)) {
            Some(contents) => Ok(contents),
            None => Err(ResolveErrorV::Io(rel)),
        }
    } else {
        Ok(entry)
    }
}

/// The entries of one case from position `k` on, each resolved, stopping
/// at the first failure.
pub open spec fn resolve_befores_from(
    tests: Seq<TestCaseV>,
    base: Seq<char>,
    files: Seq<(Seq<char>, Seq<char>)>,
    entries: Seq<Seq<char>>,
    k: int,
) -> Result<Seq<Seq<char>>, ResolveErrorV>
    decreases entries.len() - k,
{
    if k < 0 || k >= entries.len() {
        Ok(Seq::empty())
    } else {
        match resolve_entry(tests, base, files, entries[k]) {
            Err(e) => Err(e),
            Ok(t) => match resolve_befores_from(tests, base, files, entries, k + 1) {
                Err(e) => Err(e),
                Ok(rest) => Ok(seq![t] + rest),
            },
        }
    }
}

/// The "before" entries of `tc`, or none where the field is absent.
pub open spec fn entries_of(tc: TestCaseV) -> Seq<Seq<char>> {
    match tc.before {
        Some(b) => b,
        None => Seq::empty(),
    }
}

/// One case after resolution: its entries resolved in order, the
/// no-capture flag and the task list given their defaults.
pub open spec fn resolve_case(
    tests: Seq<TestCaseV>,
    base: Seq<char>,
    files: Seq<(Seq<char>, Seq<char>)>,
    tc: TestCaseV,
) -> Result<ParsedTestCaseV, ResolveErrorV> {
    match resolve_befores_from(tests, base, files, entries_of(tc), 0) {
        Err(e) => Err(e),
        Ok(bs) => Ok(
            ParsedTestCaseV {
                id: tc.id,
                desc: tc.desc,
                sql: tc.sql,
                before_sql: bs,
                no_capture: tc.no_capture == Some(true),
                tasks: match tc.tasks {
                    Some(t) => t,
                    None => Seq::empty(),
                },
            },
        ),
    }
}

/// All cases from position `k` on, each resolved against the whole file,
/// stopping at the first failing case.
pub open spec fn resolve_cases_from(
    tests: Seq<TestCaseV>,
    base: Seq<char>,
    files: Seq<(Seq<char>, Seq<char>)>,
    k: int,
) -> Result<Seq<ParsedTestCaseV>, ResolveErrorV>
    decreases tests.len() - k,
{
    if k < 0 || k >= tests.len() {
        Ok(Seq::empty())
    } else {
        match resolve_case(tests, base, files, tests[k]) {
            Err(e) => Err(e),
            Ok(p) => match resolve_cases_from(tests, base, files, k + 1) {
                Err(e) => Err(e),
                Ok(rest) => Ok(seq![p] + rest),
            },
        }
    }
}

/// One whole file resolved: every case in order, atomically — any single
/// unresolved reference fails the file.
pub open spec fn resolve_cases(
    tests: Seq<TestCaseV>,
    base: Seq<char>,
    files: Seq<(Seq<char>, Seq<char>)>,
) -> Result<Seq<ParsedTestCaseV>, ResolveErrorV> {
    resolve_cases_from(tests, base, files, 0)
}

/// A "before" entry that is plain text: neither a back-reference nor an
/// inclusion.
pub open spec fn is_literal_entry(entry: Seq<char>) -> bool {
    !starts_with(entry, "*"@) && !starts_with(entry, "include_sql:"@)
}

/// A file none of whose cases carries a reference.
pub open spec fn has_no_references(tests: Seq<TestCaseV>) -> bool {
    forall|i: int, k: int|
        0 <= i < tests.len() && 0 <= k < entries_of(tests[i]).len() ==> is_literal_entry(
            #[trigger] entries_of(tests[i])[k],
        )
}

proof fn lemma_resolve_befores_literal(
    tests: Seq<TestCaseV>,
    base: Seq<char>,
    files: Seq<(Seq<char>, Seq<char>)>,
    entries: Seq<Seq<char>>,
    k: int,
)
    requires
        0 <= k <= entries.len(),
        forall|j: int| 0 <= j < entries.len() ==> is_literal_entry(#[trigger] entries[j]),
    ensures
        resolve_befores_from(tests, base, files, entries, k) == Ok::<Seq<Seq<char>>, ResolveErrorV>(
            entries.skip(k),
        ),
    decreases entries.len() - k,
{
    if k == entries.len() {
        assert(entries.skip(k) =~= Seq::<Seq<char>>::empty());
    } else {
        lemma_resolve_befores_literal(tests, base, files, entries, k + 1);
        assert(seq![entries[k]] + entries.skip(k + 1) =~= entries.skip(k));
    }
}

proof fn lemma_resolve_cases_literal(
    tests: Seq<TestCaseV>,
    base: Seq<char>,
    files: Seq<(Seq<char>, Seq<char>)>,
    k: int,
)
    requires
        0 <= k <= tests.len(),
        has_no_references(tests),
    ensures
        resolve_cases_from(tests, base, files, k) matches Ok(parsed) && parsed.len() == tests.len()
            - k && (forall|j: int|
            0 <= j < parsed.len() ==> (#[trigger] parsed[j]).sql == tests[k + j].sql
                && parsed[j].before_sql == entries_of(tests[k + j])),
    decreases tests.len() - k,
{
    if k < tests.len() {
        lemma_resolve_befores_literal(tests, base, files, entries_of(tests[k]), 0);
        assert(entries_of(tests[k]).skip(0) =~= entries_of(tests[k]));
        lemma_resolve_cases_literal(tests, base, files, k + 1);
    }
}

/// LAW: for a file with no references, resolution is a no-op — it
/// succeeds, and every resolved case keeps its raw body text, with its
/// "before" entries carried over verbatim.
pub proof fn lemma_no_references_resolution_identity(
    tests: Seq<TestCaseV>,
    base: Seq<char>,
    files: Seq<(Seq<char>, Seq<char>)>,
)
    requires
        has_no_references(tests),
    ensures
        resolve_cases(tests, base, files) matches Ok(parsed) && parsed.len() == tests.len() && (
        forall|i: int|
            0 <= i < tests.len() ==> (#[trigger] parsed[i]).sql == tests[i].sql
                && parsed[i].before_sql == entries_of(tests[i])),
{
    lemma_resolve_cases_literal(tests, base, files, 0);
}

proof fn lemma_id_lookup_last(tests: Seq<TestCaseV>, i: int, x: Seq<char>)
    requires
        0 <= i < tests.len(),
        tests[i].id == Some(x),
        forall|j: int| i < j < tests.len() ==> (#[trigger] tests[j]).id != Some(x),
    ensures
        id_lookup(tests, x) == Some(tests[i].sql),
    decreases tests.len(),
{
    if i == tests.len() - 1 {
    } else {
        assert(tests.last().id != Some(x));
        lemma_id_lookup_last(tests.drop_last(), i, x);
    }
}

/// LAW: a back-reference "*x" resolves to the exact body text of the
/// case that declares the id `x`, wherever the two cases stand in the
/// file; among repeated declarations the last one wins.
pub proof fn lemma_back_reference_resolves(
    tests: Seq<TestCaseV>,
    base: Seq<char>,
    files: Seq<(Seq<char>, Seq<char>)>,
    i: int,
    x: Seq<char>,
)
    requires
        0 <= i < tests.len(),
        tests[i].id == Some(x),
        forall|j: int| i < j < tests.len() ==> (#[trigger] tests[j]).id != Some(x),
    ensures
        resolve_entry(tests, base, files, "*"@ + x) == Ok::<Seq<char>, ResolveErrorV>(tests[i].sql),
{
    reveal_strlit("*");
    let entry = "*"@ + x;
    assert(entry.subrange(0, 1) =~= "*"@);
    assert(entry.skip(1) =~= x);
    lemma_id_lookup_last(tests, i, x);
}

proof fn lemma_id_lookup_missing(tests: Seq<TestCaseV>, x: Seq<char>)
    requires
        forall|j: int| 0 <= j < tests.len() ==> (#[trigger] tests[j]).id != Some(x),
    ensures
        id_lookup(tests, x) is None,
    decreases tests.len(),
{
    if tests.len() > 0 {
        lemma_id_lookup_missing(tests.drop_last(), x);
    }
}

/// LAW: a back-reference naming an id that no case of the file declares
/// fails resolution with the "not found" error that names the missing id.
pub proof fn lemma_missing_back_reference_fails(
    tests: Seq<TestCaseV>,
    base: Seq<char>,
    files: Seq<(Seq<char>, Seq<char>)>,
    x: Seq<char>,
)
    requires
        forall|j: int| 0 <= j < tests.len() ==> (#[trigger] tests[j]).id != Some(x),
    ensures
        resolve_entry(tests, base, files, "*"@ + x) == Err::<Seq<char>, ResolveErrorV>(
            ResolveErrorV::NotFound(x),
        ),
{
    reveal_strlit("*");
    let entry = "*"@ + x;
    assert(entry.subrange(0, 1) =~= "*"@);
    assert(entry.skip(1) =~= x);
    lemma_id_lookup_missing(tests, x);
}

/// LAW: an inclusion resolves to the exact contents stored for the
/// referenced path, relative to the test file's directory; a path with
/// no contents fails with the I/O error that names the path.
pub proof fn lemma_inclusion_resolves(
    tests: Seq<TestCaseV>,
    base: Seq<char>,
    files: Seq<(Seq<char>, Seq<char>)>,
    rel: Seq<char>,
)
    ensures
        assoc(files, path_join(base, rel)) matches Some(contents) ==> resolve_entry(
            tests,
            base,
            files,
            "include_sql:"@ + rel,
        ) == Ok::<Seq<char>, ResolveErrorV>(contents),
        assoc(files, path_join(base, rel)) is None ==> resolve_entry(
            tests,
            base,
            files,
            "include_sql:"@ + rel,
        ) == Err::<Seq<char>, ResolveErrorV>(ResolveErrorV::Io(rel)),
{
    reveal_strlit("*");
    reveal_strlit("include_sql:");
    let entry = "include_sql:"@ + rel;
    assert(entry.subrange(0, 12) =~= "include_sql:"@);
    assert(entry.skip(12) =~= rel);
    assert(entry[0] == 'i');
    assert(!starts_with(entry, "*"@)) by {
        if starts_with(entry, "*"@) {
            assert(entry.subrange(0, 1)[0] == entry[0]);
        }
    }
}

proof fn lemma_befores_ok_entry_ok(
    tests: Seq<TestCaseV>,
    base: Seq<char>,
    files: Seq<(Seq<char>, Seq<char>)>,
    entries: Seq<Seq<char>>,
    from: int,
    k: int,
)
    requires
        0 <= from <= k < entries.len(),
        resolve_befores_from(tests, base, files, entries, from) is Ok,
    ensures
        resolve_entry(tests, base, files, entries[k]) is Ok,
    decreases k - from,
{
    if from < k {
        lemma_befores_ok_entry_ok(tests, base, files, entries, from + 1, k);
    }
}

proof fn lemma_cases_ok_case_ok(
    tests: Seq<TestCaseV>,
    base: Seq<char>,
    files: Seq<(Seq<char>, Seq<char>)>,
    from: int,
    i: int,
)
    requires
        0 <= from <= i < tests.len(),
        resolve_cases_from(tests, base, files, from) is Ok,
    ensures
        resolve_case(tests, base, files, tests[i]) is Ok,
    decreases i - from,
{
    if from < i {
        lemma_cases_ok_case_ok(tests, base, files, from + 1, i);
    }
}

/// LAW: resolution of a file is atomic — one entry of one case that does
/// not resolve fails the whole file.
pub proof fn lemma_resolution_atomic(
    tests: Seq<TestCaseV>,
    base: Seq<char>,
    files: Seq<(Seq<char>, Seq<char>)>,
    i: int,
    k: int,
)
    requires
        0 <= i < tests.len(),
        0 <= k < entries_of(tests[i]).len(),
        resolve_entry(tests, base, files, entries_of(tests[i])[k]) is Err,
    ensures
        resolve_cases(tests, base, files) is Err,
{
    if resolve_cases(tests, base, files) is Ok {
        lemma_cases_ok_case_ok(tests, base, files, 0, i);
        lemma_befores_ok_entry_ok(tests, base, files, entries_of(tests[i]), 0, k);
    }
}

/// Finds the body of the case declaring `id`; among repeated ids the
/// last declaration wins, as the lookup table is filled in file order.
fn lookup_id(testcases: &Vec<TestCase>, id: &String) -> (r: Option<String>)
    ensures
        match r {
            Some(s) => id_lookup(testcases.deep_view(), id@) == Some(s@),
            None => id_lookup(testcases.deep_view(), id@) is None,
        },
{
    let ghost tv = testcases.deep_view();
    let mut j: usize = testcases.len();
    proof {
        assert(tv.take(j as int) =~= tv);
    }
    while j > 0
        invariant
            0 <= j <= testcases.len(),
            tv == testcases.deep_view(),
            tv.len() == testcases@.len(),
            id_lookup(tv, id@) == id_lookup(tv.take(j as int), id@),
        decreases j,
    {
        j -= 1;
        let hit = match &testcases[j].id {
            Some(s) => s.eq(id),
            None => false,
        };
        proof {
            assert(tv.take(j + 1).last() == tv[j as int]);
            assert(tv.take(j + 1).drop_last() =~= tv.take(j as int));
        }
        if hit {
            return Some(testcases[j].sql.clone());
        }
    }
    proof {
        assert(tv.take(0) =~= Seq::<TestCaseV>::empty());
    }
    None
}

/// Finds the contents stored under `key`; the first entry wins.
fn lookup_file(files: &Vec<(String, String)>, key: &String) -> (r: Option<String>)
    ensures
        match r {
            Some(c) => assoc(files.deep_view(), key@) == Some(c@),
            None => assoc(files.deep_view(), key@) is None,
        },
{
    let ghost fv = files.deep_view();
    let mut i: usize = 0;
    proof {
        assert(fv.skip(0) =~= fv);
    }
    while i < files.len()
        invariant
            0 <= i <= files.len(),
            fv == files.deep_view(),
            fv.len() == files@.len(),
            assoc(fv, key@) == assoc(fv.skip(i as int), key@),
        decreases files.len() - i,
    {
        proof {
            assert(fv.skip(i as int)[0] == fv[i as int]);
            assert(fv.skip(i as int).skip(1) =~= fv.skip(i + 1));
        }
        if files[i].0.eq(key) {
            return Some(files[i].1.clone());
        }
        i += 1;
    }
    None
}

/// Resolves one "before" entry against the whole file's cases and the
/// available included files.
fn resolve_entry_exec(
    testcases: &Vec<TestCase>,
    base_path: &String,
    files: &Vec<(String, String)>,
    entry: &String,
) -> (r: Result<String, ResolveError>)
    ensures
        ({
            let s = resolve_entry(testcases.deep_view(), base_path@, files.deep_view(), entry@);
            match r {
                Ok(t) => s == Ok::<Seq<char>, ResolveErrorV>(t@),
                Err(e) => s == Err::<Seq<char>, ResolveErrorV>(e.deep_view()),
            }
        }),
{
    if str_starts_with(entry.as_str(), "*") {
        proof {
            reveal_strlit("*");
        }
        let id = str_after(entry.as_str(), 1);
        match lookup_id(testcases, &id) {
            Some(sql) => Ok(sql),
            None => Err(ResolveError::NotFound(id)),
        }
    } else if str_starts_with(entry.as_str(), "include_sql:") {
        proof {
            reveal_strlit("include_sql:");
        }
        let rel = str_after(entry.as_str(), 12);
        let full = path_join_exec(base_path.as_str(), rel.as_str());
        match lookup_file(files, &full) {
            Some(contents) => Ok(contents),
            None => Err(ResolveError::Io(rel)),
        }
    } else {
        Ok(entry.clone())
    }
}

/// A copy of a list of strings with the same contents.
fn clone_strings(v: &Vec<String>) -> (r: Vec<String>)
    ensures
        r.deep_view() == v.deep_view(),
{
    let mut out: Vec<String> = Vec::new();
    let mut i: usize = 0;
    while i < v.len()
        invariant
            0 <= i <= v.len(),
            out@.len() == i,
            forall|j: int| 0 <= j < i ==> out@[j] == v@[j],
        decreases v.len() - i,
    {
        out.push(v[i].clone());
        i += 1;
    }
    proof {
        assert forall|j: int| 0 <= j < v@.len() implies out.deep_view()[j] == v.deep_view()[j] by {
            assert(out@[j] == v@[j]);
        }
        assert(out.deep_view() =~= v.deep_view());
    }
    out
}

/// A copy of an optional string with the same contents.
fn clone_opt_string(v: &Option<String>) -> (r: Option<String>)
    ensures
        r.deep_view() == v.deep_view(),
{
    match v {
        Some(s) => Some(s.clone()),
        None => None,
    }
}

/// Resolves one case: every "before" entry in order, stopping at the
/// first failure; the case's own fields are kept, with the no-capture
/// flag defaulted to false and the task list to empty.
fn resolve_case_exec(
    testcases: &Vec<TestCase>,
    base_path: &String,
    files: &Vec<(String, String)>,
    tc: &TestCase,
) -> (r: Result<ParsedTestCase, ResolveError>)
    ensures
        ({
            let s = resolve_case(testcases.deep_view(), base_path@, files.deep_view(), tc.deep_view());
            match r {
                Ok(p) => s == Ok::<ParsedTestCaseV, ResolveErrorV>(p.deep_view()),
                Err(e) => s == Err::<ParsedTestCaseV, ResolveErrorV>(e.deep_view()),
            }
        }),
{
    let ghost tv = testcases.deep_view();
    let ghost fv = files.deep_view();
    let ghost entriesv = entries_of(tc.deep_view());
    let mut before_sql: Vec<String> = Vec::new();
    if let Some(before) = &tc.before {
        proof {
            assert(entriesv == before.deep_view());
            match resolve_befores_from(tv, base_path@, fv, entriesv, 0) {
                Ok(rest) => {
                    assert(before_sql.deep_view() + rest =~= rest);
                },
                Err(_) => {},
            }
        }
        let mut k: usize = 0;
        while k < before.len()
            invariant
                0 <= k <= before.len(),
                tv == testcases.deep_view(),
                fv == files.deep_view(),
                entriesv == before.deep_view(),
                entriesv == entries_of(tc.deep_view()),
                entriesv.len() == before@.len(),
                resolve_befores_from(tv, base_path@, fv, entriesv, 0) == (
                match resolve_befores_from(tv, base_path@, fv, entriesv, k as int) {
                    Ok(rest) => Ok::<Seq<Seq<char>>, ResolveErrorV>(
                        before_sql.deep_view() + rest,
                    ),
                    Err(e) => Err::<Seq<Seq<char>>, ResolveErrorV>(e),
                }),
            decreases before.len() - k,
        {
            let ghost bs0 = before_sql.deep_view();
            proof {
                assert(entriesv[k as int] == before@[k as int]@);
            }
            match resolve_entry_exec(testcases, base_path, files, &before[k]) {
                Err(e) => {
                    proof {
                        assert(resolve_entry(tv, base_path@, fv, entriesv[k as int]) == Err::<
                            Seq<char>,
                            ResolveErrorV,
                        >(e.deep_view()));
                        assert(resolve_befores_from(tv, base_path@, fv, entriesv, k as int)
                            == Err::<Seq<Seq<char>>, ResolveErrorV>(e.deep_view()));
                        assert(resolve_befores_from(tv, base_path@, fv, entriesv, 0) == Err::<
                            Seq<Seq<char>>,
                            ResolveErrorV,
                        >(e.deep_view()));
                        assert(entries_of(tc.deep_view()) == entriesv);
                        assert(resolve_case(tv, base_path@, fv, tc.deep_view()) == Err::<
                            ParsedTestCaseV,
                            ResolveErrorV,
                        >(e.deep_view()));
                    }
                    return Err(e);
                },
                Ok(t) => {
                    before_sql.push(t);
                    proof {
                        match resolve_befores_from(tv, base_path@, fv, entriesv, k + 1) {
                            Ok(rest) => {
                                assert(bs0 + (seq![t@] + rest) =~= before_sql.deep_view() + rest);
                            },
                            Err(_) => {},
                        }
                    }
                },
            }
            k += 1;
        }
    }
    let parsed = ParsedTestCase {
        id: clone_opt_string(&tc.id),
        desc: clone_opt_string(&tc.desc),
        sql: tc.sql.clone(),
        before_sql,
        no_capture: match tc.no_capture {
            Some(true) => true,
            _ => false,
        },
        tasks: match &tc.tasks {
            Some(v) => clone_strings(v),
            None => Vec::new(),
        },
    };
    proof {
        let tcv = tc.deep_view();
        let pv = parsed.deep_view();
        assert(resolve_befores_from(tv, base_path@, fv, entriesv, entriesv.len() as int) == Ok::<
            Seq<Seq<char>>,
            ResolveErrorV,
        >(Seq::empty()));
        if tcv.before is None {
            assert(entriesv =~= Seq::<Seq<char>>::empty());
            assert(pv.before_sql =~= Seq::<Seq<char>>::empty());
        } else {
            assert(pv.before_sql + Seq::<Seq<char>>::empty() =~= pv.before_sql);
        }
        assert(resolve_befores_from(tv, base_path@, fv, entriesv, 0) == Ok::<
            Seq<Seq<char>>,
            ResolveErrorV,
        >(pv.before_sql));
        let expected = ParsedTestCaseV {
            id: tcv.id,
            desc: tcv.desc,
            sql: tcv.sql,
            before_sql: pv.before_sql,
            no_capture: tcv.no_capture == Some(true),
            tasks: match tcv.tasks {
                Some(t) => t,
                None => Seq::empty(),
            },
        };
        if tcv.tasks is None {
            assert(pv.tasks =~= Seq::<Seq<char>>::empty());
        }
        assert(pv =~= expected);
        assert(resolve_case(tv, base_path@, fv, tcv) == Ok::<ParsedTestCaseV, ResolveErrorV>(pv));
    }
    Ok(parsed)
}

/// Resolves every case of one file in order; fails atomically on the
/// first case with an unresolvable reference. `files` carries, for each
/// included path below `base_path`, the contents that were read for it.
pub fn resolve_testcase_id(
    base_path: &String,
    testcases: Vec<TestCase>,
    files: &Vec<(String, String)>,
) -> (r: Result<Vec<ParsedTestCase>, ResolveError>)
    ensures
        ({
            let s = resolve_cases(testcases.deep_view(), base_path@, files.deep_view());
            match r {
                Ok(parsed) => s == Ok::<Seq<ParsedTestCaseV>, ResolveErrorV>(parsed.deep_view()),
                Err(e) => s == Err::<Seq<ParsedTestCaseV>, ResolveErrorV>(e.deep_view()),
            }
        }),
{
    let ghost tv = testcases.deep_view();
    let ghost fv = files.deep_view();
    let mut out: Vec<ParsedTestCase> = Vec::new();
    proof {
        match resolve_cases_from(tv, base_path@, fv, 0) {
            Ok(rest) => {
                assert(out.deep_view() + rest =~= rest);
            },
            Err(_) => {},
        }
    }
    let mut i: usize = 0;
    while i < testcases.len()
        invariant
            0 <= i <= testcases.len(),
            tv == testcases.deep_view(),
            fv == files.deep_view(),
            tv.len() == testcases@.len(),
            resolve_cases_from(tv, base_path@, fv, 0) == (
            match resolve_cases_from(tv, base_path@, fv, i as int) {
                Ok(rest) => Ok::<Seq<ParsedTestCaseV>, ResolveErrorV>(out.deep_view() + rest),
                Err(e) => Err::<Seq<ParsedTestCaseV>, ResolveErrorV>(e),
            }),
        decreases testcases.len() - i,
    {
        let ghost out0 = out.deep_view();
        match resolve_case_exec(&testcases, base_path, files, &testcases[i]) {
            Err(e) => {
                return Err(e);
            },
            Ok(p) => {
                out.push(p);
                proof {
                    match resolve_cases_from(tv, base_path@, fv, i + 1) {
                        Ok(rest) => {
                            assert(out0 + (seq![p.deep_view()] + rest) =~= out.deep_view() + rest);
                        },
                        Err(_) => {},
                    }
                }
            },
        }
        i += 1;
    }
    proof {
        assert(resolve_cases_from(tv, base_path@, fv, tv.len() as int) == Ok::<
            Seq<ParsedTestCaseV>,
            ResolveErrorV,
        >(Seq::empty()));
        assert(out.deep_view() + Seq::<ParsedTestCaseV>::empty() =~= out.deep_view());
    }
    Ok(out)
}

/// The full paths of the inclusions among the entries from position `k`
/// on, in entry order.
pub open spec fn entry_includes(base: Seq<char>, entries: Seq<Seq<char>>, k: int) -> Seq<Seq<char>>
    decreases entries.len() - k,
{
    if k < 0 || k >= entries.len() {
        Seq::empty()
    } else {
        (if starts_with(entries[k], "include_sql:"@) {
            seq![path_join(base, entries[k].skip("include_sql:"@.len() as int))]
        } else {
            Seq::<Seq<char>>::empty()
        }) + entry_includes(base, entries, k + 1)
    }
}

/// The full paths of the inclusions of the cases from position `k` on,
/// in file order.
pub open spec fn includes_from(base: Seq<char>, tests: Seq<TestCaseV>, k: int) -> Seq<Seq<char>>
    decreases tests.len() - k,
{
    if k < 0 || k >= tests.len() {
        Seq::empty()
    } else {
        entry_includes(base, entries_of(tests[k]), 0) + includes_from(base, tests, k + 1)
    }
}

/// Every file that the inclusions of one test file name, as a full path
/// below `base`, in file order; what one file's resolution will look up.
pub open spec fn all_includes(base: Seq<char>, tests: Seq<TestCaseV>) -> Seq<Seq<char>> {
    includes_from(base, tests, 0)
}

/// Collects the full paths of every inclusion of the file's cases, in
/// order; the caller reads these and hands their contents to resolution.
pub fn collect_include_paths(base_path: &String, testcases: &Vec<TestCase>) -> (r: Vec<String>)
    ensures
        r.deep_view() == all_includes(base_path@, testcases.deep_view()),
{
    let ghost tv = testcases.deep_view();
    let mut out: Vec<String> = Vec::new();
    let mut i: usize = 0;
    proof {
        assert(out.deep_view() + includes_from(base_path@, tv, 0) =~= includes_from(
            base_path@,
            tv,
            0,
        ));
    }
    while i < testcases.len()
        invariant
            0 <= i <= testcases.len(),
            tv == testcases.deep_view(),
            tv.len() == testcases@.len(),
            out.deep_view() + includes_from(base_path@, tv, i as int) == all_includes(
                base_path@,
                tv,
            ),
        decreases testcases.len() - i,
    {
        let ghost entriesv = entries_of(tv[i as int]);
        if let Some(before) = &testcases[i].before {
            proof {
                assert(entriesv == before.deep_view());
            }
            let mut k: usize = 0;
            proof {
                assert(out.deep_view() + Seq::<Seq<char>>::empty() =~= out.deep_view());
                assert(out.deep_view() + (entry_includes(base_path@, entriesv, 0) + includes_from(
                    base_path@,
                    tv,
                    i + 1,
                )) =~= (out.deep_view() + entry_includes(base_path@, entriesv, 0)) + includes_from(
                    base_path@,
                    tv,
                    i + 1,
                ));
            }
            while k < before.len()
                invariant
                    0 <= k <= before.len(),
                    tv == testcases.deep_view(),
                    entriesv == before.deep_view(),
                    entriesv.len() == before@.len(),
                    0 <= i < tv.len(),
                    entriesv == entries_of(tv[i as int]),
                    (out.deep_view() + entry_includes(base_path@, entriesv, k as int))
                        + includes_from(base_path@, tv, i + 1) == all_includes(base_path@, tv),
                decreases before.len() - k,
            {
                let ghost o0 = out.deep_view();
                if str_starts_with(before[k].as_str(), "include_sql:") {
                    proof {
                        reveal_strlit("include_sql:");
                        assert(entriesv[k as int] == before@[k as int]@);
                    }
                    let rel = str_after(before[k].as_str(), 12);
                    let full = path_join_exec(base_path.as_str(), rel.as_str());
                    out.push(full);
                    proof {
                        assert(out.deep_view() =~= o0 + seq![
                            path_join(
                                base_path@,
                                entriesv[k as int].skip("include_sql:"@.len() as int),
                            ),
                        ]);
                    }
                } else {
                    proof {
                        assert(entriesv[k as int] == before@[k as int]@);
                    }
                }
                k += 1;
                proof {
                    assert((out.deep_view() + entry_includes(base_path@, entriesv, k as int))
                        + includes_from(base_path@, tv, i + 1) =~= (o0 + entry_includes(
                        base_path@,
                        entriesv,
                        (k - 1) as int,
                    )) + includes_from(base_path@, tv, i + 1));
                }
            }
            proof {
                assert(entry_includes(base_path@, entriesv, entriesv.len() as int) == Seq::<
                    Seq<char>,
                >::empty());
                assert(out.deep_view() + includes_from(base_path@, tv, i + 1) =~= (out.deep_view()
                    + entry_includes(base_path@, entriesv, entriesv.len() as int)) + includes_from(
                    base_path@,
                    tv,
                    i + 1,
                ));
            }
        } else {
            proof {
                assert(entriesv =~= Seq::<Seq<char>>::empty());
                assert(entry_includes(base_path@, entriesv, 0) == Seq::<Seq<char>>::empty());
                assert(out.deep_view() + includes_from(base_path@, tv, i + 1) =~= out.deep_view()
                    + (entry_includes(base_path@, entriesv, 0) + includes_from(
                    base_path@,
                    tv,
                    i + 1,
                )));
            }
        }
        i += 1;
    }
    proof {
        assert(includes_from(base_path@, tv, tv.len() as int) == Seq::<Seq<char>>::empty());
        assert(out.deep_view() =~= out.deep_view() + includes_from(base_path@, tv, tv.len() as int));
    }
    out
}

} // verus!
