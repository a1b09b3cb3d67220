use vstd::prelude::*;

use crate::text::{path_join, path_join_exec, replace_namespace_sep, replace_sep};

verus! {

// Discovery: a scan root and an optional list of selections become glob
// patterns, and the patterns become the concrete list of candidate test
// files, each entry succeeding or failing on its own.

/// Whether a glob pattern is syntactically valid; validity depends on
/// the pattern's characters alone.
pub uninterp spec fn glob_pattern_ok(pattern: Seq<char>) -> bool;

/// Relies on glob::glob: expands a shell-style pattern into the matching
/// paths on disk, in alphabetical order; a syntactically invalid pattern
/// is refused, and an entry that matched but could not be read comes
/// back as that one entry's error. What is matched depends on the disk.
#[verifier::external_body]
fn glob_entries(pattern: &String) -> (r: Result<Vec<Result<String, String>>, String>)
    ensures
        r is Ok <==> glob_pattern_ok(pattern@),
{
    match glob::glob(pattern.as_str()) {
        Err(e) => Err(e.to_string()),
        Ok(paths) => Ok(
            paths.map(
                |entry: glob::GlobResult| match entry {
                    Ok(p) => Ok(p.to_string_lossy().into_owned()),
                    Err(e) => Err(e.to_string()),
                },
            ).collect(),
        ),
    }
}

/// The pattern that selects every test file anywhere under `root`,
/// leaving out files whose name starts with the ignore marker.
pub open spec fn all_tests_pattern(root: Seq<char>) -> Seq<char> {
    path_join(root, "**/[!_]*.yml"@)
}

/// The pattern that selects the one file named by the selection `s`.
pub open spec fn selection_file_pattern(root: Seq<char>, s: Seq<char>) -> Seq<char> {
    path_join(root, "**/"@ + replace_sep(s) + ".yml"@)
}

/// The pattern that selects every test file under the module directory
/// named by the selection `s`.
pub open spec fn selection_module_pattern(root: Seq<char>, s: Seq<char>) -> Seq<char> {
    path_join(root, replace_sep(s) + "/**/[!_]*.yml"@)
}

/// The patterns for the selections from position `k` on: a file pattern
/// and a module pattern for each, in selection order.
pub open spec fn selection_patterns_from(root: Seq<char>, selections: Seq<Seq<char>>, k: int) -> Seq<
    Seq<char>,
>
    decreases selections.len() - k,
{
    if k < 0 || k >= selections.len() {
        Seq::empty()
    } else {
        seq![
            selection_file_pattern(root, selections[k]),
            selection_module_pattern(root, selections[k]),
        ] + selection_patterns_from(root, selections, k + 1)
    }
}

/// The glob patterns of one run: all tests under the root when no
/// selection is given, else two patterns per selection.
pub open spec fn patterns_spec(root: Seq<char>, selections: Seq<Seq<char>>) -> Seq<Seq<char>> {
    if selections.len() == 0 {
        seq![all_tests_pattern(root)]
    } else {
        selection_patterns_from(root, selections, 0)
    }
}

/// Builds the glob patterns for `selections` under the scan root `path`:
/// all tests when empty, else a file match and a module match for each
/// selection, with its namespace separators turned into path separators.
pub fn mk_patterns(path: &String, selections: &Vec<String>) -> (r: Vec<String>)
    ensures
        r.deep_view() == patterns_spec(path@, selections.deep_view()),
{
    let ghost sv = selections.deep_view();
    if selections.len() == 0 {
        let p = path_join_exec(path.as_str(), "**/[!_]*.yml");
        let mut out: Vec<String> = Vec::new();
        out.push(p);
        proof {
            assert(out.deep_view() =~= patterns_spec(path@, sv));
        }
        return out;
    }
    let mut out: Vec<String> = Vec::new();
    let mut i: usize = 0;
    proof {
        assert(out.deep_view() + selection_patterns_from(path@, sv, 0) =~= selection_patterns_from(
            path@,
            sv,
            0,
        ));
    }
    while i < selections.len()
        invariant
            0 <= i <= selections.len(),
            sv == selections.deep_view(),
            sv.len() == selections@.len(),
            out.deep_view() + selection_patterns_from(path@, sv, i as int) == selection_patterns_from(
                path@,
                sv,
                0,
            ),
        decreases selections.len() - i,
    {
        let ghost o0 = out.deep_view();
        let seg = replace_namespace_sep(selections[i].as_str());
        let mut file_glob = "**/".to_owned();
        file_glob.append(seg.as_str());
        file_glob.append(".yml");
        let file_pattern = path_join_exec(path.as_str(), file_glob.as_str());
        let mut module_glob = seg;
        module_glob.append("/**/[!_]*.yml");
        let module_pattern = path_join_exec(path.as_str(), module_glob.as_str());
        proof {
            assert(file_pattern@ == selection_file_pattern(path@, sv[i as int]));
            assert(module_pattern@ == selection_module_pattern(path@, sv[i as int]));
        }
        out.push(file_pattern);
        out.push(module_pattern);
        i += 1;
        proof {
            assert(out.deep_view() =~= o0 + seq![
                selection_file_pattern(path@, sv[i - 1]),
                selection_module_pattern(path@, sv[i - 1]),
            ]);
            assert(out.deep_view() + selection_patterns_from(path@, sv, i as int)
                =~= selection_patterns_from(path@, sv, 0));
        }
    }
    proof {
        assert(selection_patterns_from(path@, sv, sv.len() as int) == Seq::<Seq<char>>::empty());
        assert(out.deep_view() =~= out.deep_view() + selection_patterns_from(
            path@,
            sv,
            sv.len() as int,
        ));
    }
    out
}

/// Discovers the candidate test files for `selections` under `path`:
/// every pattern expanded, the entries flattened in pattern order, each
/// entry a path or that entry's own error. Fails as a whole exactly when
/// some pattern is invalid.
pub fn discover_tests_with_selections(path: &String, selections: &Vec<String>) -> (r: Result<
    Vec<Result<String, String>>,
    String,
>)
    ensures
        r is Ok <==> (forall|k: int|
            0 <= k < patterns_spec(path@, selections.deep_view()).len() ==> glob_pattern_ok(
                #[trigger] patterns_spec(path@, selections.deep_view())[k],
            )),
        r is Err ==> (r matches Err(m) && m@ == "input pattern is invalid"@),
{
    let ghost pv = patterns_spec(path@, selections.deep_view());
    let patterns = mk_patterns(path, selections);
    let mut entries: Vec<Result<String, String>> = Vec::new();
    let mut i: usize = 0;
    while i < patterns.len()
        invariant
            0 <= i <= patterns.len(),
            pv == patterns.deep_view(),
            pv == patterns_spec(path@, selections.deep_view()),
            pv.len() == patterns@.len(),
            forall|k: int| 0 <= k < i ==> glob_pattern_ok(#[trigger] pv[k]),
        decreases patterns.len() - i,
    {
        match glob_entries(&patterns[i]) {
            Ok(mut found) => {
                entries.append(&mut found);
            },
            Err(_) => {
                proof {
                    assert(0 <= i < pv.len() && !glob_pattern_ok(pv[i as int]));
                }
                return Err("input pattern is invalid".to_owned());
            },
        }
        i += 1;
    }
    Ok(entries)
}

/// Discovers every test file under `path`: all selections.
pub fn discover_tests(path: &String) -> (r: Result<Vec<Result<String, String>>, String>)
    ensures
        r is Ok <==> glob_pattern_ok(all_tests_pattern(path@)),
{
    let none: Vec<String> = Vec::new();
    let r = discover_tests_with_selections(path, &none);
    proof {
        let pv = patterns_spec(path@, none.deep_view());
        assert(none.deep_view() =~= Seq::<Seq<char>>::empty());
        assert(pv == seq![all_tests_pattern(path@)]);
        assert(pv[0] == all_tests_pattern(path@));
        if glob_pattern_ok(all_tests_pattern(path@)) {
            assert(forall|k: int| 0 <= k < pv.len() ==> glob_pattern_ok(#[trigger] pv[k]));
        }
    }
    r
}

} // verus!
