use vstd::prelude::*;

verus! {

// Small string utilities: the harness works on test bodies, reference
// markers and paths, all of which are plain text.

/// `p` is a prefix of `s`.
pub open spec fn starts_with(s: Seq<char>, p: Seq<char>) -> bool {
    p.len() <= s.len() && s.subrange(0, p.len() as int) == p
}

/// `p` occurs somewhere inside `s`.
pub open spec fn contains_sub(s: Seq<char>, p: Seq<char>) -> bool {
    exists|k: int| 0 <= k && k + p.len() <= s.len() && #[trigger] s.subrange(k, k + p.len()) == p
}

/// `p` is a suffix of `s`.
pub open spec fn ends_with(s: Seq<char>, p: Seq<char>) -> bool {
    p.len() <= s.len() && s.subrange(s.len() - p.len(), s.len() as int) == p
}

/// What str::trim_end returns: the string with its trailing whitespace
/// removed. Which characters count as whitespace is Unicode's affair;
/// the result depends on the characters of `s` alone.
pub uninterp spec fn trim_end_of(s: Seq<char>) -> Seq<char>;

/// Relies on str::trim_end: drops trailing whitespace; the result is a
/// prefix of the input.
#[verifier::external_body]
pub fn trim_end_str(s: &str) -> (r: &str)
    ensures
        r@ == trim_end_of(s@),
        r@.len() <= s@.len() && r@ == s@.subrange(0, r@.len() as int),
{
    s.trim_end()
}

/// Relies on String::push: appends one character at the end.
#[verifier::external_body]
pub fn push_char(s: &mut String, c: char)
    ensures
        final(s)@ == old(s)@.push(c),
{
    s.push(c);
}

/// Whether `s` starts with the prefix `p`, decided character by character.
pub fn str_starts_with(s: &str, p: &str) -> (r: bool)
    ensures
        r == starts_with(s@, p@),
{
    let sl = s.unicode_len();
    let pl = p.unicode_len();
    if pl > sl {
        return false;
    }
    let mut i: usize = 0;
    while i < pl
        invariant
            0 <= i <= pl,
            pl <= sl,
            sl == s@.len(),
            pl == p@.len(),
            forall|j: int| 0 <= j < i ==> s@[j] == p@[j],
        decreases pl - i,
    {
        if s.get_char(i) != p.get_char(i) {
            proof {
                assert(s@.subrange(0, p@.len() as int)[i as int] == s@[i as int]);
            }
            return false;
        }
        i += 1;
    }
    proof {
        assert(s@.subrange(0, p@.len() as int) =~= p@);
    }
    true
}

/// Whether `s` ends with the suffix `p`, decided character by character.
pub fn str_ends_with(s: &str, p: &str) -> (r: bool)
    ensures
        r == ends_with(s@, p@),
{
    let sl = s.unicode_len();
    let pl = p.unicode_len();
    if pl > sl {
        return false;
    }
    let off = sl - pl;
    let mut i: usize = 0;
    while i < pl
        invariant
            0 <= i <= pl,
            pl <= sl,
            sl == s@.len(),
            pl == p@.len(),
            off == sl - pl,
            forall|j: int| 0 <= j < i ==> s@[off + j] == p@[j],
        decreases pl - i,
    {
        if s.get_char(off + i) != p.get_char(i) {
            proof {
                assert(s@.subrange(s@.len() - p@.len(), s@.len() as int)[i as int] == s@[off + i]);
            }
            return false;
        }
        i += 1;
    }
    proof {
        assert(s@.subrange(s@.len() - p@.len(), s@.len() as int) =~= p@);
    }
    true
}

/// Whether `p` occurs at position `k` of `s`.
fn matches_at(s: &str, p: &str, k: usize) -> (r: bool)
    requires
        k + p@.len() <= s@.len(),
    ensures
        r == (s@.subrange(k as int, k + p@.len()) == p@),
{
    let sl = s.unicode_len();
    let pl = p.unicode_len();
    let mut i: usize = 0;
    while i < pl
        invariant
            0 <= i <= pl,
            sl == s@.len(),
            pl == p@.len(),
            k + pl <= sl,
            forall|j: int| 0 <= j < i ==> s@[k + j] == p@[j],
        decreases pl - i,
    {
        if s.get_char(k + i) != p.get_char(i) {
            proof {
                assert(s@.subrange(k as int, k + p@.len())[i as int] == s@[k + i]);
            }
            return false;
        }
        i += 1;
    }
    proof {
        assert(s@.subrange(k as int, k + p@.len()) =~= p@);
    }
    true
}

/// Whether `p` occurs anywhere inside `s`.
pub fn str_contains(s: &str, p: &str) -> (r: bool)
    ensures
        r == contains_sub(s@, p@),
{
    let sl = s.unicode_len();
    let pl = p.unicode_len();
    if pl > sl {
        return false;
    }
    if pl == 0 {
        proof {
            assert(s@.subrange(0, 0 + p@.len() as int) =~= p@);
        }
        return true;
    }
    let mut k: usize = 0;
    while k <= sl - pl
        invariant
            0 <= k <= sl - pl + 1,
            1 <= pl <= sl,
            sl == s@.len(),
            pl == p@.len(),
            forall|k2: int| 0 <= k2 < k ==> #[trigger] s@.subrange(k2, k2 + p@.len()) != p@,
        decreases sl - pl + 1 - k,
    {
        if matches_at(s, p, k) {
            return true;
        }
        k += 1;
    }
    false
}

/// The characters of `s` past the first `n`, as an owned string.
pub fn str_after(s: &str, n: usize) -> (r: String)
    requires
        n <= s@.len(),
    ensures
        r@ == s@.skip(n as int),
{
    let sl = s.unicode_len();
    let sub = s.substring_char(n, sl);
    proof {
        assert(sub@ =~= s@.skip(n as int));
    }
    sub.to_owned()
}

/// Every namespace separator "::" of `s` replaced by one path separator,
/// scanning left to right.
pub open spec fn replace_sep(s: Seq<char>) -> Seq<char>
    decreases s.len(),
{
    if s.len() >= 2 && s[0] == ':' && s[1] == ':' {
        seq!['/'] + replace_sep(s.skip(2))
    } else if s.len() >= 1 {
        seq![s[0]] + replace_sep(s.skip(1))
    } else {
        Seq::empty()
    }
}

/// Replaces every "::" of `s` with "/".
pub fn replace_namespace_sep(s: &str) -> (r: String)
    ensures
        r@ == replace_sep(s@),
{
    let sl = s.unicode_len();
    let mut out = String::new();
    let mut i: usize = 0;
    proof {
        assert(s@.skip(0) =~= s@);
    }
    while i < sl
        invariant
            0 <= i <= sl,
            sl == s@.len(),
            out@ + replace_sep(s@.skip(i as int)) == replace_sep(s@),
        decreases sl - i,
    {
        let ghost pre = s@.skip(i as int);
        let ghost out0 = out@;
        if i + 1 < sl && s.get_char(i) == ':' && s.get_char(i + 1) == ':' {
            proof {
                reveal_strlit("/");
                assert(pre.len() >= 2 && pre[0] == ':' && pre[1] == ':');
                assert(pre.skip(2) =~= s@.skip(i + 2));
                assert(replace_sep(pre) == seq!['/'] + replace_sep(s@.skip(i + 2)));
                assert("/"@ =~= seq!['/']);
            }
            out.append("/");
            i += 2;
            proof {
                assert(out@ + replace_sep(s@.skip(i as int)) =~= out0 + replace_sep(pre));
            }
        } else {
            let c = s.get_char(i);
            proof {
                assert(pre.len() >= 1 && pre[0] == c);
                assert(pre.skip(1) =~= s@.skip(i + 1));
                if pre.len() >= 2 && pre[0] == ':' && pre[1] == ':' {
                    assert(s@[i as int] == ':' && s@[i + 1] == ':');
                    assert(false);
                }
                assert(replace_sep(pre) == seq![c] + replace_sep(s@.skip(i + 1)));
            }
            push_char(&mut out, c);
            i += 1;
            proof {
                assert(out@ + replace_sep(s@.skip(i as int)) =~= out0 + replace_sep(pre));
            }
        }
    }
    proof {
        assert(s@.skip(sl as int) =~= Seq::<char>::empty());
        assert(out@ =~= out@ + replace_sep(s@.skip(sl as int)));
    }
    out
}

/// A path below `base`: the two joined with one separator, with an empty
/// base or a base that already ends in the separator left as they are.
pub open spec fn path_join(base: Seq<char>, rel: Seq<char>) -> Seq<char> {
    if base.len() == 0 {
        rel
    } else if base[base.len() - 1] == '/' {
        base + rel
    } else {
        base + "/"@ + rel
    }
}

/// Joins `rel` onto the directory `base`.
pub fn path_join_exec(base: &str, rel: &str) -> (r: String)
    ensures
        r@ == path_join(base@, rel@),
{
    let bl = base.unicode_len();
    if bl == 0 {
        return rel.to_owned();
    }
    let mut out = base.to_owned();
    if base.get_char(bl - 1) != '/' {
        out.append("/");
    }
    out.append(rel);
    out
}

} // verus!
