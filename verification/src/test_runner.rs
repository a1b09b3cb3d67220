use vstd::prelude::*;

use crate::text::{ends_with, push_char, str_ends_with};

verus! {

// Check-mode core: the freshly generated transcript is held against the
// stored expectation; any byte difference fails the file, and a
// line-level diff is rendered for diagnosis.

/// How one line of the diff relates the two texts.
#[derive(Clone, Copy, Debug, PartialEq, Eq, Structural)]
pub enum DiffTag {
    /// The line is common to both texts.
    Equal,
    /// The line is in the generated text only.
    Delete,
    /// The line is in the expectation only.
    Insert,
}

/// One line of the rendered diff: its tag, its line index on each side
/// where it has one, and the line's text.
#[derive(Clone, Debug)]
pub struct DiffChange {
    pub tag: DiffTag,
    pub old_index: Option<usize>,
    pub new_index: Option<usize>,
    pub text: String,
}

/// The sign that marks a diff line of this tag.
pub open spec fn tag_sign(tag: DiffTag) -> char {
    match tag {
        DiffTag::Equal => ' ',
        DiffTag::Delete => '-',
        DiffTag::Insert => '+',
    }
}

/// The mathematical value of one diff line: sign, indices, text.
pub open spec fn change_view(c: DiffChange) -> (char, Option<usize>, Option<usize>, Seq<char>) {
    (tag_sign(c.tag), c.old_index, c.new_index, c.text@)
}

/// The mathematical value of a list of diff lines.
pub open spec fn changes_view(cs: Seq<DiffChange>) -> Seq<
    (char, Option<usize>, Option<usize>, Seq<char>),
> {
    cs.map_values(|c: DiffChange| change_view(c))
}

/// What similar's line diff of two texts is; the diff depends on the two
/// texts alone.
pub uninterp spec fn line_diff_of(old_text: Seq<char>, new_text: Seq<char>) -> Seq<
    (char, Option<usize>, Option<usize>, Seq<char>),
>;

/// Relies on similar::TextDiff::from_lines and its iter_all_changes: a
/// line-level diff of the two texts, each change tagged as equal,
/// deleted from the old side or inserted on the new side, with the
/// change's line index on each side where it has one.
#[verifier::external_body]
pub fn diff_lines(old_text: &String, new_text: &String) -> (r: Vec<DiffChange>)
    ensures
        changes_view(r@) == line_diff_of(old_text@, new_text@),
{
    let diff = similar::TextDiff::from_lines(old_text.as_str(), new_text.as_str());
    diff.iter_all_changes().map(
        |c: similar::Change<&str>| DiffChange {
            tag: match c.tag() {
                similar::ChangeTag::Equal => DiffTag::Equal,
                similar::ChangeTag::Delete => DiffTag::Delete,
                similar::ChangeTag::Insert => DiffTag::Insert,
            },
            old_index: c.old_index(),
            new_index: c.new_index(),
            text: c.value().to_owned(),
        },
    ).collect()
}

/// The character of a decimal digit.
pub open spec fn digit_char(d: nat) -> char {
    if d == 0 {
        '0'
    } else if d == 1 {
        '1'
    } else if d == 2 {
        '2'
    } else if d == 3 {
        '3'
    } else if d == 4 {
        '4'
    } else if d == 5 {
        '5'
    } else if d == 6 {
        '6'
    } else if d == 7 {
        '7'
    } else if d == 8 {
        '8'
    } else {
        '9'
    }
}

/// The decimal digits of `n`, most significant first.
pub open spec fn dec_digits(n: nat) -> Seq<char>
    decreases n,
{
    if n < 10 {
        seq![digit_char(n)]
    } else {
        dec_digits(n / 10).push(digit_char(n % 10))
    }
}

/// `s` padded on the right with spaces to at least four characters.
pub open spec fn pad4(s: Seq<char>) -> Seq<char>
    decreases 4 - s.len(),
{
    if s.len() >= 4 {
        s
    } else {
        pad4(s.push(' '))
    }
}

/// The four-column label of a line index: the one-based line number,
/// left-aligned, or four spaces where the side has no line.
pub open spec fn line_label(idx: Option<usize>) -> Seq<char> {
    match idx {
        None => "    "@,
        Some(i) => pad4(dec_digits(i as nat + 1)),
    }
}

/// The character of one decimal digit.
fn digit_of(d: usize) -> (c: char)
    requires
        d < 10,
    ensures
        c == digit_char(d as nat),
{
    match d {
        0 => '0',
        1 => '1',
        2 => '2',
        3 => '3',
        4 => '4',
        5 => '5',
        6 => '6',
        7 => '7',
        8 => '8',
        _ => '9',
    }
}

/// The decimal rendering of `n`.
fn dec_string(n: usize) -> (r: String)
    ensures
        r@ == dec_digits(n as nat),
    decreases n,
{
    if n < 10 {
        let mut s = String::new();
        push_char(&mut s, digit_of(n));
        proof {
            assert(s@ =~= seq![digit_char(n as nat)]);
        }
        s
    } else {
        let mut s = dec_string(n / 10);
        push_char(&mut s, digit_of(n % 10));
        s
    }
}

/// Renders the four-column label of a line index: the one-based line
/// number left-aligned in four columns, or four spaces for no line.
pub fn render_line_number(idx: Option<usize>) -> (r: String)
    requires
        idx matches Some(i) ==> i < usize::MAX,
    ensures
        r@ == line_label(idx),
{
    match idx {
        None => "    ".to_owned(),
        Some(i) => {
            let mut s = dec_string(i + 1);
            let mut n = s.as_str().unicode_len();
            while n < 4
                invariant
                    n == s@.len(),
                    pad4(s@) == line_label(Some(i)),
                decreases 4 - n,
            {
                push_char(&mut s, ' ');
                n += 1;
            }
            s
        },
    }
}

/// One rendered diff line: the old and new line labels, a space, the
/// tag's sign, and the line's text.
pub open spec fn render_change(c: (char, Option<usize>, Option<usize>, Seq<char>)) -> Seq<char> {
    line_label(c.1) + line_label(c.2) + " "@ + seq![c.0] + c.3
}

/// Renders one diff line for display.
pub fn render_diff_line(change: &DiffChange) -> (r: String)
    requires
        change.old_index matches Some(i) ==> i < usize::MAX,
        change.new_index matches Some(i) ==> i < usize::MAX,
    ensures
        r@ == render_change(change_view(*change)),
{
    let mut r = render_line_number(change.old_index);
    let new_label = render_line_number(change.new_index);
    r.append(new_label.as_str());
    r.append(" ");
    let sign = match change.tag {
        DiffTag::Equal => ' ',
        DiffTag::Delete => '-',
        DiffTag::Insert => '+',
    };
    push_char(&mut r, sign);
    r.append(change.text.as_str());
    proof {
        assert(r@ =~= render_change(change_view(*change)));
    }
    r
}

/// Whether the generated transcript matches the stored expectation, byte
/// for byte; any difference, visible in the diff or not, is a mismatch.
pub fn transcripts_match(generated: &String, expected: &String) -> (r: bool)
    ensures
        r == (generated@ == expected@),
{
    generated.eq(expected)
}

/// The logical test name of a file name: the test suffix stripped and
/// path separators replaced by underscores.
pub open spec fn check_name_of(file_name: Seq<char>) -> Seq<char> {
    file_name.take(file_name.len() - ".yml"@.len()).map_values(
        |c: char|
            if c == '/' {
                '_'
            } else {
                c
            },
    )
}

/// The test name under which a discovered file runs in check mode, or
/// nothing where the file name does not carry the test suffix.
pub fn check_test_name(file_name: &String) -> (r: Option<String>)
    ensures
        match r {
            Some(n) => ends_with(file_name@, ".yml"@) && n@ == check_name_of(file_name@),
            None => !ends_with(file_name@, ".yml"@),
        },
{
    if !str_ends_with(file_name.as_str(), ".yml") {
        return None;
    }
    proof {
        reveal_strlit(".yml");
    }
    let len = file_name.as_str().unicode_len();
    let stem_len = len - 4;
    let mut out = String::new();
    let mut i: usize = 0;
    while i < stem_len
        invariant
            0 <= i <= stem_len,
            stem_len == file_name@.len() - ".yml"@.len(),
            out@ =~= check_name_of(file_name@).take(i as int),
        decreases stem_len - i,
    {
        let c = file_name.as_str().get_char(i);
        let mapped = if c == '/' {
            '_'
        } else {
            c
        };
        push_char(&mut out, mapped);
        i += 1;
        proof {
            assert(out@ =~= check_name_of(file_name@).take(i as int));
        }
    }
    proof {
        assert(check_name_of(file_name@).take(stem_len as int) =~= check_name_of(file_name@));
    }
    Some(out)
}

} // verus!
