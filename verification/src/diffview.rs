//! Line-level diff rendering for a failing test case: the expected and
//! actual outputs are diffed line by line, and each change is rendered
//! with a three-column 1-based line number (counted in the actual
//! output, blank for a pure deletion), a separator, a leading sigil
//! (`+`, `-` or a space) and the line's text. Purely presentation: the
//! pass/fail verdict never depends on it.

use crate::compare::{drop_trailing_ws, trim_spec, trim_ws};
use crate::text::{dec_str, push_dec};
use similar::{ChangeTag, TextDiff};
use vstd::prelude::*;

verus! {

/// The kind of one diff change line.
#[derive(Debug, Clone, Copy, PartialEq, Eq, Structural)]
pub enum DiffTag {
    /// the line is unchanged
    Equal,
    /// the line is in the expected output only
    Delete,
    /// the line is in the actual output only
    Insert,
}

/// One line-level change of a diff.
#[derive(Debug)]
pub struct DiffChange {
    pub tag: DiffTag,
    /// 0-based line number in the actual output; absent for deletions
    pub new_index: Option<usize>,
    /// the line's text, with its line ending
    pub text: String,
}

/// The line diff of two texts: tagged segments in order, each with its
/// position in the new text where it has one. Depends on the two texts
/// alone.
pub uninterp spec fn line_changes(expected: Seq<char>, actual: Seq<char>) -> Seq<
    (DiffTag, Option<usize>, Seq<char>),
>;

/// Relies on `similar::TextDiff::from_lines` and `iter_all_changes`: the
/// line-level diff of the two texts, a function of the texts alone.
#[verifier::external_body]
fn diff_lines(expected: &str, actual: &str) -> (r: Vec<DiffChange>)
    ensures
        r@.map_values(|c: DiffChange| (c.tag, c.new_index, c.text@)) == line_changes(
            expected@,
            actual@,
        ),
{
    let diff = TextDiff::from_lines(expected, actual);
    diff.iter_all_changes().map(|c| DiffChange {
        tag: match c.tag() {
            ChangeTag::Equal => DiffTag::Equal,
            ChangeTag::Delete => DiffTag::Delete,
            ChangeTag::Insert => DiffTag::Insert,
        },
        new_index: c.new_index(),
        text: c.as_str().unwrap_or("").to_string(),
    }).collect()
}

/// The number column: the 1-based line number, empty when there is none.
pub open spec fn num_field(new_index: Option<usize>) -> Seq<char> {
    match new_index {
        Some(i) => dec_str(i as int + 1),
        None => Seq::empty(),
    }
}

/// A field padded with spaces to at least three columns.
pub open spec fn pad3(s: Seq<char>) -> Seq<char> {
    if s.len() >= 3 {
        s
    } else {
        s + Seq::new((3 - s.len()) as nat, |i: int| ' ')
    }
}

/// The sigil marking a change's kind.
pub open spec fn sigil(tag: DiffTag) -> Seq<char> {
    match tag {
        DiffTag::Equal => " "@,
        DiffTag::Delete => "-"@,
        DiffTag::Insert => "+"@,
    }
}

/// The rendering of one change: padded number column, separator, sigil,
/// then the line without its trailing line break.
pub open spec fn rendered_change(c: (DiffTag, Option<usize>, Seq<char>)) -> Seq<char> {
    pad3(num_field(c.1)) + "| "@ + sigil(c.0) + drop_trailing_ws(c.2)
}

/// Render one change line.
fn render_change(c: &DiffChange) -> (r: String)
    ensures
        r@ == rendered_change((c.tag, c.new_index, c.text@)),
{
    let mut line = String::new();
    if let Some(i) = c.new_index {
        push_dec(&mut line, i as u128 + 1);
    }
    let ghost nf = line@;
    proof {
        assert(nf == num_field(c.new_index));
        assert(line@ =~= nf + Seq::new(0nat, |k: int| ' '));
        reveal_strlit(" ");
        assert(" "@ =~= seq![' ']);
    }
    let mut n = line.as_str().unicode_len();
    while n < 3
        invariant
            n == line@.len(),
            n >= nf.len(),
            n <= vstd::math::max(3, nf.len() as int),
            line@ == nf + Seq::new((n - nf.len()) as nat, |k: int| ' '),
            " "@ =~= seq![' '],
        decreases 3 - n,
    {
        line.append(" ");
        proof {
            assert(line@ =~= nf + Seq::new((n + 1 - nf.len()) as nat, |k: int| ' '));
        }
        n += 1;
    }
    proof {
        assert(line@ =~= pad3(nf));
    }
    line.append("| ");
    match c.tag {
        DiffTag::Equal => line.append(" "),
        DiffTag::Delete => line.append("-"),
        DiffTag::Insert => line.append("+"),
    }
    let text = crate::compare::trim_end_ws(c.text.as_str());
    line.append(text);
    line
}

/// Render the diff a failing case shows: the expected and actual outputs
/// are trimmed at the edges — exactly as the comparison trims them —
/// diffed line by line, and each change rendered in order.
pub fn render_diff(expected: &str, actual: &str) -> (r: Vec<String>)
    ensures
        r@.map_values(|s: String| s@) == line_changes(
            trim_spec(expected@),
            trim_spec(actual@),
        ).map_values(|c: (DiffTag, Option<usize>, Seq<char>)| rendered_change(c)),
{
    let changes = diff_lines(trim_ws(expected), trim_ws(actual));
    let ghost cs = changes@.map_values(|c: DiffChange| (c.tag, c.new_index, c.text@));
    let mut out: Vec<String> = Vec::new();
    let mut k: usize = 0;
    while k < changes.len()
        invariant
            0 <= k <= changes@.len(),
            cs == changes@.map_values(|c: DiffChange| (c.tag, c.new_index, c.text@)),
            cs == line_changes(trim_spec(expected@), trim_spec(actual@)),
            out@.len() == k,
            forall|i: int| 0 <= i < k ==> (#[trigger] out@[i])@ == rendered_change(cs[i]),
        decreases changes@.len() - k,
    {
        let line = render_change(&changes[k]);
        out.push(line);
        proof {
            let ck = changes@[k as int];
            assert(cs[k as int] == (ck.tag, ck.new_index, ck.text@));
        }
        k += 1;
    }
    proof {
        let rendered = cs.map_values(|c: (DiffTag, Option<usize>, Seq<char>)| rendered_change(c));
        assert forall|i: int|
            0 <= i < cs.len() implies out@.map_values(|s: String| s@)[i] == rendered[i] by {
            assert(out@[i]@ == rendered_change(cs[i]));
        }
        assert(out@.map_values(|s: String| s@) =~= rendered);
    }
    out
}

} // verus!
