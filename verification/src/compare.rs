//! Output comparison for test cases: expected and actual output are
//! compared for exact equality after trimming whitespace from both ends.
//! Interior whitespace is never touched.

use crate::text::is_ws_char;
use vstd::prelude::*;

verus! {

/// Remove leading whitespace characters.
pub open spec fn drop_leading_ws(s: Seq<char>) -> Seq<char>
    decreases s.len(),
{
    if s.len() == 0 {
        s
    } else if is_ws_char(s[0]) {
        drop_leading_ws(s.drop_first())
    } else {
        s
    }
}

/// Remove trailing whitespace characters.
pub open spec fn drop_trailing_ws(s: Seq<char>) -> Seq<char>
    decreases s.len(),
{
    if s.len() == 0 {
        s
    } else if is_ws_char(s.last()) {
        drop_trailing_ws(s.drop_last())
    } else {
        s
    }
}

/// A string trimmed of whitespace at both edges.
pub open spec fn trim_spec(s: Seq<char>) -> Seq<char> {
    drop_trailing_ws(drop_leading_ws(s))
}

/// The leading characters dropped, and only they, are whitespace.
pub open spec fn edge_trim_witness(s: Seq<char>, k: int) -> bool {
    &&& 0 <= k <= s.len()
    &&& drop_leading_ws(s) == s.skip(k)
    &&& forall|j: int| 0 <= j < k ==> is_ws_char(#[trigger] s[j])
}

/// Dropping leading whitespace leaves some suffix of the original, and
/// everything dropped before it is whitespace.
pub proof fn lemma_drop_leading_is_suffix(s: Seq<char>)
    ensures
        exists|k: int| #[trigger] edge_trim_witness(s, k),
    decreases s.len(),
{
    if s.len() == 0 {
        assert(s.skip(0) =~= s);
        assert(edge_trim_witness(s, 0));
    } else if is_ws_char(s[0]) {
        lemma_drop_leading_is_suffix(s.drop_first());
        let k = choose|k: int| #[trigger] edge_trim_witness(s.drop_first(), k);
        assert(s.drop_first().skip(k) =~= s.skip(k + 1));
        assert(edge_trim_witness(s, k + 1)) by {
            assert forall|j: int| 0 <= j < k + 1 implies is_ws_char(#[trigger] s[j]) by {
                if j > 0 {
                    assert(s[j] == s.drop_first()[j - 1]);
                }
            }
        }
    } else {
        assert(s.skip(0) =~= s);
        assert(edge_trim_witness(s, 0));
    }
}

/// The trailing characters dropped, and only they, are whitespace.
pub open spec fn tail_trim_witness(s: Seq<char>, k: int) -> bool {
    &&& 0 <= k <= s.len()
    &&& drop_trailing_ws(s) == s.take(k)
    &&& forall|j: int| k <= j < s.len() ==> is_ws_char(#[trigger] s[j])
}

/// Dropping trailing whitespace leaves some prefix of the original, and
/// everything dropped behind it is whitespace.
pub proof fn lemma_drop_trailing_is_prefix(s: Seq<char>)
    ensures
        exists|k: int| #[trigger] tail_trim_witness(s, k),
    decreases s.len(),
{
    if s.len() == 0 {
        assert(s.take(0) =~= s);
        assert(tail_trim_witness(s, 0));
    } else if is_ws_char(s.last()) {
        lemma_drop_trailing_is_prefix(s.drop_last());
        let k = choose|k: int| #[trigger] tail_trim_witness(s.drop_last(), k);
        assert(s.drop_last().take(k) =~= s.take(k));
        assert(tail_trim_witness(s, k)) by {
            assert forall|j: int| k <= j < s.len() implies is_ws_char(#[trigger] s[j]) by {
                if j < s.len() - 1 {
                    assert(s[j] == s.drop_last()[j]);
                }
            }
        }
    } else {
        assert(s.take(s.len() as int) =~= s);
        assert(tail_trim_witness(s, s.len() as int));
    }
}

/// Trimming is edge-insensitive and nothing more: the trimmed string is a
/// contiguous subrange of the original, every character cut before it and
/// behind it is whitespace, and the interior is kept exactly as written.
pub proof fn lemma_trim_is_edge_subrange(s: Seq<char>)
    ensures
        exists|i: int, j: int|
            0 <= i <= j <= s.len() && trim_spec(s) == s.subrange(i, j) && (forall|k: int|
                0 <= k < i ==> is_ws_char(#[trigger] s[k])) && (forall|k: int|
                j <= k < s.len() ==> is_ws_char(#[trigger] s[k])),
{
    lemma_drop_leading_is_suffix(s);
    let k = choose|k: int| #[trigger] edge_trim_witness(s, k);
    let t = s.skip(k);
    lemma_drop_trailing_is_prefix(t);
    let m = choose|m: int| #[trigger] tail_trim_witness(t, m);
    assert(t.take(m) =~= s.subrange(k, k + m));
    assert(trim_spec(s) == s.subrange(k, k + m));
    assert forall|x: int| k + m <= x < s.len() implies is_ws_char(#[trigger] s[x]) by {
        assert(s[x] == t[x - k]);
    }
}

/// Trim whitespace from both ends of a string slice.
pub fn trim_ws(s: &str) -> (r: &str)
    ensures
        r@ == trim_spec(s@),
{
    let len = s.unicode_len();
    let mut start: usize = 0;
    proof {
        assert(s@.skip(0) =~= s@);
    }
    loop
        invariant
            0 <= start <= len,
            len == s@.len(),
            drop_leading_ws(s@) == drop_leading_ws(s@.skip(start as int)),
        ensures
            0 <= start <= len,
            drop_leading_ws(s@) == drop_leading_ws(s@.skip(start as int)),
            start == len || !is_ws_char(s@[start as int]),
        decreases len - start,
    {
        if start >= len {
            break;
        }
        let c = s.get_char(start);
        if !crate::text::is_ws_char_exec(c) {
            break;
        }
        proof {
            assert(s@.skip(start as int)[0] == s@[start as int]);
            assert(s@.skip(start as int).drop_first() =~= s@.skip(start + 1));
        }
        start += 1;
    }
    let ghost t = s@.skip(start as int);
    proof {
        if start < len {
            assert(t[0] == s@[start as int]);
            assert(drop_leading_ws(t) == t);
        } else {
            assert(t =~= Seq::<char>::empty());
        }
    }
    let mut end: usize = len;
    proof {
        assert(t.take(len - start) =~= t);
    }
    loop
        invariant
            start <= end <= len,
            len == s@.len(),
            t == s@.skip(start as int),
            drop_trailing_ws(t) == drop_trailing_ws(t.take(end - start)),
        ensures
            start <= end <= len,
            drop_trailing_ws(t) == drop_trailing_ws(t.take(end - start)),
            end == start || !is_ws_char(s@[end - 1]),
        decreases end,
    {
        if end <= start {
            break;
        }
        let c = s.get_char(end - 1);
        if !crate::text::is_ws_char_exec(c) {
            break;
        }
        proof {
            let u = t.take(end - start);
            assert(u.last() == s@[end - 1]);
            assert(u.drop_last() =~= t.take(end - 1 - start));
        }
        end -= 1;
    }
    proof {
        let u = t.take(end - start);
        if end > start {
            assert(u.last() == s@[end - 1]);
            assert(drop_trailing_ws(u) == u);
        } else {
            assert(u =~= Seq::<char>::empty());
        }
        assert(trim_spec(s@) == t.take(end - start));
        assert(t.take(end - start) =~= s@.subrange(start as int, end as int));
    }
    s.substring_char(start, end)
}

/// Trim whitespace from the end of a string slice alone.
pub fn trim_end_ws(s: &str) -> (r: &str)
    ensures
        r@ == drop_trailing_ws(s@),
{
    let len = s.unicode_len();
    let mut end: usize = len;
    proof {
        assert(s@.take(len as int) =~= s@);
    }
    loop
        invariant
            0 <= end <= len,
            len == s@.len(),
            drop_trailing_ws(s@) == drop_trailing_ws(s@.take(end as int)),
        ensures
            0 <= end <= len,
            drop_trailing_ws(s@) == drop_trailing_ws(s@.take(end as int)),
            end == 0 || !is_ws_char(s@[end - 1]),
        decreases end,
    {
        if end == 0 {
            break;
        }
        let c = s.get_char(end - 1);
        if !crate::text::is_ws_char_exec(c) {
            break;
        }
        proof {
            let u = s@.take(end as int);
            assert(u.last() == s@[end - 1]);
            assert(u.drop_last() =~= s@.take(end - 1));
        }
        end -= 1;
    }
    proof {
        let u = s@.take(end as int);
        if end > 0 {
            assert(u.last() == s@[end - 1]);
            assert(drop_trailing_ws(u) == u);
        } else {
            assert(u =~= Seq::<char>::empty());
        }
    }
    s.substring_char(0, end)
}

/// Character-for-character equality of two string slices.
pub fn str_eq(a: &str, b: &str) -> (r: bool)
    ensures
        r == (a@ == b@),
{
    let a_len = a.unicode_len();
    let b_len = b.unicode_len();
    if a_len != b_len {
        return false;
    }
    let mut i: usize = 0;
    while i < a_len
        invariant
            0 <= i <= a_len,
            a_len == a@.len(),
            a_len == b@.len(),
            forall|j: int| 0 <= j < i ==> a@[j] == b@[j],
        decreases a_len - i,
    {
        if a.get_char(i) != b.get_char(i) {
            return false;
        }
        i += 1;
    }
    proof {
        assert(a@ =~= b@);
    }
    true
}

/// Compare a solution's output against the expected output. The two match
/// exactly when they are equal after trimming whitespace from the edges of
/// each; interior whitespace must agree exactly.
pub fn outputs_match(expected: &str, actual: &str) -> (r: bool)
    ensures
        r == (trim_spec(expected@) == trim_spec(actual@)),
{
    let te = trim_ws(expected);
    let ta = trim_ws(actual);
    str_eq(te, ta)
}

} // verus!
