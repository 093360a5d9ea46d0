//! Character and string helpers shared by the rest of the library:
//! ASCII case folding, whitespace classification, decimal rendering and
//! parsing of small decimal numbers.

use vstd::prelude::*;

verus! {

/// ASCII-lowercase a single character; everything outside `A..=Z` is kept.
pub open spec fn lower_char(c: char) -> char {
    if 'A' <= c && c <= 'Z' {
        ((c as u32 + 32) as u8) as char
    } else {
        c
    }
}

/// ASCII-lowercase every character of a sequence.
pub open spec fn lower_seq(s: Seq<char>) -> Seq<char> {
    s.map_values(|c: char| lower_char(c))
}

/// The whitespace characters trimmed at output edges: the ASCII whitespace
/// set (space, tab, line feed, vertical tab, form feed, carriage return).
pub open spec fn is_ws_char(c: char) -> bool {
    c == ' ' || c == '\t' || c == '\n' || c == '\u{b}' || c == '\u{c}' || c == '\r'
}

/// Decimal digit?
pub open spec fn is_digit_char(c: char) -> bool {
    '0' <= c && c <= '9'
}

/// Numeric value of a decimal digit.
pub open spec fn digit_val(c: char) -> int {
    c as u32 - 48
}

/// The digit character for a value in `0..=9`.
pub open spec fn digit_char(d: int) -> char {
    ((d + 48) as u8) as char
}

/// Decimal rendering of a non-negative integer, without sign or padding.
pub open spec fn dec_str(n: int) -> Seq<char>
    decreases n,
{
    if n < 0 {
        Seq::empty()
    } else if n < 10 {
        seq![digit_char(n)]
    } else {
        dec_str(n / 10).push(digit_char(n % 10))
    }
}

/// Value of a sequence of decimal digits (most significant first),
/// ignoring whether it is empty.
pub open spec fn dec_value(s: Seq<char>) -> int
    decreases s.len(),
{
    if s.len() == 0 {
        0
    } else {
        dec_value(s.drop_last()) * 10 + digit_val(s.last())
    }
}

/// All characters are decimal digits.
pub open spec fn all_digits(s: Seq<char>) -> bool {
    forall|i: int| 0 <= i < s.len() ==> is_digit_char(#[trigger] s[i])
}

/// Lowercasing leaves a sequence without ASCII uppercase letters unchanged.
pub proof fn lemma_lower_seq_id(s: Seq<char>)
    requires
        forall|i: int| 0 <= i < s.len() ==> !('A' <= #[trigger] s[i] && s[i] <= 'Z'),
    ensures
        lower_seq(s) == s,
{
    assert(lower_seq(s) =~= s);
}

/// Whitespace test matching `is_ws_char`.
pub fn is_ws_char_exec(c: char) -> (r: bool)
    ensures
        r == is_ws_char(c),
{
    c == ' ' || c == '\t' || c == '\n' || c == '\u{b}' || c == '\u{c}' || c == '\r'
}

/// Lowercase one character.
pub fn lower_char_exec(c: char) -> (r: char)
    ensures
        r == lower_char(c),
{
    if 'A' <= c && c <= 'Z' {
        (c as u32 + 32) as u8 as char
    } else {
        c
    }
}

/// Case-insensitive (ASCII) equality of two string slices.
pub fn eq_ignore_ascii_case(a: &str, b: &str) -> (r: bool)
    ensures
        r == (lower_seq(a@) == lower_seq(b@)),
{
    let a_len = a.unicode_len();
    let b_len = b.unicode_len();
    if a_len != b_len {
        assert(lower_seq(a@).len() != lower_seq(b@).len());
        return false;
    }
    let mut i: usize = 0;
    while i < a_len
        invariant
            i <= a_len,
            a_len == a@.len(),
            a_len == b@.len(),
            forall|j: int| 0 <= j < i ==> lower_char(a@[j]) == lower_char(b@[j]),
        decreases a_len - i,
    {
        let ca = a.get_char(i);
        let cb = b.get_char(i);
        if lower_char_exec(ca) != lower_char_exec(cb) {
            assert(lower_seq(a@)[i as int] != lower_seq(b@)[i as int]);
            return false;
        }
        i += 1;
    }
    assert(lower_seq(a@) =~= lower_seq(b@));
    true
}

/// Split a sequence at the first occurrence of `sep`: the part before
/// and the part after, the separator itself in neither. `None` when the
/// separator does not occur.
pub open spec fn split_at_char(s: Seq<char>, sep: char) -> Option<(Seq<char>, Seq<char>)>
    decreases s.len(),
{
    if s.len() == 0 {
        None
    } else if s[0] == sep {
        Some((Seq::empty(), s.drop_first()))
    } else {
        match split_at_char(s.drop_first(), sep) {
            None => None,
            Some((before, after)) => Some((seq![s[0]] + before, after)),
        }
    }
}

/// Splitting at the separator found by a left-to-right search.
pub proof fn lemma_split_at_char_found(s: Seq<char>, sep: char, i: int)
    requires
        0 <= i < s.len(),
        s[i] == sep,
        forall|j: int| 0 <= j < i ==> s[j] != sep,
    ensures
        split_at_char(s, sep) == Some((s.take(i), s.skip(i + 1))),
    decreases i,
{
    if i == 0 {
        assert(s.take(0) =~= Seq::<char>::empty());
        assert(s.skip(1) =~= s.drop_first());
    } else {
        assert(s.drop_first()[i - 1] == s[i]);
        assert forall|j: int| 0 <= j < i - 1 implies s.drop_first()[j] != sep by {
            assert(s.drop_first()[j] == s[j + 1]);
        }
        lemma_split_at_char_found(s.drop_first(), sep, i - 1);
        assert(seq![s[0]] + s.drop_first().take(i - 1) =~= s.take(i));
        assert(s.drop_first().skip(i) =~= s.skip(i + 1));
    }
}

/// A sequence without the separator does not split.
pub proof fn lemma_split_at_char_none(s: Seq<char>, sep: char)
    requires
        forall|j: int| 0 <= j < s.len() ==> s[j] != sep,
    ensures
        split_at_char(s, sep) is None,
    decreases s.len(),
{
    if s.len() > 0 {
        assert forall|j: int| 0 <= j < s.drop_first().len() implies s.drop_first()[j] != sep by {
            assert(s.drop_first()[j] == s[j + 1]);
        }
        lemma_split_at_char_none(s.drop_first(), sep);
    }
}

/// Find the first occurrence of `sep`, and with it the exec form of
/// [`split_at_char`]: the index of the separator, or `None`.
pub fn find_char(s: &str, sep: char) -> (r: Option<usize>)
    ensures
        r matches Some(i) ==> i < s@.len() && s@[i as int] == sep && (forall|j: int|
            0 <= j < i ==> s@[j] != sep) && split_at_char(s@, sep) == Some((
            s@.take(i as int),
            s@.skip(i as int + 1),
        )),
        r is None ==> split_at_char(s@, sep) is None,
{
    let len = s.unicode_len();
    let mut i: usize = 0;
    while i < len
        invariant
            0 <= i <= len,
            len == s@.len(),
            forall|j: int| 0 <= j < i ==> s@[j] != sep,
        decreases len - i,
    {
        if s.get_char(i) == sep {
            proof {
                lemma_split_at_char_found(s@, sep, i as int);
            }
            return Some(i);
        }
        i += 1;
    }
    proof {
        lemma_split_at_char_none(s@, sep);
    }
    None
}

/// A sequence of digits has a non-negative value.
pub proof fn lemma_dec_value_nonneg(s: Seq<char>)
    requires
        all_digits(s),
    ensures
        dec_value(s) >= 0,
    decreases s.len(),
{
    if s.len() > 0 {
        assert(all_digits(s.drop_last()));
        lemma_dec_value_nonneg(s.drop_last());
    }
}

/// The value of a digit string only grows as digits are appended.
pub proof fn lemma_dec_value_prefix(s: Seq<char>, k: int)
    requires
        all_digits(s),
        0 <= k <= s.len(),
    ensures
        dec_value(s.take(k)) <= dec_value(s),
    decreases s.len() - k,
{
    if k < s.len() {
        assert(s.take(k + 1).drop_last() =~= s.take(k));
        assert(all_digits(s.take(k)));
        lemma_dec_value_nonneg(s.take(k));
        assert(dec_value(s.take(k + 1)) == dec_value(s.take(k)) * 10 + digit_val(s.take(k + 1).last()));
        lemma_dec_value_prefix(s, k + 1);
    } else {
        assert(s.take(k) =~= s);
    }
}

/// Append the digit character for `d` to a string.
fn push_digit(s: &mut String, d: u8)
    requires
        d < 10,
    ensures
        final(s)@ == old(s)@ + seq![digit_char(d as int)],
{
    match d {
        0 => {
            proof { reveal_strlit("0"); }
            assert("0"@ =~= seq![digit_char(0)]);
            s.append("0");
        },
        1 => {
            proof { reveal_strlit("1"); }
            assert("1"@ =~= seq![digit_char(1)]);
            s.append("1");
        },
        2 => {
            proof { reveal_strlit("2"); }
            assert("2"@ =~= seq![digit_char(2)]);
            s.append("2");
        },
        3 => {
            proof { reveal_strlit("3"); }
            assert("3"@ =~= seq![digit_char(3)]);
            s.append("3");
        },
        4 => {
            proof { reveal_strlit("4"); }
            assert("4"@ =~= seq![digit_char(4)]);
            s.append("4");
        },
        5 => {
            proof { reveal_strlit("5"); }
            assert("5"@ =~= seq![digit_char(5)]);
            s.append("5");
        },
        6 => {
            proof { reveal_strlit("6"); }
            assert("6"@ =~= seq![digit_char(6)]);
            s.append("6");
        },
        7 => {
            proof { reveal_strlit("7"); }
            assert("7"@ =~= seq![digit_char(7)]);
            s.append("7");
        },
        8 => {
            proof { reveal_strlit("8"); }
            assert("8"@ =~= seq![digit_char(8)]);
            s.append("8");
        },
        _ => {
            proof { reveal_strlit("9"); }
            assert("9"@ =~= seq![digit_char(9)]);
            s.append("9");
        },
    }
}

/// Append the decimal rendering of `n` to a string.
pub fn push_dec(s: &mut String, n: u128)
    ensures
        final(s)@ == old(s)@ + dec_str(n as int),
    decreases n,
{
    if n >= 10 {
        push_dec(s, n / 10);
    }
    push_digit(s, (n % 10) as u8);
    proof {
        if n < 10 {
            assert(dec_str(n as int) =~= seq![digit_char(n as int % 10)]);
        } else {
            assert(old(s)@ + dec_str((n / 10) as int) + seq![digit_char(n as int % 10)]
                =~= old(s)@ + dec_str(n as int));
        }
    }
}

/// Decimal rendering of an unsigned number.
pub fn u64_to_string(n: u64) -> (r: String)
    ensures
        r@ == dec_str(n as int),
{
    let mut s = String::new();
    push_dec(&mut s, n as u128);
    proof {
        assert(Seq::<char>::empty() + dec_str(n as int) =~= dec_str(n as int));
    }
    s
}

/// What parsing a small decimal number yields: the value of a non-empty
/// all-digit string that fits, and `None` for anything else.
pub open spec fn parsed_u8(s: Seq<char>) -> Option<u8> {
    if s.len() > 0 && all_digits(s) && dec_value(s) <= 255 {
        Some(dec_value(s) as u8)
    } else {
        None
    }
}

/// Parse a small decimal number written with digits alone: no sign, no
/// surrounding space. Any other text, and any value above 255, is `None`.
pub fn parse_u8(s: &str) -> (r: Option<u8>)
    ensures
        r == parsed_u8(s@),
{
    let len = s.unicode_len();
    if len == 0 {
        return None;
    }
    let mut acc: u32 = 0;
    let mut i: usize = 0;
    while i < len
        invariant
            0 <= i <= len,
            len == s@.len(),
            all_digits(s@.take(i as int)),
            acc == dec_value(s@.take(i as int)),
            acc <= 255,
        decreases len - i,
    {
        let c = s.get_char(i);
        if !('0' <= c && c <= '9') {
            assert(!all_digits(s@)) by {
                assert(!is_digit_char(s@[i as int]));
            }
            return None;
        }
        proof {
            assert(s@.take(i + 1).drop_last() =~= s@.take(i as int));
            assert(s@.take(i + 1).last() == s@[i as int]);
        }
        acc = acc * 10 + (c as u32 - 48);
        let ghost iplus = i + 1;
        assert(acc == dec_value(s@.take(iplus as int)));
        if acc > 255 {
            proof {
                if all_digits(s@) {
                    lemma_dec_value_prefix(s@, iplus as int);
                }
            }
            return None;
        }
        i += 1;
    }
    proof {
        assert(s@.take(len as int) =~= s@);
    }
    Some(acc as u8)
}

} // verus!
