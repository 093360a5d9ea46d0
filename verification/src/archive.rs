//! Reading official test-case data out of a downloaded zip archive.
//!
//! An archive pairs input and output files under one of two naming
//! conventions: a newer `{N}.in` / `{N}.out` form, and an older
//! `I.{N}` / `O.{N}` form. Which convention is in use, and how many cases
//! there are, is detected from the entry names: the count is the highest
//! index seen. Cases whose two files are both present and readable are
//! returned in index order.

use crate::problem::TestCase;
use crate::text::{dec_str, parsed_u8};
use std::io::Cursor;
use std::io::Read;
use vstd::prelude::*;
use zip::result::ZipError;
use zip::ZipArchive;

verus! {

#[verifier::external_type_specification]
#[verifier::external_body]
#[verifier::reject_recursive_types(T)]
pub struct ExCursor<T>(Cursor<T>);

#[verifier::external_type_specification]
#[verifier::external_body]
#[verifier::reject_recursive_types(R)]
pub struct ExZipArchive<R>(ZipArchive<R>);

#[verifier::external_type_specification]
#[verifier::external_body]
pub struct ExZipError(ZipError);

/// What an archive holds: the names of its entries, in central-directory
/// order.
pub uninterp spec fn zip_entry_names(a: ZipArchive<Cursor<Vec<u8>>>) -> Seq<Seq<char>>;

/// The text of the named entry: `None` when no such entry exists or its
/// contents are not readable text.
pub uninterp spec fn zip_entry_text(a: ZipArchive<Cursor<Vec<u8>>>, name: Seq<char>) -> Option<
    Seq<char>,
>;

/// The entry names of the archive these bytes describe, in
/// central-directory order — `None` when the bytes are no readable
/// archive. A function of the bytes alone.
pub uninterp spec fn zip_names_of(bytes: Seq<u8>) -> Option<Seq<Seq<char>>>;

/// The text of the named entry of the archive these bytes describe:
/// `None` when the entry is absent or not readable text. A function of
/// the bytes alone.
pub uninterp spec fn zip_text_of(bytes: Seq<u8>, name: Seq<char>) -> Option<Seq<char>>;

/// Relies on `zip::ZipArchive::new` under its default configuration: a
/// deterministic read of the central directory, so success, the entry
/// names and each entry's text are functions of the bytes alone; the
/// returned archive holds exactly what the bytes describe.
#[verifier::external_body]
fn zip_open(bytes: Vec<u8>) -> (r: Result<ZipArchive<Cursor<Vec<u8>>>, ZipError>)
    ensures
        r is Ok <==> zip_names_of(bytes@) is Some,
        r matches Ok(a) ==> Some(zip_entry_names(a)) == zip_names_of(bytes@) && forall|
            n: Seq<char>,
        | #[trigger] zip_entry_text(a, n) == zip_text_of(bytes@, n),
{
    ZipArchive::new(Cursor::new(bytes))
}

/// Relies on `zip::ZipArchive::file_names`: the names of the entries.
#[verifier::external_body]
fn zip_file_names(a: &ZipArchive<Cursor<Vec<u8>>>) -> (r: Vec<String>)
    ensures
        r@.map_values(|s: String| s@) == zip_entry_names(*a),
{
    a.file_names().map(|s| s.to_string()).collect()
}

/// Relies on `zip::ZipArchive::by_name` and `std::io::Read::read_to_string`:
/// the text of the named entry, or `None` when it is absent or not
/// readable text. Reading seeks within the archive but changes no entry.
#[verifier::external_body]
fn zip_read_text(a: &mut ZipArchive<Cursor<Vec<u8>>>, name: &String) -> (r: Option<String>)
    ensures
        zip_entry_names(*final(a)) == zip_entry_names(*old(a)),
        forall|n: Seq<char>| zip_entry_text(*final(a), n) == zip_entry_text(*old(a), n),
        r matches Some(s) ==> zip_entry_text(*old(a), name@) == Some(s@),
        r is None <==> zip_entry_text(*old(a), name@) is None,
{
    match a.by_name(name.as_str()) {
        Ok(mut f) => {
            let mut s = String::new();
            match f.read_to_string(&mut s) {
                Ok(_) => Some(s),
                Err(_) => None,
            }
        },
        Err(_) => None,
    }
}

/// Why official test data could not be read.
#[derive(Debug, Clone, Copy, PartialEq, Eq, Structural)]
pub enum ArchiveError {
    /// the bytes are not a readable archive
    BadArchive,
    /// an entry name follows neither test-data naming convention
    BadEntryName,
}

/// The naming convention and case count found in an archive.
#[derive(Debug, Clone, Copy, PartialEq, Eq, Structural)]
pub struct ArchiveLayout {
    /// `I.{N}` / `O.{N}` names rather than `{N}.in` / `{N}.out`
    pub old_format: bool,
    /// highest case index seen in the entry names
    pub num_cases: u8,
}

/// The stem that marks the old naming convention: a bare `I` or `O`.
pub open spec fn stem_is_marker(stem: Seq<char>) -> bool {
    stem == seq!['I'] || stem == seq!['O']
}

/// One entry name folded into the detection state `(old_format,
/// num_cases)`: a marker stem switches the convention and numbers sit in
/// the extension; otherwise the stem is the number. A name that parses to
/// no number leaves the count alone; a name without a dot is an error.
pub open spec fn scan_step(st: (bool, u8), name: Seq<char>) -> Option<(bool, u8)> {
    match crate::text::split_at_char(name, '.') {
        None => None,
        Some((stem, ext)) => {
            let marker = stem_is_marker(stem);
            let old_format = st.0 || marker;
            let parsed = if marker {
                parsed_u8(ext)
            } else {
                parsed_u8(stem)
            };
            let cases = match parsed {
                Some(n) => if n > st.1 {
                    n
                } else {
                    st.1
                },
                None => st.1,
            };
            Some((old_format, cases))
        },
    }
}

/// All entry names folded in order, starting from `st`.
pub open spec fn scan_names(names: Seq<Seq<char>>, st: (bool, u8)) -> Option<(bool, u8)>
    decreases names.len(),
{
    if names.len() == 0 {
        Some(st)
    } else {
        match scan_step(st, names[0]) {
            None => None,
            Some(st2) => scan_names(names.drop_first(), st2),
        }
    }
}

/// Once one name fails, the whole scan fails.
proof fn lemma_scan_names_none(names: Seq<Seq<char>>, st: (bool, u8))
    requires
        names.len() > 0,
        scan_step(st, names[0]) is None,
    ensures
        scan_names(names, st) is None,
{
}

/// Detect which naming convention an archive uses and how many cases it
/// holds, by folding every entry name through [`scan_step`] from the
/// initial state (new convention, zero cases).
pub fn detect_layout(names: &Vec<String>) -> (r: Result<ArchiveLayout, ArchiveError>)
    ensures
        r matches Ok(layout) ==> scan_names(names@.map_values(|s: String| s@), (false, 0))
            == Some((layout.old_format, layout.num_cases)),
        r matches Err(e) ==> e == ArchiveError::BadEntryName && scan_names(
            names@.map_values(|s: String| s@),
            (false, 0),
        ) is None,
{
    let ghost ns = names@.map_values(|s: String| s@);
    let mut old_format = false;
    let mut num_cases: u8 = 0;
    let mut k: usize = 0;
    proof {
        assert(ns.skip(0) =~= ns);
    }
    while k < names.len()
        invariant
            0 <= k <= names@.len(),
            ns == names@.map_values(|s: String| s@),
            scan_names(ns, (false, 0)) == scan_names(ns.skip(k as int), (old_format, num_cases)),
        decreases names@.len() - k,
    {
        let ghost st = (old_format, num_cases);
        let name: &String = &names[k];
        let len = name.as_str().unicode_len();
        proof {
            assert(ns.skip(k as int)[0] == ns[k as int]);
            assert(ns[k as int] == name@);
            assert(ns.skip(k as int).drop_first() =~= ns.skip(k + 1));
        }
        let dot = match crate::text::find_char(name.as_str(), '.') {
            Some(i) => i,
            None => {
                proof {
                    lemma_scan_names_none(ns.skip(k as int), st);
                }
                return Err(ArchiveError::BadEntryName);
            },
        };
        let stem = name.as_str().substring_char(0, dot);
        let ext = name.as_str().substring_char(dot + 1, len);
        proof {
            assert(stem@ =~= name@.take(dot as int));
            assert(ext@ =~= name@.skip(dot as int + 1));
        }
        let marker = stem.unicode_len() == 1 && (stem.get_char(0) == 'I' || stem.get_char(0)
            == 'O');
        proof {
            if stem@ =~= seq!['I'] || stem@ =~= seq!['O'] {
                assert(stem_is_marker(stem@));
            }
            if marker {
                assert(stem@ =~= seq![stem@[0]]);
            }
            if stem_is_marker(stem@) {
                assert(stem@.len() == 1);
            }
            assert(marker == stem_is_marker(stem@));
        }
        let parsed = if marker {
            crate::text::parse_u8(ext)
        } else {
            crate::text::parse_u8(stem)
        };
        if marker {
            old_format = true;
        }
        if let Some(n) = parsed {
            if n > num_cases {
                num_cases = n;
            }
        }
        proof {
            assert(scan_step(st, name@) == Some((old_format, num_cases)));
        }
        k += 1;
    }
    proof {
        assert(ns.skip(ns.len() as int) =~= Seq::<Seq<char>>::empty());
    }
    Ok(ArchiveLayout { old_format, num_cases })
}

/// The input-file name of case `k` under the given convention.
pub open spec fn case_in_name(old_format: bool, k: int) -> Seq<char> {
    if old_format {
        "I."@ + dec_str(k)
    } else {
        dec_str(k) + ".in"@
    }
}

/// The output-file name of case `k` under the given convention.
pub open spec fn case_out_name(old_format: bool, k: int) -> Seq<char> {
    if old_format {
        "O."@ + dec_str(k)
    } else {
        dec_str(k) + ".out"@
    }
}

/// Build the input and output file names of one case.
pub fn case_file_names(old_format: bool, case_id: u8) -> (r: (String, String))
    ensures
        r.0@ == case_in_name(old_format, case_id as int),
        r.1@ == case_out_name(old_format, case_id as int),
{
    let num = crate::text::u64_to_string(case_id as u64);
    if old_format {
        let mut i = String::from_str("I.");
        i.append(num.as_str());
        let mut o = String::from_str("O.");
        o.append(num.as_str());
        (i, o)
    } else {
        let mut i = num.clone();
        i.append(".in");
        let mut o = num;
        o.append(".out");
        (i, o)
    }
}

/// The contents of case `k`, when both of its files are present and
/// readable.
pub open spec fn case_pair(
    a: ZipArchive<Cursor<Vec<u8>>>,
    old_format: bool,
    k: int,
) -> Option<(Seq<char>, Seq<char>)> {
    match (zip_entry_text(a, case_in_name(old_format, k)), zip_entry_text(
        a,
        case_out_name(old_format, k),
    )) {
        (Some(i), Some(o)) => Some((i, o)),
        _ => None,
    }
}

/// The complete cases among `1..=upto`, in index order.
pub open spec fn collected_cases(
    a: ZipArchive<Cursor<Vec<u8>>>,
    old_format: bool,
    upto: int,
) -> Seq<(Seq<char>, Seq<char>)>
    decreases upto,
{
    if upto < 1 {
        Seq::empty()
    } else {
        collected_cases(a, old_format, upto - 1) + match case_pair(a, old_format, upto) {
            Some(p) => seq![p],
            None => Seq::empty(),
        }
    }
}

/// The contents of case `k` of the archive these bytes describe.
pub open spec fn case_pair_of(bytes: Seq<u8>, old_format: bool, k: int) -> Option<
    (Seq<char>, Seq<char>),
> {
    match (zip_text_of(bytes, case_in_name(old_format, k)), zip_text_of(
        bytes,
        case_out_name(old_format, k),
    )) {
        (Some(i), Some(o)) => Some((i, o)),
        _ => None,
    }
}

/// The complete cases among `1..=upto` of the archive these bytes
/// describe, in index order.
pub open spec fn collected_cases_of(bytes: Seq<u8>, old_format: bool, upto: int) -> Seq<
    (Seq<char>, Seq<char>),
>
    decreases upto,
{
    if upto < 1 {
        Seq::empty()
    } else {
        collected_cases_of(bytes, old_format, upto - 1) + match case_pair_of(
            bytes,
            old_format,
            upto,
        ) {
            Some(p) => seq![p],
            None => Seq::empty(),
        }
    }
}

/// An archive value whose entries agree with the bytes yields, case for
/// case, the pairs the bytes determine.
proof fn lemma_collected_cases_congruence(
    a: ZipArchive<Cursor<Vec<u8>>>,
    bytes: Seq<u8>,
    old_format: bool,
    upto: int,
)
    requires
        forall|n: Seq<char>| #[trigger] zip_entry_text(a, n) == zip_text_of(bytes, n),
    ensures
        collected_cases(a, old_format, upto) == collected_cases_of(bytes, old_format, upto),
    decreases upto,
{
    if upto >= 1 {
        lemma_collected_cases_congruence(a, bytes, old_format, upto - 1);
    }
}

/// At most one case per index.
pub proof fn lemma_collected_cases_len(
    a: ZipArchive<Cursor<Vec<u8>>>,
    old_format: bool,
    upto: int,
)
    ensures
        collected_cases(a, old_format, upto).len() <= if upto < 1 {
            0
        } else {
            upto
        },
    decreases upto,
{
    if upto >= 1 {
        lemma_collected_cases_len(a, old_format, upto - 1);
    }
}

/// Pull every complete case out of the archive, in index order: for each
/// index up to the detected count, read the case's input and output
/// files and keep the pair when both are readable.
pub fn collect_cases(a: &mut ZipArchive<Cursor<Vec<u8>>>, layout: &ArchiveLayout) -> (r: Vec<
    TestCase,
>)
    ensures
        zip_entry_names(*final(a)) == zip_entry_names(*old(a)),
        forall|n: Seq<char>| zip_entry_text(*final(a), n) == zip_entry_text(*old(a), n),
        r@.map_values(|tc: TestCase| (tc.input@, tc.output@)) == collected_cases(
            *old(a),
            layout.old_format,
            layout.num_cases as int,
        ),
{
    let ghost a0 = *a;
    let mut out: Vec<TestCase> = Vec::new();
    let mut k: usize = 1;
    proof {
        assert(out@.map_values(|tc: TestCase| (tc.input@, tc.output@)) =~= collected_cases(
            a0,
            layout.old_format,
            0,
        ));
    }
    while k <= layout.num_cases as usize
        invariant
            1 <= k <= layout.num_cases as usize + 1,
            zip_entry_names(*a) == zip_entry_names(a0),
            forall|n: Seq<char>| zip_entry_text(*a, n) == zip_entry_text(a0, n),
            out@.map_values(|tc: TestCase| (tc.input@, tc.output@)) == collected_cases(
                a0,
                layout.old_format,
                k - 1,
            ),
        decreases layout.num_cases as int + 1 - k,
    {
        let (in_name, out_name) = case_file_names(layout.old_format, k as u8);
        let ghost before = *a;
        let in_text = zip_read_text(a, &in_name);
        let ghost mid = *a;
        let out_text = zip_read_text(a, &out_name);
        proof {
            assert forall|n: Seq<char>| zip_entry_text(*a, n) == zip_entry_text(a0, n) by {
                assert(zip_entry_text(*a, n) == zip_entry_text(mid, n));
                assert(zip_entry_text(mid, n) == zip_entry_text(before, n));
            }
            assert(zip_entry_text(before, in_name@) == zip_entry_text(a0, in_name@));
            assert(zip_entry_text(mid, out_name@) == zip_entry_text(a0, out_name@));
        }
        if let (Some(input), Some(output)) = (in_text, out_text) {
            out.push(TestCase { input, output });
            proof {
                assert(case_pair(a0, layout.old_format, k as int) == Some((
                    out@.last().input@,
                    out@.last().output@,
                )));
                assert(out@.map_values(|tc: TestCase| (tc.input@, tc.output@)) =~= collected_cases(
                    a0,
                    layout.old_format,
                    k - 1,
                ) + seq![(out@.last().input@, out@.last().output@)]);
            }
        } else {
            proof {
                assert(case_pair(a0, layout.old_format, k as int) is None);
                assert(out@.map_values(|tc: TestCase| (tc.input@, tc.output@)) =~= collected_cases(
                    a0,
                    layout.old_format,
                    k as int,
                ));
            }
        }
        k += 1;
    }
    out
}

/// Read the official test cases out of a downloaded archive: detect the
/// naming convention and case count from the entry names, then collect
/// the complete cases in index order. Bytes that are no readable archive,
/// and entry names following neither convention, are errors, each if and
/// only if; otherwise the result is exactly the complete pairs the bytes
/// hold, up to the detected count.
pub fn official_test_cases(bytes: Vec<u8>) -> (r: Result<Vec<TestCase>, ArchiveError>)
    ensures
        r == Err::<Vec<TestCase>, ArchiveError>(ArchiveError::BadArchive) <==> zip_names_of(
            bytes@,
        ) is None,
        zip_names_of(bytes@) matches Some(ns) ==> (r == Err::<Vec<TestCase>, ArchiveError>(
            ArchiveError::BadEntryName,
        ) <==> scan_names(ns, (false, 0)) is None),
        zip_names_of(bytes@) matches Some(ns) ==> (scan_names(ns, (false, 0)) matches Some(st)
            ==> (r matches Ok(cases) && cases@.map_values(|tc: TestCase| (tc.input@, tc.output@))
            == collected_cases_of(bytes@, st.0, st.1 as int))),
        r matches Ok(cases) ==> cases@.len() <= 255,
{
    let ghost b = bytes@;
    let mut archive = match zip_open(bytes) {
        Ok(a) => a,
        Err(_) => {
            return Err(ArchiveError::BadArchive);
        },
    };
    let names = zip_file_names(&archive);
    proof {
        assert(names@.map_values(|s: String| s@) == zip_names_of(b).unwrap());
    }
    let layout = match detect_layout(&names) {
        Ok(l) => l,
        Err(e) => {
            return Err(e);
        },
    };
    let ghost a1 = archive;
    let cases = collect_cases(&mut archive, &layout);
    proof {
        lemma_collected_cases_congruence(a1, b, layout.old_format, layout.num_cases as int);
        lemma_collected_cases_len(a1, layout.old_format, layout.num_cases as int);
        assert(cases@.len() == cases@.map_values(|tc: TestCase| (tc.input@, tc.output@)).len());
    }
    Ok(cases)
}

} // verus!
