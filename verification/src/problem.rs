//! Problem metadata: the problem record itself, its sample test cases, the
//! I/O convention a solution must follow, and the data released once a
//! contest has closed.

use crate::division::Division;
use crate::text::dec_str;
use vstd::prelude::*;

verus! {

/// The address a problem is viewed at, from its id.
pub fn problem_url(id: u64) -> (r: String)
    ensures
        r@ == "https://usaco.org/index.php?page=viewproblem2&cpid="@ + dec_str(id as int),
{
    let mut url = String::from_str("https://usaco.org/index.php?page=viewproblem2&cpid=");
    crate::text::push_dec(&mut url, id as u128);
    url
}

/// How a solution process communicates: through the standard streams, or
/// through a named file in its working directory.
#[derive(Debug, Clone)]
pub enum IoMode {
    Stdio,
    File(String),
}

impl IoMode {
    /// What equality of two modes means: same variant, and for files the
    /// same file name.
    pub open spec fn eq_spec(&self, other: &IoMode) -> bool {
        match (self, other) {
            (IoMode::Stdio, IoMode::Stdio) => true,
            (IoMode::File(a), IoMode::File(b)) => a@ == b@,
            _ => false,
        }
    }
}

impl PartialEq for IoMode {
    fn eq(&self, other: &IoMode) -> bool {
        match (self, other) {
            (IoMode::Stdio, IoMode::Stdio) => true,
            (IoMode::File(a), IoMode::File(b)) => a.eq(b),
            _ => false,
        }
    }
}

impl vstd::std_specs::cmp::PartialEqSpecImpl for IoMode {
    open spec fn obeys_eq_spec() -> bool {
        true
    }

    open spec fn eq_spec(&self, other: &IoMode) -> bool {
        IoMode::eq_spec(self, other)
    }
}

/// One test case: the text fed to the solution and the output expected
/// back. Position in the problem's list is its only identity.
#[derive(Debug, Clone)]
pub struct TestCase {
    pub input: String,
    pub output: String,
}

/// Data released once a problem's contest window has closed. Its absence
/// is the expected state for a problem from a contest still in progress.
#[derive(Debug, Clone)]
pub struct ReleasedProblemData {
    /// formatted writeup text
    pub writeup: String,
    /// where the writeup lives
    pub writeup_url: String,
    /// where the official test-case archive can be downloaded
    pub official_test_case_url: String,
}

/// A problem as fetched from the training site. Immutable once built;
/// a re-fetch replaces the record wholesale.
#[derive(Debug, Clone)]
pub struct Problem {
    pub name: String,
    /// stable numeric identity, assigned by the training site
    pub id: u64,
    /// human readable contest name
    pub contest: String,
    pub division: Division,
    /// the problem's number within its contest: 1, 2 or 3
    pub problem_num: u8,
    /// formatted description text
    pub description: String,
    /// present only once the contest has closed
    pub released_data: Option<ReleasedProblemData>,
    /// sample test cases, in the order shown with the statement
    pub test_cases: Vec<TestCase>,
    pub input: IoMode,
    pub output: IoMode,
}

} // verus!
