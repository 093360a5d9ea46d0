//! The four competition divisions and their textual forms.

use crate::text::lower_seq;
use vstd::prelude::*;

verus! {

/// Competition division of a problem. The four divisions are totally
/// ordered, `Bronze` lowest and `Platinum` highest; the derived order
/// follows the declaration order.
#[derive(Debug, Clone, Copy, PartialEq, Eq, PartialOrd, Ord, Hash, Structural)]
pub enum Division {
    Bronze,
    Silver,
    Gold,
    Platinum,
}

/// The lowercase name of a division.
pub open spec fn division_name(d: Division) -> Seq<char> {
    match d {
        Division::Bronze => "bronze"@,
        Division::Silver => "silver"@,
        Division::Gold => "gold"@,
        Division::Platinum => "platinum"@,
    }
}

impl Division {
    /// Parse a division from its name, ignoring ASCII case.
    pub fn from_str(s: &str) -> (r: Option<Self>)
        ensures
            r == Some(Division::Bronze) <==> lower_seq(s@) == "bronze"@,
            r == Some(Division::Silver) <==> lower_seq(s@) == "silver"@,
            r == Some(Division::Gold) <==> lower_seq(s@) == "gold"@,
            r == Some(Division::Platinum) <==> lower_seq(s@) == "platinum"@,
            r is None <==> (lower_seq(s@) != "bronze"@ && lower_seq(s@) != "silver"@
                && lower_seq(s@) != "gold"@ && lower_seq(s@) != "platinum"@),
    {
        proof {
            reveal_strlit("bronze");
            reveal_strlit("silver");
            reveal_strlit("gold");
            reveal_strlit("platinum");
            crate::text::lemma_lower_seq_id("bronze"@);
            crate::text::lemma_lower_seq_id("silver"@);
            crate::text::lemma_lower_seq_id("gold"@);
            crate::text::lemma_lower_seq_id("platinum"@);
            assert("bronze"@[0] != "silver"@[0]);
        }
        if crate::text::eq_ignore_ascii_case(s, "bronze") {
            Some(Division::Bronze)
        } else if crate::text::eq_ignore_ascii_case(s, "silver") {
            Some(Division::Silver)
        } else if crate::text::eq_ignore_ascii_case(s, "gold") {
            Some(Division::Gold)
        } else if crate::text::eq_ignore_ascii_case(s, "platinum") {
            Some(Division::Platinum)
        } else {
            None
        }
    }

    /// The lowercase name of the division.
    pub fn to_str(&self) -> (r: &'static str)
        ensures
            r@ == division_name(*self),
    {
        match self {
            Division::Bronze => "bronze",
            Division::Silver => "silver",
            Division::Gold => "gold",
            Division::Platinum => "platinum",
        }
    }

    /// The division name wrapped in the ANSI true-color escape used when
    /// displaying it.
    pub fn to_ansi(&self) -> (r: String)
        ensures
            *self == Division::Bronze ==> r@ == "\x1b[38;2;232;175;140mBronze\x1b[0m"@,
            *self == Division::Silver ==> r@ == "\x1b[38;2;199;199;199mSilver\x1b[0m"@,
            *self == Division::Gold ==> r@ == "\x1b[38;2;246;221;138mGold\x1b[0m"@,
            *self == Division::Platinum ==> r@ == "\x1b[38;2;207;211;180mPlatinum\x1b[0m"@,
    {
        match self {
            Division::Bronze => String::from_str("\x1b[38;2;232;175;140mBronze\x1b[0m"),
            Division::Silver => String::from_str("\x1b[38;2;199;199;199mSilver\x1b[0m"),
            Division::Gold => String::from_str("\x1b[38;2;246;221;138mGold\x1b[0m"),
            Division::Platinum => String::from_str("\x1b[38;2;207;211;180mPlatinum\x1b[0m"),
        }
    }

    /// All division names, lowercase, in ascending division order.
    pub fn get_all() -> (r: [&'static str; 4])
        ensures
            r@.len() == 4,
            r@[0]@ == "bronze"@,
            r@[1]@ == "silver"@,
            r@[2]@ == "gold"@,
            r@[3]@ == "platinum"@,
    {
        ["bronze", "silver", "gold", "platinum"]
    }
}

} // verus!
