//! The sorting order of a board: which of two scores is the better one.

use vstd::prelude::*;
use vstd::std_specs::convert::FromSpecImpl;
use vstd::std_specs::convert::TryFromSpecImpl;
use crate::utils::strings::str_eq;

verus! {

/// A sorting order for scores.
#[derive(Copy, Clone, Debug, PartialEq, Eq, Structural)]
pub enum SortingOrder {
    /// The greater the score, the worse it is.
    Ascending,
    /// The greater the score, the better it is.
    Descending,
}

impl SortingOrder {
    /// The short code under which the order travels in requests and
    /// responses and rests in the store.
    pub open spec fn code(self) -> Seq<char> {
        match self {
            SortingOrder::Ascending => "ASC"@,
            SortingOrder::Descending => "DSC"@,
        }
    }

    /// The order that a code stands for, if it stands for one.
    pub open spec fn parse(code: Seq<char>) -> Option<SortingOrder> {
        if code == "ASC"@ {
            Some(SortingOrder::Ascending)
        } else if code == "DSC"@ {
            Some(SortingOrder::Descending)
        } else {
            None
        }
    }

    /// The comparison flag of the store's conditional update: `LT` lets a
    /// score through only if it is strictly less than the stored one, `GT`
    /// only if it is strictly greater.
    pub open spec fn spec_zadd_mode(self) -> Seq<char> {
        match self {
            SortingOrder::Ascending => "LT"@,
            SortingOrder::Descending => "GT"@,
        }
    }

    /// Whether ranks are counted from the greatest score down.
    pub open spec fn spec_ranks_reversed(self) -> bool {
        self == SortingOrder::Descending
    }

    /// Get the mode to use with the store's `ZADD` command.
    pub fn zadd_mode(&self) -> (mode: String)
        ensures
            mode@ == self.spec_zadd_mode(),
    {
        match self {
            SortingOrder::Ascending => "LT".to_string(),
            SortingOrder::Descending => "GT".to_string(),
        }
    }

    /// Whether the rank of a player is asked for from the greatest score
    /// down (`ZREVRANK`) rather than from the least score up (`ZRANK`).
    pub fn ranks_reversed(&self) -> (reversed: bool)
        ensures
            reversed == self.spec_ranks_reversed(),
    {
        match self {
            SortingOrder::Ascending => false,
            SortingOrder::Descending => true,
        }
    }
}

/// How the order is stored.
impl From<SortingOrder> for &'static str {
    fn from(ord: SortingOrder) -> (code: &'static str)
        ensures
            code@ == ord.code(),
    {
        match ord {
            SortingOrder::Ascending => "ASC",
            SortingOrder::Descending => "DSC",
        }
    }
}

impl FromSpecImpl<SortingOrder> for &'static str {
    open spec fn obeys_from_spec() -> bool {
        true
    }

    open spec fn from_spec(ord: SortingOrder) -> &'static str {
        match ord {
            SortingOrder::Ascending => "ASC",
            SortingOrder::Descending => "DSC",
        }
    }
}

/// How the order is stored, as an owned string.
impl From<SortingOrder> for String {
    fn from(ord: SortingOrder) -> (code: String)
        ensures
            code@ == ord.code(),
    {
        match ord {
            SortingOrder::Ascending => "ASC".to_string(),
            SortingOrder::Descending => "DSC".to_string(),
        }
    }
}

impl FromSpecImpl<SortingOrder> for String {
    /// Two strings with the same characters need not be one value, so the
    /// conversion is stated over the characters, on `from` itself.
    open spec fn obeys_from_spec() -> bool {
        false
    }

    open spec fn from_spec(ord: SortingOrder) -> String {
        arbitrary()
    }
}

/// How the order is retrieved from the store.
impl TryFrom<&str> for SortingOrder {
    type Error = ();

    fn try_from(val: &str) -> (order: Result<SortingOrder, ()>)
        ensures
            order == match SortingOrder::parse(val@) {
                Some(o) => Ok::<SortingOrder, ()>(o),
                None => Err::<SortingOrder, ()>(()),
            },
    {
        proof {
            lemma_codes_differ();
        }
        if str_eq(val, "ASC") {
            Ok(SortingOrder::Ascending)
        } else if str_eq(val, "DSC") {
            Ok(SortingOrder::Descending)
        } else {
            Err(())
        }
    }
}

impl TryFromSpecImpl<&str> for SortingOrder {
    open spec fn obeys_try_from_spec() -> bool {
        true
    }

    open spec fn try_from_spec(val: &str) -> Result<SortingOrder, ()> {
        match SortingOrder::parse(val@) {
            Some(o) => Ok(o),
            None => Err(()),
        }
    }
}

/// How the order is retrieved from the store, from an owned string.
impl TryFrom<String> for SortingOrder {
    type Error = ();

    fn try_from(val: String) -> (order: Result<SortingOrder, ()>)
        ensures
            order == match SortingOrder::parse(val@) {
                Some(o) => Ok::<SortingOrder, ()>(o),
                None => Err::<SortingOrder, ()>(()),
            },
    {
        SortingOrder::try_from(val.as_str())
    }
}

impl TryFromSpecImpl<String> for SortingOrder {
    open spec fn obeys_try_from_spec() -> bool {
        true
    }

    open spec fn try_from_spec(val: String) -> Result<SortingOrder, ()> {
        match SortingOrder::parse(val@) {
            Some(o) => Ok(o),
            None => Err(()),
        }
    }
}

/// The two codes are different strings, and so are the two modes.
pub proof fn lemma_codes_differ()
    ensures
        "ASC"@ != "DSC"@,
        "LT"@ != "GT"@,
        "ASC"@.len() == 3,
        "DSC"@.len() == 3,
{
    reveal_strlit("ASC");
    reveal_strlit("DSC");
    reveal_strlit("LT");
    reveal_strlit("GT");
    assert("ASC"@[0] != "DSC"@[0]);
    assert("LT"@[0] != "GT"@[0]);
}

/// A code that was written for an order is read back as that order.
pub proof fn lemma_code_round_trip(order: SortingOrder)
    ensures
        SortingOrder::parse(order.code()) == Some(order),
{
    lemma_codes_differ();
}

} // verus!
