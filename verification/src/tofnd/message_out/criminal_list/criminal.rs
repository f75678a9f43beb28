//! The kinds of fault a party can be blamed for.

use vstd::prelude::*;

verus! {

/// The kind of fault a party is blamed for.
#[derive(Clone, Copy, Debug, PartialEq, Eq, Structural)]
pub enum CrimeType {
    Unspecified,
    NonMalicious,
    Malicious,
}

/// The name of a value in the protocol definition.
pub open spec fn str_name(r: CrimeType) -> Seq<char> {
    match r {
        CrimeType::Unspecified => "CRIME_TYPE_UNSPECIFIED"@,
        CrimeType::NonMalicious => "CRIME_TYPE_NON_MALICIOUS"@,
        CrimeType::Malicious => "CRIME_TYPE_MALICIOUS"@,
    }
}

/// The number of a value in the protocol definition.
pub open spec fn number(r: CrimeType) -> i32 {
    match r {
        CrimeType::Unspecified => 0i32,
        CrimeType::NonMalicious => 1i32,
        CrimeType::Malicious => 2i32,
    }
}

/// The value named `value` in the protocol definition, if any.
pub open spec fn named(value: Seq<char>) -> Option<CrimeType> {
    if value == "CRIME_TYPE_UNSPECIFIED"@ {
        Some(CrimeType::Unspecified)
    } else if value == "CRIME_TYPE_NON_MALICIOUS"@ {
        Some(CrimeType::NonMalicious)
    } else if value == "CRIME_TYPE_MALICIOUS"@ {
        Some(CrimeType::Malicious)
    } else {
        None
    }
}

/// The value numbered `n` in the protocol definition, if any.
pub open spec fn numbered(n: i32) -> Option<CrimeType> {
    if n == 0 {
        Some(CrimeType::Unspecified)
    } else if n == 1 {
        Some(CrimeType::NonMalicious)
    } else if n == 2 {
        Some(CrimeType::Malicious)
    } else {
        None
    }
}

/// A value's name and number each lead back to it: the protocol
/// definition names and numbers every value, and no two alike.
pub proof fn lemma_names_and_numbers_round_trip(r: CrimeType)
    ensures
        named(str_name(r)) == Some(r),
        numbered(number(r)) == Some(r),
{
    reveal_strlit("CRIME_TYPE_UNSPECIFIED");
    reveal_strlit("CRIME_TYPE_NON_MALICIOUS");
    reveal_strlit("CRIME_TYPE_MALICIOUS");
    assert("CRIME_TYPE_UNSPECIFIED"@.len() != "CRIME_TYPE_NON_MALICIOUS"@.len());
    assert("CRIME_TYPE_UNSPECIFIED"@.len() != "CRIME_TYPE_MALICIOUS"@.len());
    assert("CRIME_TYPE_NON_MALICIOUS"@.len() != "CRIME_TYPE_MALICIOUS"@.len());
}

impl CrimeType {
    /// String value of the enum field names used in the protocol definition.
    pub fn as_str_name(&self) -> (r: &'static str)
        ensures
            r@ == str_name(*self),
    {
        match self {
            CrimeType::Unspecified => "CRIME_TYPE_UNSPECIFIED",
            CrimeType::NonMalicious => "CRIME_TYPE_NON_MALICIOUS",
            CrimeType::Malicious => "CRIME_TYPE_MALICIOUS",
        }
    }

    /// Creates a value from a field name used in the protocol definition.
    pub fn from_str_name(value: &str) -> (r: Option<Self>)
        ensures
            r == named(value@),
    {
        if crate::text::str_eq(value, "CRIME_TYPE_UNSPECIFIED") {
            Some(CrimeType::Unspecified)
        } else if crate::text::str_eq(value, "CRIME_TYPE_NON_MALICIOUS") {
            Some(CrimeType::NonMalicious)
        } else if crate::text::str_eq(value, "CRIME_TYPE_MALICIOUS") {
            Some(CrimeType::Malicious)
        } else {
            None
        }
    }

    /// The value with the given number, if any.
    pub fn from_i32(n: i32) -> (r: Option<Self>)
        ensures
            r == numbered(n),
    {
        if n == 0 {
            Some(CrimeType::Unspecified)
        } else if n == 1 {
            Some(CrimeType::NonMalicious)
        } else if n == 2 {
            Some(CrimeType::Malicious)
        } else {
            None
        }
    }

    /// The number of the value.
    pub fn to_i32(&self) -> (r: i32)
        ensures
            r == number(*self),
    {
        match self {
            CrimeType::Unspecified => 0,
            CrimeType::NonMalicious => 1,
            CrimeType::Malicious => 2,
        }
    }
}

/// Reading back a value's name gives the value.
pub proof fn lemma_name_round_trip(r: CrimeType)
    ensures
        named(str_name(r)) == Some(r),
{
    reveal_strlit("CRIME_TYPE_UNSPECIFIED");
    reveal_strlit("CRIME_TYPE_NON_MALICIOUS");
    reveal_strlit("CRIME_TYPE_MALICIOUS");
    assert("CRIME_TYPE_UNSPECIFIED"@.len() == 22 && "CRIME_TYPE_NON_MALICIOUS"@.len() == 24 && "CRIME_TYPE_MALICIOUS"@.len() == 20);
}

/// Reading back a value's number gives the value.
pub proof fn lemma_number_round_trip(r: CrimeType)
    ensures
        numbered(number(r)) == Some(r),
{
}

} // verus!
