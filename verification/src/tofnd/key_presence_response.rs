//! The answer to a key presence check.

use vstd::prelude::*;

verus! {

/// The answer to a key presence check.
#[derive(Clone, Copy, Debug, PartialEq, Eq, Structural)]
pub enum Response {
    Unspecified,
    Present,
    Absent,
    Fail,
}

/// The name of a value in the protocol definition.
pub open spec fn str_name(r: Response) -> Seq<char> {
    match r {
        Response::Unspecified => "RESPONSE_UNSPECIFIED"@,
        Response::Present => "RESPONSE_PRESENT"@,
        Response::Absent => "RESPONSE_ABSENT"@,
        Response::Fail => "RESPONSE_FAIL"@,
    }
}

/// The number of a value in the protocol definition.
pub open spec fn number(r: Response) -> i32 {
    match r {
        Response::Unspecified => 0i32,
        Response::Present => 1i32,
        Response::Absent => 2i32,
        Response::Fail => 3i32,
    }
}

/// The value named `value` in the protocol definition, if any.
pub open spec fn named(value: Seq<char>) -> Option<Response> {
    if value == "RESPONSE_UNSPECIFIED"@ {
        Some(Response::Unspecified)
    } else if value == "RESPONSE_PRESENT"@ {
        Some(Response::Present)
    } else if value == "RESPONSE_ABSENT"@ {
        Some(Response::Absent)
    } else if value == "RESPONSE_FAIL"@ {
        Some(Response::Fail)
    } else {
        None
    }
}

/// The value numbered `n` in the protocol definition, if any.
pub open spec fn numbered(n: i32) -> Option<Response> {
    if n == 0 {
        Some(Response::Unspecified)
    } else if n == 1 {
        Some(Response::Present)
    } else if n == 2 {
        Some(Response::Absent)
    } else if n == 3 {
        Some(Response::Fail)
    } else {
        None
    }
}

/// A value's name and number each lead back to it: the protocol
/// definition names and numbers every value, and no two alike.
pub proof fn lemma_names_and_numbers_round_trip(r: Response)
    ensures
        named(str_name(r)) == Some(r),
        numbered(number(r)) == Some(r),
{
    reveal_strlit("RESPONSE_UNSPECIFIED");
    reveal_strlit("RESPONSE_PRESENT");
    reveal_strlit("RESPONSE_ABSENT");
    reveal_strlit("RESPONSE_FAIL");
    assert("RESPONSE_UNSPECIFIED"@.len() != "RESPONSE_PRESENT"@.len());
    assert("RESPONSE_UNSPECIFIED"@.len() != "RESPONSE_ABSENT"@.len());
    assert("RESPONSE_UNSPECIFIED"@.len() != "RESPONSE_FAIL"@.len());
    assert("RESPONSE_PRESENT"@.len() != "RESPONSE_ABSENT"@.len());
    assert("RESPONSE_PRESENT"@.len() != "RESPONSE_FAIL"@.len());
    assert("RESPONSE_ABSENT"@.len() != "RESPONSE_FAIL"@.len());
}

impl Response {
    /// String value of the enum field names used in the protocol definition.
    pub fn as_str_name(&self) -> (r: &'static str)
        ensures
            r@ == str_name(*self),
    {
        match self {
            Response::Unspecified => "RESPONSE_UNSPECIFIED",
            Response::Present => "RESPONSE_PRESENT",
            Response::Absent => "RESPONSE_ABSENT",
            Response::Fail => "RESPONSE_FAIL",
        }
    }

    /// Creates a value from a field name used in the protocol definition.
    pub fn from_str_name(value: &str) -> (r: Option<Self>)
        ensures
            r == named(value@),
    {
        if crate::text::str_eq(value, "RESPONSE_UNSPECIFIED") {
            Some(Response::Unspecified)
        } else if crate::text::str_eq(value, "RESPONSE_PRESENT") {
            Some(Response::Present)
        } else if crate::text::str_eq(value, "RESPONSE_ABSENT") {
            Some(Response::Absent)
        } else if crate::text::str_eq(value, "RESPONSE_FAIL") {
            Some(Response::Fail)
        } else {
            None
        }
    }

    /// The value with the given number, if any.
    pub fn from_i32(n: i32) -> (r: Option<Self>)
        ensures
            r == numbered(n),
    {
        if n == 0 {
            Some(Response::Unspecified)
        } else if n == 1 {
            Some(Response::Present)
        } else if n == 2 {
            Some(Response::Absent)
        } else if n == 3 {
            Some(Response::Fail)
        } else {
            None
        }
    }

    /// The number of the value.
    pub fn to_i32(&self) -> (r: i32)
        ensures
            r == number(*self),
    {
        match self {
            Response::Unspecified => 0,
            Response::Present => 1,
            Response::Absent => 2,
            Response::Fail => 3,
        }
    }
}

/// Reading back a value's name gives the value.
pub proof fn lemma_name_round_trip(r: Response)
    ensures
        named(str_name(r)) == Some(r),
{
    reveal_strlit("RESPONSE_UNSPECIFIED");
    reveal_strlit("RESPONSE_PRESENT");
    reveal_strlit("RESPONSE_ABSENT");
    reveal_strlit("RESPONSE_FAIL");
    assert("RESPONSE_UNSPECIFIED"@.len() == 20 && "RESPONSE_PRESENT"@.len() == 16 && "RESPONSE_ABSENT"@.len() == 15 && "RESPONSE_FAIL"@.len() == 13);
}

/// Reading back a value's number gives the value.
pub proof fn lemma_number_round_trip(r: Response)
    ensures
        numbered(number(r)) == Some(r),
{
}

} // verus!
