//! The answer to a recovery request.

use vstd::prelude::*;

verus! {

/// The answer to a recovery request.
#[derive(Clone, Copy, Debug, PartialEq, Eq, Structural)]
pub enum Response {
    Unspecified,
    Success,
    Fail,
}

/// The name of a value in the protocol definition.
pub open spec fn str_name(r: Response) -> Seq<char> {
    match r {
        Response::Unspecified => "RESPONSE_UNSPECIFIED"@,
        Response::Success => "RESPONSE_SUCCESS"@,
        Response::Fail => "RESPONSE_FAIL"@,
    }
}

/// The number of a value in the protocol definition.
pub open spec fn number(r: Response) -> i32 {
    match r {
        Response::Unspecified => 0i32,
        Response::Success => 1i32,
        Response::Fail => 2i32,
    }
}

/// The value named `value` in the protocol definition, if any.
pub open spec fn named(value: Seq<char>) -> Option<Response> {
    if value == "RESPONSE_UNSPECIFIED"@ {
        Some(Response::Unspecified)
    } else if value == "RESPONSE_SUCCESS"@ {
        Some(Response::Success)
    } else if value == "RESPONSE_FAIL"@ {
        Some(Response::Fail)
    } else {
        None
    }
}

/// The value numbered `n` in the protocol definition, if any.
pub open spec fn numbered(n: i32) -> Option<Response> {
    if n == 0 {
        Some(Response::Unspecified)
    } else if n == 1 {
        Some(Response::Success)
    } else if n == 2 {
        Some(Response::Fail)
    } else {
        None
    }
}

/// A value's name and number each lead back to it: the protocol
/// definition names and numbers every value, and no two alike.
pub proof fn lemma_names_and_numbers_round_trip(r: Response)
    ensures
        named(str_name(r)) == Some(r),
        numbered(number(r)) == Some(r),
{
    reveal_strlit("RESPONSE_UNSPECIFIED");
    reveal_strlit("RESPONSE_SUCCESS");
    reveal_strlit("RESPONSE_FAIL");
    assert("RESPONSE_UNSPECIFIED"@.len() != "RESPONSE_SUCCESS"@.len());
    assert("RESPONSE_UNSPECIFIED"@.len() != "RESPONSE_FAIL"@.len());
    assert("RESPONSE_SUCCESS"@.len() != "RESPONSE_FAIL"@.len());
}

impl Response {
    /// String value of the enum field names used in the protocol definition.
    pub fn as_str_name(&self) -> (r: &'static str)
        ensures
            r@ == str_name(*self),
    {
        match self {
            Response::Unspecified => "RESPONSE_UNSPECIFIED",
            Response::Success => "RESPONSE_SUCCESS",
            Response::Fail => "RESPONSE_FAIL",
        }
    }

    /// Creates a value from a field name used in the protocol definition.
    pub fn from_str_name(value: &str) -> (r: Option<Self>)
        ensures
            r == named(value@),
    {
        if crate::text::str_eq(value, "RESPONSE_UNSPECIFIED") {
            Some(Response::Unspecified)
        } else if crate::text::str_eq(value, "RESPONSE_SUCCESS") {
            Some(Response::Success)
        } else if crate::text::str_eq(value, "RESPONSE_FAIL") {
            Some(Response::Fail)
        } else {
            None
        }
    }

    /// The value with the given number, if any.
    pub fn from_i32(n: i32) -> (r: Option<Self>)
        ensures
            r == numbered(n),
    {
        if n == 0 {
            Some(Response::Unspecified)
        } else if n == 1 {
            Some(Response::Success)
        } else if n == 2 {
            Some(Response::Fail)
        } else {
            None
        }
    }

    /// The number of the value.
    pub fn to_i32(&self) -> (r: i32)
        ensures
            r == number(*self),
    {
        match self {
            Response::Unspecified => 0,
            Response::Success => 1,
            Response::Fail => 2,
        }
    }
}

/// Reading back a value's name gives the value.
pub proof fn lemma_name_round_trip(r: Response)
    ensures
        named(str_name(r)) == Some(r),
{
    reveal_strlit("RESPONSE_UNSPECIFIED");
    reveal_strlit("RESPONSE_SUCCESS");
    reveal_strlit("RESPONSE_FAIL");
    assert("RESPONSE_UNSPECIFIED"@.len() == 20 && "RESPONSE_SUCCESS"@.len() == 16 && "RESPONSE_FAIL"@.len() == 13);
}

/// Reading back a value's number gives the value.
pub proof fn lemma_number_round_trip(r: Response)
    ensures
        numbered(number(r)) == Some(r),
{
}

} // verus!
