//! Errors reported by the JSON-RPC interface, and how a client classifies
//! them.

use vstd::prelude::*;
use crate::text::{push_str, string_of};

verus! {

/// The code of an error that was not a call error.
pub const UNKNOWN_ERROR_CODE: i32 = -32001;
/// Invalid JSON was received.
pub const PARSE_ERROR_CODE: i32 = -32700;
/// The request was too big.
pub const OVERSIZED_REQUEST_CODE: i32 = -32007;
/// Invalid method parameters.
pub const INVALID_PARAMS_CODE: i32 = -32602;
/// The JSON sent is not a valid request.
pub const INVALID_REQUEST_CODE: i32 = -32600;
/// The method does not exist.
pub const METHOD_NOT_FOUND_CODE: i32 = -32601;
/// Batched requests are not supported.
pub const BATCHES_NOT_SUPPORTED_CODE: i32 = -32005;
/// The transaction was refused because of the client's input.
pub const TRANSACTION_EXECUTION_CLIENT_ERROR_CODE: i32 = -32002;
/// A transient failure; the request may succeed when retried.
pub const TRANSIENT_ERROR_CODE: i32 = -32050;

#[verifier::external_type_specification]
#[verifier::external_body]
pub struct ExJsonValue(serde_json::Value);

/// An error returned by the JSON-RPC interface.
#[derive(Debug, Clone)]
pub struct Error {
    pub code: i32,
    pub message: String,
    pub data: Option<serde_json::Value>,
}

/// The decimal rendering of a signed integer.
pub open spec fn signed_decimal(n: int) -> Seq<char> {
    if n < 0 {
        seq!['-'] + crate::text::decimal((-n) as nat)
    } else {
        crate::text::decimal(n as nat)
    }
}

/// The decimal rendering of a signed integer reads back as that integer: a
/// minus sign exactly for a negative number, followed by the digits of its
/// magnitude.
pub proof fn lemma_signed_decimal_reads_back(n: int)
    ensures
        signed_decimal(n).len() > 0,
        (signed_decimal(n)[0] == '-') <==> n < 0,
        n < 0 ==> crate::text::decimal_value(signed_decimal(n).skip(1)) == -n,
        n >= 0 ==> crate::text::decimal_value(signed_decimal(n)) == n,
{
    if n < 0 {
        crate::text::lemma_decimal_reads_back((-n) as nat);
        let d = crate::text::decimal((-n) as nat);
        assert(signed_decimal(n).skip(1) =~= d);
    } else {
        crate::text::lemma_decimal_reads_back(n as nat);
        let d = crate::text::decimal(n as nat);
        assert(('0' as int) <= (d[0] as int) <= ('9' as int));
    }
}

impl Error {
    /// The error for what a JSON-RPC client error holds: a call error
    /// (`Ok` with its code and message) keeps its code and message; any other
    /// client error (`Err` with its debug rendering) becomes an unknown error
    /// with that rendering as its message.
    pub fn from_call_parts(parts: Result<(i32, String), String>) -> (r: Error)
        ensures
            r.data is None,
            match parts {
                Ok((code, message)) => r.code == code && r.message@ == message@,
                Err(debug) => r.code == UNKNOWN_ERROR_CODE && r.message@ == debug@,
            },
    {
        match parts {
            Ok((code, message)) => Error { code, message, data: None },
            Err(debug) => Error { code: UNKNOWN_ERROR_CODE, message: debug, data: None },
        }
    }

    /// Whether the error came from a call.
    pub fn is_call_error(&self) -> (r: bool)
        ensures
            r == (self.code != UNKNOWN_ERROR_CODE),
    {
        self.code != UNKNOWN_ERROR_CODE
    }

    /// Whether the client is at fault.
    pub fn is_client_error(&self) -> (r: bool)
        ensures
            r == (self.code == PARSE_ERROR_CODE || self.code == OVERSIZED_REQUEST_CODE || self.code
                == INVALID_PARAMS_CODE || self.code == INVALID_REQUEST_CODE || self.code
                == METHOD_NOT_FOUND_CODE || self.code == BATCHES_NOT_SUPPORTED_CODE || self.code
                == TRANSACTION_EXECUTION_CLIENT_ERROR_CODE),
    {
        self.code == PARSE_ERROR_CODE || self.code == OVERSIZED_REQUEST_CODE || self.code
            == INVALID_PARAMS_CODE || self.code == INVALID_REQUEST_CODE || self.code
            == METHOD_NOT_FOUND_CODE || self.code == BATCHES_NOT_SUPPORTED_CODE || self.code
            == TRANSACTION_EXECUTION_CLIENT_ERROR_CODE
    }

    /// Whether the transaction was refused because of the client's input.
    pub fn is_execution_error(&self) -> (r: bool)
        ensures
            r == (self.code == TRANSACTION_EXECUTION_CLIENT_ERROR_CODE),
    {
        self.code == TRANSACTION_EXECUTION_CLIENT_ERROR_CODE
    }

    /// Whether the failure is transient.
    pub fn is_transient_error(&self) -> (r: bool)
        ensures
            r == (self.code == TRANSIENT_ERROR_CODE),
    {
        self.code == TRANSIENT_ERROR_CODE
    }

    /// The error as text: its code and its message.
    pub fn to_string(&self) -> (r: String)
        ensures
            r@ == "code: '"@ + signed_decimal(self.code as int) + "', message: '"@ + self.message@
                + "'"@,
    {
        let mut r = string_of("code: '");
        if self.code < 0 {
            push_str(&mut r, "-");
            proof {
                reveal_strlit("-");
            }
            let magnitude: u64 = (0i64 - (self.code as i64)) as u64;
            crate::text::push_decimal(&mut r, magnitude);
        } else {
            crate::text::push_decimal(&mut r, self.code as u64);
        }
        push_str(&mut r, "', message: '");
        push_str(&mut r, self.message.as_str());
        push_str(&mut r, "'");
        assert(r@ =~= "code: '"@ + signed_decimal(self.code as int) + "', message: '"@ + self.message@
            + "'"@);
        r
    }
}

} // verus!
