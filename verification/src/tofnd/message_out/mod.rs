//! The contents of a message from the threshold-signature service.

use vstd::prelude::*;
use super::TrafficOut;

pub mod criminal_list;
pub mod keygen_result;
pub mod sign_result;

verus! {

/// Keygen's result.
#[derive(Clone, Debug, PartialEq)]
pub struct KeygenResult {
    pub keygen_result_data: Option<keygen_result::KeygenResultData>,
}

/// Sign's result.
#[derive(Clone, Debug, PartialEq)]
pub struct SignResult {
    pub sign_result_data: Option<sign_result::SignResultData>,
}

/// Keygen or sign failure: the parties to blame.
#[derive(Clone, Debug, PartialEq)]
pub struct CriminalList {
    pub criminals: Vec<criminal_list::Criminal>,
}

/// The contents of a message from the threshold-signature service.
#[derive(Clone, Debug, PartialEq)]
pub enum Data {
    /// All but the final message.
    Traffic(TrafficOut),
    /// Final message only, keygen.
    KeygenResult(KeygenResult),
    /// Final message only, sign.
    SignResult(SignResult),
    /// Recovery is needed.
    NeedRecover(bool),
}

} // verus!
