//! The outcome of a signing.

use vstd::prelude::*;
use super::CriminalList;

verus! {

/// The outcome of a signing.
#[derive(Clone, Debug, PartialEq)]
pub enum SignResultData {
    /// Success.
    Signature(Vec<u8>),
    /// Failure.
    Criminals(CriminalList),
}

} // verus!
