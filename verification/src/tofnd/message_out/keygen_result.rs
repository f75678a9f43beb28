//! The outcome of a key generation.

use vstd::prelude::*;
use super::CriminalList;
use crate::tofnd::KeygenOutput;

verus! {

/// The outcome of a key generation.
#[derive(Clone, Debug, PartialEq)]
pub enum KeygenResultData {
    /// Success.
    Data(KeygenOutput),
    /// Failure.
    Criminals(CriminalList),
}

} // verus!
