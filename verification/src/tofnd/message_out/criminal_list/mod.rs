//! A party blamed for a failed protocol.

use vstd::prelude::*;

pub mod criminal;

verus! {

/// A party blamed for a failed protocol, and the kind of its fault.
#[derive(Clone, Debug, PartialEq)]
pub struct Criminal {
    pub party_uid: String,
    pub crime_type: i32,
}

} // verus!
