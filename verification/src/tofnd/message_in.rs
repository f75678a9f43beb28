//! The contents of a message to the threshold-signature service.

use vstd::prelude::*;
use super::{KeygenInit, SignInit, TrafficIn};

verus! {

/// The contents of a message to the threshold-signature service.
#[derive(Clone, Debug, PartialEq)]
pub enum Data {
    /// First message only, keygen.
    KeygenInit(KeygenInit),
    /// First message only, sign.
    SignInit(SignInit),
    /// All subsequent messages.
    Traffic(TrafficIn),
    /// Abort the protocol; the value is ignored.
    Abort(bool),
}

} // verus!
