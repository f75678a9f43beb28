//! The handles that starting the consensus client gives back.

use vstd::prelude::*;

verus! {

/// The handles of a started consensus client.
#[derive(Debug, Clone)]
pub struct ScalarConsensusHandles {}

} // verus!
