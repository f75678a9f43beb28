//! Block building for the node that hands its blocks to the engine API of the
//! execution client.

pub mod laws;
pub mod mode;
