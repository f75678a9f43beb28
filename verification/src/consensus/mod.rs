//! Block building for the node that takes its transaction order from the
//! Narwhal consensus layer.

pub mod laws;
pub mod mode;
pub mod pool;
pub mod scalar;
