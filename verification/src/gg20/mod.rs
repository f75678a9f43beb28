//! The GG20 threshold-signature service: routing of incoming protocol
//! traffic and sanitising of the parameters of a signing.

pub mod routing;
pub mod sign;
