//! Verified core of the Scalar node: object storage keys, TSS message
//! routing and sanitising, event verification, and block building.

pub mod base_types;
pub mod bytes;
pub mod cli;
pub mod consensus;
pub mod consensus_adapter;
pub mod gg20;
pub mod json_rpc_error;
pub mod kv_store;
pub mod messages_safe_client;
pub mod move_types;
pub mod multisig;
pub mod scalar_event;
pub mod scalar_ext;
pub mod storage;
pub mod store;
pub mod swarm;
pub mod text;
pub mod tofnd;
pub mod tss;
pub mod types;
