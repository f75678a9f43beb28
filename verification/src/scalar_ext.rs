//! The node extension: the settings of the consensus client it starts, and
//! where that client connects.

use vstd::prelude::*;
use crate::text::string_of;

verus! {

/// The consensus protocol used by default.
pub const DEFAULT_CONSENSUS_PROTOCOL: &'static str = "narwhal";

/// The default port of the consensus gRPC server.
pub const DEFAULT_CONSENSUS_PORT: u16 = 8555;

/// The default block time, in milliseconds.
pub const DEFAULT_BLOCK_TIME: u32 = 12000;

/// The default largest number of transactions in a block.
pub const DEFAULT_MAX_BLOCK_TRANSACTIONS: u32 = 2000;

/// An IP address, by its octets.
#[derive(Clone, Copy, Debug)]
pub enum IpAddress {
    V4([u8; 4]),
    V6([u8; 16]),
}

/// The IPv4 loopback address, 127.0.0.1.
pub open spec fn localhost() -> IpAddress {
    IpAddress::V4([127u8, 0u8, 0u8, 1u8])
}

/// The settings of the consensus client.
#[derive(Clone, Debug)]
pub struct ConsensusArgs {
    /// Whether the Narwhal client is enabled.
    pub consensus_enable: bool,
    /// The consensus protocol.
    pub consensus_protocol: String,
    /// The address of the consensus server.
    pub consensus_addr: IpAddress,
    /// The port of the consensus server.
    pub consensus_port: u16,
    /// How long to wait for transactions before sealing a block, in
    /// milliseconds.
    pub consensus_blocktime: u32,
    /// The largest number of transactions in a block.
    pub consensus_max_transactions: u32,
}

impl Default for ConsensusArgs {
    fn default() -> (r: Self)
        ensures
            !r.consensus_enable,
            r.consensus_protocol@ == "narwhal"@,
            r.consensus_addr == localhost(),
            r.consensus_port == DEFAULT_CONSENSUS_PORT,
            r.consensus_blocktime == DEFAULT_BLOCK_TIME,
            r.consensus_max_transactions == DEFAULT_MAX_BLOCK_TRANSACTIONS,
    {
        proof {
            reveal_strlit("narwhal");
        }
        ConsensusArgs {
            consensus_enable: false,
            consensus_protocol: string_of(DEFAULT_CONSENSUS_PROTOCOL),
            consensus_addr: IpAddress::V4([127u8, 0u8, 0u8, 1u8]),
            consensus_port: DEFAULT_CONSENSUS_PORT,
            consensus_blocktime: DEFAULT_BLOCK_TIME,
            consensus_max_transactions: DEFAULT_MAX_BLOCK_TRANSACTIONS,
        }
    }
}

/// The configuration of the node command's extension.
#[derive(Clone, Debug)]
pub struct ScalarRethNodeCommandConfig {
    /// The consensus client's settings, if given.
    pub consensus: Option<ConsensusArgs>,
}

impl Default for ScalarRethNodeCommandConfig {
    fn default() -> (r: Self)
        ensures
            r.consensus is None,
    {
        ScalarRethNodeCommandConfig { consensus: None }
    }
}

impl ScalarRethNodeCommandConfig {
    /// The address and port of the consensus server that the consensus
    /// adapter connects to: those of the settings given, else the defaults.
    pub fn consensus_endpoint(&self) -> (r: (IpAddress, u16))
        ensures
            match self.consensus {
                Some(args) => r == (args.consensus_addr, args.consensus_port),
                None => r == (localhost(), DEFAULT_CONSENSUS_PORT),
            },
    {
        match &self.consensus {
            Some(args) => (args.consensus_addr, args.consensus_port),
            None => {
                let args = ConsensusArgs::default();
                (args.consensus_addr, args.consensus_port)
            },
        }
    }
}

/// The command-line extension of the node.
pub struct ScalarExt {}

} // verus!
