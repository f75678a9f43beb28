//! The messages exchanged with the threshold-signature service.

use vstd::prelude::*;

pub mod key_presence_response;
pub mod message_in;
pub mod message_out;
pub mod recover_response;

verus! {

/// Key presence check request.
#[derive(Clone, Debug, PartialEq)]
pub struct KeyPresenceRequest {
    pub key_uid: String,
    /// SEC1-encoded compressed public key bytes to find the right mnemonic.
    /// The latest is used if empty.
    pub pub_key: Vec<u8>,
}

/// Key presence check response.
#[derive(Clone, Debug, PartialEq)]
pub struct KeyPresenceResponse {
    pub response: i32,
}

/// Recovery request.
#[derive(Clone, Debug, PartialEq)]
pub struct RecoverRequest {
    pub keygen_init: Option<KeygenInit>,
    pub keygen_output: Option<KeygenOutput>,
}

/// Recovery response.
#[derive(Clone, Debug, PartialEq)]
pub struct RecoverResponse {
    pub response: i32,
}

/// Keygen's success response.
#[derive(Clone, Debug, PartialEq)]
pub struct KeygenOutput {
    /// Public key, common for all parties.
    pub pub_key: Vec<u8>,
    /// Recovery info common for all parties.
    pub group_recover_info: Vec<u8>,
    /// Recovery info unique for each party.
    pub private_recover_info: Vec<u8>,
}

/// A message to the threshold-signature service.
#[derive(Clone, Debug, PartialEq)]
pub struct MessageIn {
    pub data: Option<message_in::Data>,
}

/// A message from the threshold-signature service.
#[derive(Clone, Debug, PartialEq)]
pub struct MessageOut {
    pub data: Option<message_out::Data>,
}

/// Protocol traffic coming in from a party.
#[derive(Clone, Debug, PartialEq)]
pub struct TrafficIn {
    pub from_party_uid: String,
    pub payload: Vec<u8>,
    pub is_broadcast: bool,
}

/// Protocol traffic going out to a party.
#[derive(Clone, Debug, PartialEq)]
pub struct TrafficOut {
    pub to_party_uid: String,
    pub payload: Vec<u8>,
    pub is_broadcast: bool,
}

/// The parameters of a key generation.
#[derive(Clone, Debug, PartialEq)]
pub struct KeygenInit {
    pub new_key_uid: String,
    pub party_uids: Vec<String>,
    pub party_share_counts: Vec<u32>,
    /// The server's own party is `party_uids[my_party_index]`.
    pub my_party_index: u32,
    pub threshold: u32,
}

/// The parameters of a signing.
#[derive(Clone, Debug, PartialEq)]
pub struct SignInit {
    pub new_sig_uid: String,
    pub key_uid: String,
    pub party_uids: Vec<String>,
    pub message_to_sign: Vec<u8>,
}

impl Default for TrafficIn {
    fn default() -> (r: Self)
        ensures
            r.from_party_uid@ == Seq::<char>::empty(),
            r.payload@ == Seq::<u8>::empty(),
            !r.is_broadcast,
    {
        TrafficIn { from_party_uid: String::new(), payload: Vec::new(), is_broadcast: false }
    }
}

impl Default for KeygenInit {
    fn default() -> (r: Self)
        ensures
            r.new_key_uid@ == Seq::<char>::empty(),
            r.party_uids@ == Seq::<String>::empty(),
            r.party_share_counts@ == Seq::<u32>::empty(),
            r.my_party_index == 0,
            r.threshold == 0,
    {
        KeygenInit {
            new_key_uid: String::new(),
            party_uids: Vec::new(),
            party_share_counts: Vec::new(),
            my_party_index: 0,
            threshold: 0,
        }
    }
}

impl Default for SignInit {
    fn default() -> (r: Self)
        ensures
            r.new_sig_uid@ == Seq::<char>::empty(),
            r.key_uid@ == Seq::<char>::empty(),
            r.party_uids@ == Seq::<String>::empty(),
            r.message_to_sign@ == Seq::<u8>::empty(),
    {
        SignInit {
            new_sig_uid: String::new(),
            key_uid: String::new(),
            party_uids: Vec::new(),
            message_to_sign: Vec::new(),
        }
    }
}

} // verus!
