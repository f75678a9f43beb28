//! Requests to the multisig service of the threshold-signature daemon.

use vstd::prelude::*;
use crate::text::{decimal, push_decimal, string_of};

verus! {

/// A request to generate a multisig key.
#[derive(Clone, Debug, PartialEq)]
pub struct MultisigKeygenRequest {
    pub key_uid: String,
    pub party_uid: String,
}

/// A request to sign with a multisig key.
#[derive(Clone, Debug, PartialEq)]
pub struct MultisigSignRequest {
    pub key_uid: String,
    pub msg_to_sign: Vec<u8>,
    pub party_uid: String,
    pub pub_key: Vec<u8>,
}

/// Why a multisig request could not be made.
#[derive(Clone, Debug, PartialEq)]
pub enum MultisigError {
    /// No public key has been set yet.
    MissingPubkey,
}

/// The key identifier of the multisig key of an epoch.
pub open spec fn multisig_key_uid(epoch: u64) -> Seq<char> {
    "miltisig_"@ + decimal(epoch as nat)
}

/// A party of the multisig service: its identifier, the committee's epoch,
/// and the public key once known.
pub struct Multisig {
    party_uid: String,
    epoch: u64,
    pub_key: Option<Vec<u8>>,
}

impl Multisig {
    pub closed spec fn party_uid(&self) -> Seq<char> {
        self.party_uid@
    }

    pub closed spec fn epoch(&self) -> u64 {
        self.epoch
    }

    pub closed spec fn pub_key(&self) -> Option<Seq<u8>> {
        match self.pub_key {
            Some(k) => Some(k@),
            None => None,
        }
    }

    /// A party without a public key yet.
    pub fn new(party_uid: String, epoch: u64) -> (r: Self)
        ensures
            r.party_uid() == party_uid@,
            r.epoch() == epoch,
            r.pub_key() is None,
    {
        Multisig { party_uid, epoch, pub_key: None }
    }

    /// Records the public key.
    pub fn set_pub_key(&mut self, pub_key: Vec<u8>)
        ensures
            final(self).pub_key() == Some(pub_key@),
            final(self).party_uid() == old(self).party_uid(),
            final(self).epoch() == old(self).epoch(),
    {
        self.pub_key = Some(pub_key);
    }

    /// The request to generate the epoch's multisig key.
    pub fn create_keygen_request(&self) -> (r: MultisigKeygenRequest)
        ensures
            r.key_uid@ == multisig_key_uid(self.epoch()),
            r.party_uid@ == self.party_uid(),
    {
        let mut key_uid = string_of("miltisig_");
        push_decimal(&mut key_uid, self.epoch);
        MultisigKeygenRequest { key_uid, party_uid: self.party_uid.clone() }
    }

    /// The request to sign `msg_to_sign` with the epoch's multisig key;
    /// refused while the public key is not known.
    pub fn create_sign_request(&self, msg_to_sign: Vec<u8>) -> (r: Result<MultisigSignRequest, MultisigError>)
        ensures
            self.pub_key() is None ==> r == Err::<MultisigSignRequest, MultisigError>(
                MultisigError::MissingPubkey,
            ),
            self.pub_key() matches Some(k) ==> r matches Ok(req) && req.key_uid@ == multisig_key_uid(
                self.epoch(),
            ) && req.msg_to_sign == msg_to_sign && req.party_uid@ == self.party_uid() && req.pub_key@
                == k,
    {
        match &self.pub_key {
            None => Err(MultisigError::MissingPubkey),
            Some(pub_key) => {
                let mut key_uid = string_of("miltisig_");
                push_decimal(&mut key_uid, self.epoch);
                Ok(MultisigSignRequest {
                    key_uid,
                    msg_to_sign,
                    party_uid: self.party_uid.clone(),
                    pub_key: crate::bytes::copy_bytes(pub_key.as_slice()),
                })
            },
        }
    }
}

} // verus!
