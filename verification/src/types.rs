//! Messages between the parties of the threshold-signature network, and the
//! events whose digests the parties sign.

use vstd::prelude::*;
use crate::bytes::copy_bytes;
use std::collections::HashMap;

verus! {

/// A round of the DAG.
pub type Round = u64;

/// An epoch of the committee.
pub type Epoch = u64;

/// The identifier of an authority in the committee.
pub type AuthorityIdentifier = u16;

/// Protocol traffic handed from one party to the others.
#[derive(Clone, Debug, PartialEq, Eq)]
pub struct TssAnemoDeliveryMessage {
    pub from_party_uid: String,
    pub is_broadcast: bool,
    pub payload: Vec<u8>,
}

/// Keygen traffic for a peer.
#[derive(Clone, Debug)]
pub struct TssAnemoKeygenRequest {
    pub message: TssAnemoDeliveryMessage,
}

/// A peer's acknowledgement of keygen traffic.
#[derive(Clone, Debug)]
pub struct TssAnemoKeygenResponse {
    pub message: String,
}

/// Sign traffic for a peer.
#[derive(Clone, Debug)]
pub struct TssAnemoSignRequest {
    pub message: TssAnemoDeliveryMessage,
}

/// A peer's acknowledgement of sign traffic.
#[derive(Clone, Debug)]
pub struct TssAnemoSignResponse {
    pub message: String,
}

/// A verification request for a peer.
#[derive(Clone, Debug)]
pub struct TssAnemoVerifyRequest {
    pub message: TssAnemoDeliveryMessage,
}

/// A peer's answer to a verification request.
#[derive(Clone, Debug)]
pub struct TssAnemoVerifyResponse {
    pub message: String,
}

/// The Keccak-256 hash of `data`, as computed by `ethers_core::utils::keccak256`.
pub uninterp spec fn keccak256(data: Seq<u8>) -> Seq<u8>;

/// Keccak-256 of `data` (`ethers_core::utils::keccak256`).
#[verifier::external_body]
fn keccak256_digest(data: &[u8]) -> (r: [u8; 32])
    ensures
        r@ == keccak256(data@),
{
    ethers_core::utils::keccak256(data)
}

/// A message observed on an external chain.
#[derive(Clone, Debug)]
pub struct ExternalMessage {
    pub message: Vec<u8>,
}

impl ExternalMessage {
    pub fn new(message: Vec<u8>) -> (r: Self)
        ensures
            r.message == message,
    {
        ExternalMessage { message }
    }

    /// The Keccak-256 digest of the message.
    pub fn get_digest(&self) -> (r: [u8; 32])
        ensures
            r@ == keccak256(self.message@),
    {
        keccak256_digest(self.message.as_slice())
    }
}

/// An event transaction: the payload and its threshold signature.
#[derive(Clone, Debug)]
pub struct ScalarEventTransaction {
    pub payload: Vec<u8>,
    pub tss_signature: Vec<u8>,
}

/// The digest that identifies an event.
#[derive(Clone, Copy, Debug)]
pub struct EventDigest(pub [u8; 32]);

impl View for EventDigest {
    type V = Seq<u8>;

    open spec fn view(&self) -> Seq<u8> {
        self.0@
    }
}

impl EventDigest {
    /// The digest of an external message.
    pub fn of_message(msg: &ExternalMessage) -> (r: Self)
        ensures
            r@ == keccak256(msg.message@),
    {
        EventDigest(msg.get_digest())
    }

    /// Whether two digests are the same.
    pub fn same_as(&self, other: &EventDigest) -> (r: bool)
        ensures
            r == (self@ == other@),
    {
        crate::bytes::bytes_eq(self.0.as_slice(), other.0.as_slice())
    }
}

/// A transaction to be carried to another chain.
#[derive(Clone, Debug)]
pub struct CrossChainTransaction {
    pub payload: Vec<u8>,
}

/// The signatures collected for an event, one per authority.
pub struct SignatureSet {
    signatures: HashMap<AuthorityIdentifier, Vec<u8>>,
}

impl View for SignatureSet {
    type V = Map<AuthorityIdentifier, Seq<u8>>;

    closed spec fn view(&self) -> Map<AuthorityIdentifier, Seq<u8>> {
        self.signatures@.map_values(|s: Vec<u8>| s@)
    }
}

impl SignatureSet {
    /// No signatures.
    pub fn new() -> (r: Self)
        ensures
            r@ == Map::<AuthorityIdentifier, Seq<u8>>::empty(),
    {
        let r = SignatureSet { signatures: HashMap::new() };
        assert(r@ =~= Map::<AuthorityIdentifier, Seq<u8>>::empty());
        r
    }

    /// The signature of `id`, if recorded.
    pub fn get(&self, id: AuthorityIdentifier) -> (r: Option<&Vec<u8>>)
        ensures
            match r {
                Some(s) => self@.contains_key(id) && self@[id] == s@,
                None => !self@.contains_key(id),
            },
    {
        broadcast use vstd::std_specs::hash::group_hash_axioms;

        self.signatures.get(&id)
    }

    /// Records `signature` as the signature of `id`, replacing any earlier one.
    pub fn insert(&mut self, id: AuthorityIdentifier, signature: Vec<u8>)
        ensures
            final(self)@ == old(self)@.insert(id, signature@),
    {
        broadcast use vstd::std_specs::hash::group_hash_axioms;

        let ghost sig = signature@;
        let _ = self.signatures.insert(id, signature);
        assert(self@ =~= old(self)@.insert(id, sig));
    }

    /// Whether `id` has signed.
    pub fn contains(&self, id: AuthorityIdentifier) -> (r: bool)
        ensures
            r == self@.contains_key(id),
    {
        self.get(id).is_some()
    }

    /// The signers and their signatures, in the order in which the map
    /// walks them.
    pub fn to_vec(&self) -> (r: Vec<(AuthorityIdentifier, Vec<u8>)>)
        ensures
            r@.len() == self@.dom().len(),
            forall|i: int| 0 <= i < r@.len() ==> self@.contains_key(#[trigger] r@[i].0) && self@[r@[i].0] == r@[i].1@,
            forall|id: AuthorityIdentifier| self@.contains_key(id) ==> exists|i: int| 0 <= i < r@.len() && #[trigger] r@[i].0 == id,
    {
        broadcast use vstd::std_specs::hash::group_hash_axioms;
        broadcast use vstd::std_specs::hash::axiom_spec_hash_map_iter;

        let mut r: Vec<(AuthorityIdentifier, Vec<u8>)> = Vec::new();
        for (k, v) in it: self.signatures.iter()
            invariant
                it.seq() == vstd::std_specs::iter::IteratorSpec::remaining(&vstd::std_specs::hash::spec_hash_map_iter(&self.signatures)),
                r@.len() == it.index(),
                forall|j: int| 0 <= j < it.index() ==> r@[j].0 == *(#[trigger] it.seq()[j]).0,
                forall|j: int| 0 <= j < it.index() ==> r@[j].1@ == (*(#[trigger] it.seq()[j]).1)@,
        {
            let ghost r0 = r@;
            r.push((*k, copy_bytes(v.as_slice())));
            assert(r@[r@.len() - 1].0 == *k);
            assert(forall|j: int| 0 <= j < r0.len() ==> r@[j] == r0[j]);
        }
        proof {
            let v = vstd::std_specs::iter::IteratorSpec::remaining(
                &vstd::std_specs::hash::spec_hash_map_iter(&self.signatures),
            );
            assert(r@.len() == v.len());
            assert(self@.dom() =~= self.signatures@.dom());
            assert forall|i: int| 0 <= i < r@.len() implies self@.contains_key(#[trigger] r@[i].0)
                && self@[r@[i].0] == r@[i].1@ by {
                assert(self.signatures@.contains_key(*v[i].0));
            }
        }
        r
    }
}

/// An event being verified by the committee: its digest, where it was
/// proposed, and the signatures collected for it.
pub struct EventVerify {
    pub digest: EventDigest,
    pub author: AuthorityIdentifier,
    pub round: Round,
    pub epoch: Epoch,
    pub signatures: SignatureSet,
}

impl EventVerify {
    /// An event proposed by `author`, with the author's own signature.
    pub fn new(
        author: AuthorityIdentifier,
        round: Round,
        epoch: Epoch,
        digest: EventDigest,
        signature: Vec<u8>,
    ) -> (r: Self)
        ensures
            r.author == author,
            r.round == round,
            r.epoch == epoch,
            r.digest@ == digest@,
            r.signatures@ == Map::<AuthorityIdentifier, Seq<u8>>::empty().insert(author, signature@),
    {
        let mut signatures = SignatureSet::new();
        signatures.insert(author, signature);
        EventVerify { digest, author, round, epoch, signatures }
    }

    /// The event's digest.
    pub fn digest(&self) -> (r: EventDigest)
        ensures
            r@ == self.digest@,
    {
        EventDigest(self.digest.0)
    }

    /// Records `authority`'s signature, replacing any earlier one.
    pub fn add_signature(&mut self, authority: &AuthorityIdentifier, signature: Vec<u8>)
        ensures
            final(self).signatures@ == old(self).signatures@.insert(*authority, signature@),
            final(self).digest == old(self).digest,
            final(self).author == old(self).author,
            final(self).round == old(self).round,
            final(self).epoch == old(self).epoch,
    {
        self.signatures.insert(*authority, signature);
    }

    /// `authority`'s signature, if recorded.
    pub fn get_signature(&self, authority: &AuthorityIdentifier) -> (r: Option<&Vec<u8>>)
        ensures
            match r {
                Some(s) => self.signatures@.contains_key(*authority) && self.signatures@[*authority] == s@,
                None => !self.signatures@.contains_key(*authority),
            },
    {
        self.signatures.get(*authority)
    }
}

} // verus!
