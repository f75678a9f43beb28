//! Verification of external events by the committee: signatures are
//! collected from the authorities, and once they carry a quorum of stake the
//! event's digest is handed to the threshold signers.

use vstd::prelude::*;
use crate::text::{decimal, hex_encode, hex_lower, push_decimal, push_str, string_of};
use crate::tofnd::SignInit;
use crate::types::{AuthorityIdentifier, Epoch, EventVerify};

verus! {

/// An event transaction of the primary: the payload and its signature.
#[derive(Clone, Debug)]
pub struct ScalarEventTransaction {
    payload: Vec<u8>,
    signature: Vec<u8>,
}

impl ScalarEventTransaction {
    pub fn new(payload: Vec<u8>, signature: Vec<u8>) -> (r: Self)
        ensures
            r.payload() == payload,
            r.signature() == signature,
    {
        ScalarEventTransaction { payload, signature }
    }

    pub closed spec fn payload(&self) -> Vec<u8> {
        self.payload
    }

    pub closed spec fn signature(&self) -> Vec<u8> {
        self.signature
    }
}

/// An authority of the committee, as event verification reads it.
#[derive(Clone, Debug)]
pub struct AuthorityInfo {
    pub id: AuthorityIdentifier,
    pub stake: u64,
    /// The authority's party identifier in the threshold-signature network.
    pub party_uid: String,
}

/// The committee, as event verification reads it.
pub struct CommitteeInfo {
    pub epoch: Epoch,
    /// The authorities, in the committee's order; no identifier occurs twice
    /// (`ids_distinct`), which the functions that count stake require.
    pub authorities: Vec<AuthorityInfo>,
    /// The stake that makes a quorum.
    pub quorum_threshold: u64,
}

/// Whether no identifier occurs twice among the authorities, as in a
/// committee, where each authority is found by its identifier.
pub open spec fn ids_distinct(authorities: Seq<AuthorityInfo>) -> bool {
    forall|i: int, j: int|
        0 <= i < j < authorities.len() ==> #[trigger] authorities[i].id != #[trigger] authorities[j].id
}

/// The total stake of the authorities of `authorities` that appear in
/// `signers`.
pub open spec fn signed_stake(authorities: Seq<AuthorityInfo>, signers: Set<AuthorityIdentifier>) -> int
    decreases authorities.len(),
{
    if authorities.len() == 0 {
        0
    } else {
        signed_stake(authorities.drop_last(), signers) + if signers.contains(authorities.last().id) {
            authorities.last().stake as int
        } else {
            0
        }
    }
}

/// The total stake of the committee.
pub open spec fn total_stake(authorities: Seq<AuthorityInfo>) -> int
    decreases authorities.len(),
{
    if authorities.len() == 0 {
        0
    } else {
        total_stake(authorities.drop_last()) + authorities.last().stake as int
    }
}

/// The session key identifier of the committee's threshold key for an epoch.
pub open spec fn tss_key_uid(epoch: Epoch) -> Seq<char> {
    "tss_session"@ + decimal(epoch as nat)
}

/// The party identifiers of the authorities, in order.
pub open spec fn party_uids(authorities: Seq<AuthorityInfo>) -> Seq<Seq<char>> {
    authorities.map_values(|a: AuthorityInfo| a.party_uid@)
}

/// The signed stake of a prefix never exceeds that of the whole list, nor
/// the total stake of the prefix.
pub proof fn lemma_signed_stake_bounds(authorities: Seq<AuthorityInfo>, signers: Set<AuthorityIdentifier>)
    ensures
        0 <= signed_stake(authorities, signers) <= total_stake(authorities),
    decreases authorities.len(),
{
    if authorities.len() > 0 {
        lemma_signed_stake_bounds(authorities.drop_last(), signers);
    }
}

proof fn lemma_total_stake_prefix(authorities: Seq<AuthorityInfo>, i: int)
    requires
        0 <= i <= authorities.len(),
    ensures
        total_stake(authorities.take(i)) <= total_stake(authorities),
    decreases authorities.len(),
{
    if i < authorities.len() {
        assert(authorities.drop_last().take(i) =~= authorities.take(i));
        lemma_total_stake_prefix(authorities.drop_last(), i);
    } else {
        assert(authorities.take(i) =~= authorities);
    }
}

/// Adding signers never lowers the signed stake.
pub proof fn lemma_signed_stake_monotone(
    authorities: Seq<AuthorityInfo>,
    signers: Set<AuthorityIdentifier>,
    more: Set<AuthorityIdentifier>,
)
    requires
        signers.subset_of(more),
    ensures
        signed_stake(authorities, signers) <= signed_stake(authorities, more),
    decreases authorities.len(),
{
    if authorities.len() > 0 {
        lemma_signed_stake_monotone(authorities.drop_last(), signers, more);
    }
}

/// The authorities of `authorities` that appear in `signers`, in order.
pub open spec fn signers_among(authorities: Seq<AuthorityInfo>, signers: Set<AuthorityIdentifier>) -> Seq<AuthorityInfo> {
    authorities.filter(|a: AuthorityInfo| signers.contains(a.id))
}

/// The signed stake is the sum of the stakes of the authorities that
/// signed: the total stake of the signers among the committee.
pub proof fn lemma_signed_stake_is_signers_total(authorities: Seq<AuthorityInfo>, signers: Set<AuthorityIdentifier>)
    ensures
        signed_stake(authorities, signers) == total_stake(signers_among(authorities, signers)),
    decreases authorities.len(),
{
    reveal(Seq::filter);
    if authorities.len() > 0 {
        let rest = authorities.drop_last();
        let x = authorities.last();
        lemma_signed_stake_is_signers_total(rest, signers);
        let f = signers_among(rest, signers);
        if signers.contains(x.id) {
            assert(f.push(x).drop_last() =~= f);
        }
    }
}

/// Where every authority has signed, the signed stake is the committee's
/// whole stake; where none has, it is nothing.
pub proof fn lemma_signed_stake_all_or_none(authorities: Seq<AuthorityInfo>, signers: Set<AuthorityIdentifier>)
    ensures
        (forall|i: int| 0 <= i < authorities.len() ==> signers.contains(#[trigger] authorities[i].id))
            ==> signed_stake(authorities, signers) == total_stake(authorities),
        (forall|i: int| 0 <= i < authorities.len() ==> !signers.contains(#[trigger] authorities[i].id))
            ==> signed_stake(authorities, signers) == 0,
    decreases authorities.len(),
{
    if authorities.len() > 0 {
        let rest = authorities.drop_last();
        lemma_signed_stake_all_or_none(rest, signers);
        assert(forall|i: int| 0 <= i < rest.len() ==> rest[i] == authorities[i]);
        assert(authorities.last() == authorities[authorities.len() - 1]);
    }
}

/// A signer counts with its whole stake: an authority alone carries its
/// stake where it signed and nothing otherwise, and the signed stake of two
/// lists together is the sum of theirs.
pub proof fn lemma_signed_stake_per_authority(
    a: Seq<AuthorityInfo>,
    b: Seq<AuthorityInfo>,
    x: AuthorityInfo,
    signers: Set<AuthorityIdentifier>,
)
    ensures
        signed_stake(seq![x], signers) == if signers.contains(x.id) {
            x.stake as int
        } else {
            0
        },
        signed_stake(a + b, signers) == signed_stake(a, signers) + signed_stake(b, signers),
    decreases b.len(),
{
    assert(seq![x].drop_last() =~= Seq::<AuthorityInfo>::empty());
    assert(signed_stake(Seq::<AuthorityInfo>::empty(), signers) == 0);
    if b.len() == 0 {
        assert(a + b =~= a);
    } else {
        lemma_signed_stake_per_authority(a, b.drop_last(), x, signers);
        assert((a + b).drop_last() =~= a + b.drop_last());
        assert((a + b).last() == b.last());
    }
}

impl CommitteeInfo {
    /// The stake of the authorities that have signed.
    pub fn stake_of_signers(&self, event: &EventVerify) -> (r: u64)
        requires
            ids_distinct(self.authorities@),
            total_stake(self.authorities@) <= u64::MAX,
        ensures
            r == signed_stake(self.authorities@, event.signatures@.dom()),
    {
        let ghost a = self.authorities@;
        let ghost signers = event.signatures@.dom();
        let mut total: u64 = 0;
        let mut i: usize = 0;
        while i < self.authorities.len()
            invariant
                a == self.authorities@,
                signers == event.signatures@.dom(),
                i <= a.len(),
                total_stake(a) <= u64::MAX,
                total == signed_stake(a.take(i as int), signers),
            decreases a.len() - i,
        {
            assert(a.take(i + 1).drop_last() =~= a.take(i as int));
            proof {
                lemma_signed_stake_bounds(a.take(i + 1), signers);
                lemma_total_stake_prefix(a, i + 1);
            }
            if event.signatures.contains(self.authorities[i].id) {
                total = total + self.authorities[i].stake;
            }
            i = i + 1;
        }
        assert(a.take(i as int) =~= a);
        total
    }

    /// The party identifiers of the authorities, in order.
    pub fn party_uids(&self) -> (r: Vec<String>)
        ensures
            r@.map_values(|s: String| s@) == party_uids(self.authorities@),
    {
        let mut r: Vec<String> = Vec::new();
        let mut i: usize = 0;
        while i < self.authorities.len()
            invariant
                i <= self.authorities.len(),
                r@.len() == i,
                forall|j: int| 0 <= j < i ==> #[trigger] r@[j]@ == self.authorities@[j].party_uid@,
            decreases self.authorities.len() - i,
        {
            r.push(self.authorities[i].party_uid.clone());
            i = i + 1;
        }
        assert(r@.map_values(|s: String| s@) =~= party_uids(self.authorities@));
        r
    }
}

/// The session key identifier of the committee's threshold key for an epoch.
pub fn get_key_uid(epoch: Epoch) -> (r: String)
    ensures
        r@ == tss_key_uid(epoch),
{
    let mut r = string_of("tss_session");
    push_decimal(&mut r, epoch);
    r
}

/// The signing request for an event: its digest, under the committee's key,
/// by all authorities of the committee, identified by the digest in hex.
pub fn create_sign_init(committee: &CommitteeInfo, event: &EventVerify) -> (r: SignInit)
    ensures
        r.new_sig_uid@ == hex_lower(event.digest@),
        r.key_uid@ == tss_key_uid(committee.epoch),
        r.party_uids@.map_values(|s: String| s@) == party_uids(committee.authorities@),
        r.message_to_sign@ == event.digest@,
{
    let party_uids = committee.party_uids();
    let key_uid = get_key_uid(committee.epoch);
    let digest = event.digest();
    let message = crate::bytes::copy_bytes(digest.0.as_slice());
    let sig_uid = hex_encode(digest.0.as_slice());
    SignInit { new_sig_uid: sig_uid, key_uid, party_uids, message_to_sign: message }
}

/// What the node does with a peer's verification request: the event to
/// store, and the signing request to issue, if any.
pub struct VerifyOutcome {
    pub store: EventVerify,
    pub sign_init: Option<SignInit>,
}

/// Handles a peer's request to verify `event`, given the stored event with
/// the same digest if any. A stored event takes in the peer's signatures;
/// if its signers then hold a quorum of stake, the digest is to be signed.
/// An event not stored yet is stored as it came.
pub fn process_request_event_verify(stored: Option<EventVerify>, event: EventVerify, committee: &CommitteeInfo) -> (r:
    VerifyOutcome)
    requires
        ids_distinct(committee.authorities@),
        total_stake(committee.authorities@) <= u64::MAX,
    ensures
        match stored {
            None => r.store == event && r.sign_init is None,
            Some(s) => {
                &&& r.store.digest == s.digest
                &&& r.store.author == s.author
                &&& r.store.round == s.round
                &&& r.store.epoch == s.epoch
                &&& r.store.signatures@ == s.signatures@.union_prefer_right(event.signatures@)
                &&& (r.sign_init is Some <==> signed_stake(committee.authorities@, r.store.signatures@.dom())
                    >= committee.quorum_threshold)
                &&& r.sign_init matches Some(init) ==> {
                    &&& init.new_sig_uid@ == hex_lower(s.digest@)
                    &&& init.key_uid@ == tss_key_uid(committee.epoch)
                    &&& init.party_uids@.map_values(|u: String| u@) == party_uids(committee.authorities@)
                    &&& init.message_to_sign@ == s.digest@
                }
            },
        },
{
    match stored {
        None => VerifyOutcome { store: event, sign_init: None },
        Some(stored_event) => {
            let mut stored_event = stored_event;
            let ghost orig = stored_event;
            let ghost s0 = stored_event.signatures@;
            let incoming = event.signatures.to_vec();
            let mut i: usize = 0;
            while i < incoming.len()
                invariant
                    i <= incoming@.len(),
                    stored_event.digest == orig.digest,
                    stored_event.author == orig.author,
                    stored_event.round == orig.round,
                    stored_event.epoch == orig.epoch,
                    s0 == orig.signatures@,
                    forall|k: int| 0 <= k < incoming@.len() ==> event.signatures@.contains_key(#[trigger] incoming@[k].0)
                        && event.signatures@[incoming@[k].0] == incoming@[k].1@,
                    forall|id: AuthorityIdentifier| event.signatures@.contains_key(id) ==> exists|k: int|
                        0 <= k < incoming@.len() && #[trigger] incoming@[k].0 == id,
                    forall|id: AuthorityIdentifier| #[trigger] stored_event.signatures@.contains_key(id) <==> (s0.contains_key(id) || exists|k: int| 0 <= k < i && incoming@[k].0 == id),
                    forall|id: AuthorityIdentifier| stored_event.signatures@.contains_key(id) ==> #[trigger] stored_event.signatures@[id] == (
                        if exists|k: int| 0 <= k < i && incoming@[k].0 == id {
                            event.signatures@[id]
                        } else {
                            s0[id]
                        }),
                decreases incoming@.len() - i,
            {
                let id = incoming[i].0;
                let sig = crate::bytes::copy_bytes(incoming[i].1.as_slice());
                stored_event.add_signature(&id, sig);
                proof {
                    assert(incoming@[i as int].0 == id);
                }
                i = i + 1;
            }
            assert(stored_event.signatures@ =~= s0.union_prefer_right(event.signatures@));
            let stake = committee.stake_of_signers(&stored_event);
            if stake >= committee.quorum_threshold {
                let sign_init = create_sign_init(committee, &stored_event);
                VerifyOutcome { store: stored_event, sign_init: Some(sign_init) }
            } else {
                VerifyOutcome { store: stored_event, sign_init: None }
            }
        },
    }
}

} // verus!
