//! The decisions of a party of the threshold-signature network: the
//! parameters of key generation, what to do with each message that the
//! protocol puts out, how peer traffic is taken in, and how answers of the
//! service are read.

use vstd::prelude::*;
use crate::scalar_event::{tss_key_uid, AuthorityInfo, CommitteeInfo};
use crate::text::{decimal, push_decimal, push_str, string_of};
use crate::tofnd::message_out::{KeygenResult, SignResult};
use crate::tofnd::{
    key_presence_response, message_in, message_out, recover_response, KeyPresenceResponse, KeygenInit,
    MessageIn, MessageOut, RecoverResponse, SignInit, TrafficIn, TrafficOut,
};
use crate::types::{
    AuthorityIdentifier, TssAnemoDeliveryMessage, TssAnemoKeygenRequest, TssAnemoKeygenResponse,
    TssAnemoSignRequest, TssAnemoSignResponse, TssAnemoVerifyRequest, TssAnemoVerifyResponse,
};

verus! {

/// The sum of a list of share counts.
pub open spec fn share_sum(counts: Seq<u32>) -> int
    decreases counts.len(),
{
    if counts.len() == 0 {
        0
    } else {
        share_sum(counts.drop_last()) + counts.last() as int
    }
}

/// The sum of share counts adds them up: a single count is itself, two lists
/// together sum to the sum of their sums, and where every party has the same
/// count, the sum is that count times the number of parties.
pub proof fn lemma_share_sum_adds(a: Seq<u32>, b: Seq<u32>, x: u32)
    ensures
        share_sum(seq![x]) == x,
        share_sum(a + b) == share_sum(a) + share_sum(b),
        (forall|i: int| 0 <= i < a.len() ==> #[trigger] a[i] == x) ==> share_sum(a) == a.len() * x,
    decreases a.len() + b.len(),
{
    assert(seq![x].drop_last() =~= Seq::<u32>::empty());
    assert(share_sum(Seq::<u32>::empty()) == 0);
    if b.len() == 0 {
        assert(a + b =~= a);
    } else {
        lemma_share_sum_adds(a, b.drop_last(), x);
        assert((a + b).drop_last() =~= a + b.drop_last());
        assert((a + b).last() == b.last());
    }
    if a.len() > 0 {
        lemma_share_sum_adds(a.drop_last(), Seq::<u32>::empty(), x);
        if forall|i: int| 0 <= i < a.len() ==> #[trigger] a[i] == x {
            let d = a.drop_last();
            assert forall|i: int| 0 <= i < d.len() implies #[trigger] d[i] == x by {
                assert(d[i] == a[i]);
            }
            assert(share_sum(d) == d.len() * x);
            assert(a.last() == a[a.len() - 1]);
            assert(share_sum(a) == share_sum(d) + x);
            let n: int = a.len() as int;
            assert((n - 1) * x + x == n * x) by (nonlinear_arith);
            assert(share_sum(a) == a.len() * x);
        }
    } else {
        let n: int = a.len() as int;
        assert(n * x == 0) by (nonlinear_arith)
            requires
                n == 0,
        ;
        assert(share_sum(a) == a.len() * x);
    }
}

proof fn lemma_share_sum_prefix(counts: Seq<u32>, i: int)
    requires
        0 <= i <= counts.len(),
    ensures
        0 <= share_sum(counts.take(i)) <= share_sum(counts),
    decreases counts.len(),
{
    if i < counts.len() {
        assert(counts.drop_last().take(i) =~= counts.take(i));
        lemma_share_sum_prefix(counts.drop_last(), i);
    } else {
        assert(counts.take(i) =~= counts);
        if counts.len() > 0 {
            lemma_share_sum_prefix(counts.drop_last(), i - 1);
        }
    }
}

/// The parameters of the committee's key generation: every authority is a
/// party with one share, and two parties make the threshold.
pub fn create_keygen_init(party_uids: Vec<String>, epoch: u64, my_authority_id: AuthorityIdentifier) -> (r: KeygenInit)
    ensures
        r.new_key_uid@ == tss_key_uid(epoch),
        r.party_uids == party_uids,
        r.party_share_counts@ == seq![1u32, 1u32, 1u32, 1u32],
        r.my_party_index == my_authority_id as u32,
        r.threshold == 2,
{
    let new_key_uid = crate::scalar_event::get_key_uid(epoch);
    let party_share_counts: Vec<u32> = vec![1, 1, 1, 1];
    KeygenInit {
        new_key_uid,
        party_uids,
        party_share_counts,
        my_party_index: my_authority_id as u32,
        threshold: 2,
    }
}

impl KeygenInit {
    /// The number of shares of all parties and the number of this party's
    /// shares: one per party where no counts are given.
    pub fn share_counts(&self) -> (r: (usize, usize))
        requires
            self.party_share_counts@.len() > 0 ==> share_sum(self.party_share_counts@) <= u32::MAX
                && self.my_party_index < self.party_share_counts@.len(),
        ensures
            self.party_share_counts@.len() == 0 ==> r == (self.party_uids@.len() as usize, 1usize),
            self.party_share_counts@.len() > 0 ==> r.0 == share_sum(self.party_share_counts@) && r.1
                == self.party_share_counts@[self.my_party_index as int],
    {
        if self.party_share_counts.len() == 0 {
            return (self.party_uids.len(), 1);
        }
        let ghost c = self.party_share_counts@;
        let mut total: u32 = 0;
        let mut i: usize = 0;
        while i < self.party_share_counts.len()
            invariant
                c == self.party_share_counts@,
                i <= c.len(),
                share_sum(c) <= u32::MAX,
                total == share_sum(c.take(i as int)),
            decreases c.len() - i,
        {
            assert(c.take(i + 1).drop_last() =~= c.take(i as int));
            proof {
                lemma_share_sum_prefix(c, i + 1);
            }
            total = total + self.party_share_counts[i];
            i = i + 1;
        }
        assert(c.take(i as int) =~= c);
        let mine = self.party_share_counts[self.my_party_index as usize];
        (total as usize, mine as usize)
    }
}

/// What to do with one message that the protocol puts out.
#[derive(Debug, PartialEq)]
pub enum ProtocolStep<R, E> {
    /// Hand the traffic to the parties.
    Deliver(TrafficOut),
    /// The protocol is over with this result.
    Finished(R),
    /// The connection to the service failed.
    Failed(E),
}

/// Whether a message of a key generation can be handled: it has data, and
/// the data is traffic or the result.
pub open spec fn keygen_message_ok(msg: MessageOut) -> bool {
    msg.data matches Some(d) && (d is Traffic || d is KeygenResult)
}

/// Whether a message of a signing can be handled: it has data, and the data
/// is traffic, the result, or a request for recovery.
pub open spec fn sign_message_ok(msg: MessageOut) -> bool {
    msg.data matches Some(d) && (d is Traffic || d is SignResult || d is NeedRecover)
}

/// The step for a key generation message that can be handled.
pub open spec fn keygen_step_of<E>(msg: MessageOut) -> ProtocolStep<KeygenResult, E> {
    match msg.data {
        Some(message_out::Data::Traffic(t)) => ProtocolStep::Deliver(t),
        Some(message_out::Data::KeygenResult(res)) => ProtocolStep::Finished(res),
        _ => ProtocolStep::Finished(KeygenResult { keygen_result_data: None }),
    }
}

/// The step for a signing message that can be handled.
pub open spec fn sign_step_of<E>(msg: MessageOut) -> ProtocolStep<SignResult, E> {
    match msg.data {
        Some(message_out::Data::Traffic(t)) => ProtocolStep::Deliver(t),
        Some(message_out::Data::SignResult(res)) => ProtocolStep::Finished(res),
        _ => ProtocolStep::Finished(SignResult { sign_result_data: None }),
    }
}

/// A key generation hands on what the daemon sent: a result message ends
/// it with that very result, a traffic message delivers that very traffic,
/// and it ends with a result, or delivers traffic, only where the daemon sent
/// that result or that traffic. No message makes it fail.
pub proof fn lemma_keygen_step_carries_message<E>(msg: MessageOut)
    requires
        keygen_message_ok(msg),
    ensures
        msg.data matches Some(message_out::Data::KeygenResult(res)) ==> keygen_step_of::<E>(msg)
            == ProtocolStep::<KeygenResult, E>::Finished(res),
        msg.data matches Some(message_out::Data::Traffic(t)) ==> keygen_step_of::<E>(msg)
            == ProtocolStep::<KeygenResult, E>::Deliver(t),
        keygen_step_of::<E>(msg) matches ProtocolStep::Finished(res) ==> msg.data == Some(
            message_out::Data::KeygenResult(res),
        ),
        keygen_step_of::<E>(msg) matches ProtocolStep::Deliver(t) ==> msg.data == Some(
            message_out::Data::Traffic(t),
        ),
        !(keygen_step_of::<E>(msg) is Failed),
{
}

/// A signing hands on what the daemon sent: a result message ends it with
/// that very result, a traffic message delivers that very traffic, and a
/// request for recovery ends it without a signature. It ends with a
/// signature only where the daemon sent that signature's result. No message
/// makes it fail.
pub proof fn lemma_sign_step_carries_message<E>(msg: MessageOut)
    requires
        sign_message_ok(msg),
    ensures
        msg.data matches Some(message_out::Data::SignResult(res)) ==> sign_step_of::<E>(msg)
            == ProtocolStep::<SignResult, E>::Finished(res),
        msg.data matches Some(message_out::Data::Traffic(t)) ==> sign_step_of::<E>(msg)
            == ProtocolStep::<SignResult, E>::Deliver(t),
        msg.data matches Some(message_out::Data::NeedRecover(_)) ==> sign_step_of::<E>(msg)
            == ProtocolStep::<SignResult, E>::Finished(SignResult { sign_result_data: None }),
        sign_step_of::<E>(msg) matches ProtocolStep::Finished(res) ==> msg.data == Some(
            message_out::Data::SignResult(res),
        ) || (msg.data matches Some(message_out::Data::NeedRecover(_)) && res.sign_result_data is None),
        sign_step_of::<E>(msg) matches ProtocolStep::Deliver(t) ==> msg.data == Some(
            message_out::Data::Traffic(t),
        ),
        !(sign_step_of::<E>(msg) is Failed),
{
}

fn keygen_message_step<E>(msg: MessageOut) -> (r: ProtocolStep<KeygenResult, E>)
    requires
        keygen_message_ok(msg),
    ensures
        r == keygen_step_of::<E>(msg),
{
    match msg.data {
        Some(message_out::Data::Traffic(t)) => ProtocolStep::Deliver(t),
        Some(message_out::Data::KeygenResult(res)) => ProtocolStep::Finished(res),
        _ => ProtocolStep::Finished(KeygenResult { keygen_result_data: None }),
    }
}

fn sign_message_step<E>(msg: MessageOut) -> (r: ProtocolStep<SignResult, E>)
    requires
        sign_message_ok(msg),
    ensures
        r == sign_step_of::<E>(msg),
{
    match msg.data {
        Some(message_out::Data::Traffic(t)) => ProtocolStep::Deliver(t),
        Some(message_out::Data::SignResult(res)) => ProtocolStep::Finished(res),
        _ => ProtocolStep::Finished(SignResult { sign_result_data: None }),
    }
}

/// The step of a key generation for the next item of the service's output
/// channel: an error or the end of the channel ends it without a result.
pub fn keygen_channel_step<E>(item: Option<Result<MessageOut, E>>) -> (r: ProtocolStep<KeygenResult, E>)
    requires
        item matches Some(Ok(m)) ==> keygen_message_ok(m),
    ensures
        r == match item {
            Some(Ok(m)) => keygen_step_of::<E>(m),
            _ => ProtocolStep::Finished(KeygenResult { keygen_result_data: None }),
        },
{
    match item {
        Some(Ok(msg)) => keygen_message_step(msg),
        _ => ProtocolStep::Finished(KeygenResult { keygen_result_data: None }),
    }
}

/// The step of a key generation for the next item of the service's output
/// stream: the end of the stream ends it without a result, and an error on
/// the stream fails it.
pub fn keygen_stream_step<E>(item: Result<Option<MessageOut>, E>) -> (r: ProtocolStep<KeygenResult, E>)
    requires
        item matches Ok(Some(m)) ==> keygen_message_ok(m),
    ensures
        r == match item {
            Ok(Some(m)) => keygen_step_of::<E>(m),
            Ok(None) => ProtocolStep::Finished(KeygenResult { keygen_result_data: None }),
            Err(e) => ProtocolStep::Failed(e),
        },
{
    match item {
        Ok(Some(msg)) => keygen_message_step(msg),
        Ok(None) => ProtocolStep::Finished(KeygenResult { keygen_result_data: None }),
        Err(e) => ProtocolStep::Failed(e),
    }
}

/// The step of a signing for the next item of the service's output channel:
/// a request for recovery, an error or the end of the channel ends it
/// without a result.
pub fn sign_channel_step<E>(item: Option<Result<MessageOut, E>>) -> (r: ProtocolStep<SignResult, E>)
    requires
        item matches Some(Ok(m)) ==> sign_message_ok(m),
    ensures
        r == match item {
            Some(Ok(m)) => sign_step_of::<E>(m),
            _ => ProtocolStep::Finished(SignResult { sign_result_data: None }),
        },
{
    match item {
        Some(Ok(msg)) => sign_message_step(msg),
        _ => ProtocolStep::Finished(SignResult { sign_result_data: None }),
    }
}

/// The step of a signing for the next item of the service's output stream:
/// a request for recovery or the end of the stream ends it without a result,
/// and an error on the stream fails it.
pub fn sign_stream_step<E>(item: Result<Option<MessageOut>, E>) -> (r: ProtocolStep<SignResult, E>)
    requires
        item matches Ok(Some(m)) ==> sign_message_ok(m),
    ensures
        r == match item {
            Ok(Some(m)) => sign_step_of::<E>(m),
            Ok(None) => ProtocolStep::Finished(SignResult { sign_result_data: None }),
            Err(e) => ProtocolStep::Failed(e),
        },
{
    match item {
        Ok(Some(msg)) => sign_message_step(msg),
        Ok(None) => ProtocolStep::Finished(SignResult { sign_result_data: None }),
        Err(e) => ProtocolStep::Failed(e),
    }
}

/// The first message of a signing session: the signing parameters.
pub fn sign_init_message(sign_init: SignInit) -> (r: MessageIn)
    ensures
        r == (MessageIn { data: Some(message_in::Data::SignInit(sign_init)) }),
{
    MessageIn { data: Some(message_in::Data::SignInit(sign_init)) }
}

/// The first message of a key generation session: its parameters.
pub fn keygen_init_message(keygen_init: KeygenInit) -> (r: MessageIn)
    ensures
        r == (MessageIn { data: Some(message_in::Data::KeygenInit(keygen_init)) }),
{
    MessageIn { data: Some(message_in::Data::KeygenInit(keygen_init)) }
}

/// Traffic put out by the protocol, as the local service and the peers
/// receive it: from `from`, with the same payload and broadcast flag.
pub fn deliver_traffic(msg: &MessageOut, from: &String) -> (r: (MessageIn, TssAnemoDeliveryMessage))
    requires
        msg.data matches Some(message_out::Data::Traffic(_)),
    ensures
        msg.data matches Some(message_out::Data::Traffic(t)) && r.0.data matches Some(
            message_in::Data::Traffic(ti),
        ) && ti.from_party_uid@ == from@ && ti.payload@ == t.payload@ && ti.is_broadcast
            == t.is_broadcast && r.1.from_party_uid@ == from@ && r.1.payload@ == t.payload@
            && r.1.is_broadcast == t.is_broadcast,
{
    match &msg.data {
        Some(message_out::Data::Traffic(t)) => {
            let msg_in = MessageIn {
                data: Some(
                    message_in::Data::Traffic(
                        TrafficIn {
                            from_party_uid: from.clone(),
                            is_broadcast: t.is_broadcast,
                            payload: crate::bytes::copy_bytes(t.payload.as_slice()),
                        },
                    ),
                ),
            };
            let delivery = TssAnemoDeliveryMessage {
                from_party_uid: from.clone(),
                is_broadcast: t.is_broadcast,
                payload: crate::bytes::copy_bytes(t.payload.as_slice()),
            };
            (msg_in, delivery)
        },
        _ => {
            proof {
                assert(false);
            }
            (MessageIn { data: None }, TssAnemoDeliveryMessage {
                from_party_uid: String::new(),
                is_broadcast: false,
                payload: Vec::new(),
            })
        },
    }
}

/// Peer traffic, as the local service receives it.
pub fn traffic_from_delivery(message: &TssAnemoDeliveryMessage) -> (r: MessageIn)
    ensures
        r.data matches Some(message_in::Data::Traffic(t)) && t.from_party_uid@
            == message.from_party_uid@ && t.payload@ == message.payload@ && t.is_broadcast
            == message.is_broadcast,
{
    MessageIn {
        data: Some(
            message_in::Data::Traffic(
                TrafficIn {
                    from_party_uid: message.from_party_uid.clone(),
                    is_broadcast: message.is_broadcast,
                    payload: crate::bytes::copy_bytes(message.payload.as_slice()),
                },
            ),
        ),
    }
}

/// A keygen request from a peer: the traffic for the local service and the
/// acknowledgement for the peer.
pub fn handle_keygen_request(request: TssAnemoKeygenRequest) -> (r: (MessageIn, TssAnemoKeygenResponse))
    ensures
        r.0.data matches Some(message_in::Data::Traffic(t)) && t.from_party_uid@
            == request.message.from_party_uid@ && t.payload@ == request.message.payload@
            && t.is_broadcast == request.message.is_broadcast,
        r.1.message@ == "Process keygen message from "@ + request.message.from_party_uid@ + "!"@,
{
    let msg_in = traffic_from_delivery(&request.message);
    let mut reply = string_of("Process keygen message from ");
    push_str(&mut reply, request.message.from_party_uid.as_str());
    push_str(&mut reply, "!");
    (msg_in, TssAnemoKeygenResponse { message: reply })
}

/// A sign request from a peer: the traffic for the local service and the
/// acknowledgement for the peer.
pub fn handle_sign_request(request: TssAnemoSignRequest) -> (r: (MessageIn, TssAnemoSignResponse))
    ensures
        r.0.data matches Some(message_in::Data::Traffic(t)) && t.from_party_uid@
            == request.message.from_party_uid@ && t.payload@ == request.message.payload@
            && t.is_broadcast == request.message.is_broadcast,
        r.1.message@ == "Send sign broadcast message from "@ + request.message.from_party_uid@ + "!"@,
{
    let msg_in = traffic_from_delivery(&request.message);
    let mut reply = string_of("Send sign broadcast message from ");
    push_str(&mut reply, request.message.from_party_uid.as_str());
    push_str(&mut reply, "!");
    (msg_in, TssAnemoSignResponse { message: reply })
}

/// A verification request from a peer is answered with a greeting.
pub fn handle_verify_request(request: &TssAnemoVerifyRequest) -> (r: TssAnemoVerifyResponse)
    ensures
        r.message@ == "Hello "@ + request.message.from_party_uid@ + "!"@,
{
    let mut reply = string_of("Hello ");
    push_str(&mut reply, request.message.from_party_uid.as_str());
    push_str(&mut reply, "!");
    TssAnemoVerifyResponse { message: reply }
}

/// The answer to a key presence check, from whether the key is stored.
pub fn key_presence_answer(found: bool) -> (r: key_presence_response::Response)
    ensures
        r == if found {
            key_presence_response::Response::Present
        } else {
            key_presence_response::Response::Absent
        },
{
    if found {
        key_presence_response::Response::Present
    } else {
        key_presence_response::Response::Absent
    }
}

/// The answer sent to a peer for a key presence check: the check's answer,
/// or a failure where the check could not be made.
pub fn key_presence_reply<E>(result: Result<key_presence_response::Response, E>) -> (r: KeyPresenceResponse)
    ensures
        r.response == match result {
            Ok(res) => key_presence_response::number(res),
            Err(_) => key_presence_response::number(key_presence_response::Response::Fail),
        },
{
    let response = match result {
        Ok(res) => res,
        Err(_) => key_presence_response::Response::Fail,
    };
    KeyPresenceResponse { response: response.to_i32() }
}

/// Whether the key is present, from the answer to a key presence check.
/// Only a definite answer can be read: a failed or unspecified one cannot.
pub fn key_presence_outcome<E>(result: Result<key_presence_response::Response, E>) -> (r: bool)
    requires
        result matches Ok(res) && (res == key_presence_response::Response::Present || res
            == key_presence_response::Response::Absent),
    ensures
        r == (result matches Ok(res) && res == key_presence_response::Response::Present),
{
    let reply = key_presence_reply(result);
    match key_presence_response::Response::from_i32(reply.response) {
        Some(key_presence_response::Response::Present) => true,
        _ => false,
    }
}

/// The answer to a recovery request: success unless recovery failed.
pub fn recover_answer<E>(result: Result<(), E>) -> (r: RecoverResponse)
    ensures
        r.response == match result {
            Ok(_) => recover_response::number(recover_response::Response::Success),
            Err(_) => recover_response::number(recover_response::Response::Fail),
        },
{
    let response = match result {
        Ok(()) => recover_response::Response::Success,
        Err(_) => recover_response::Response::Fail,
    };
    RecoverResponse { response: response.to_i32() }
}

/// The identifiers of the authorities other than `me`, in order.
pub fn other_authorities(committee: &CommitteeInfo, me: AuthorityIdentifier) -> (r: Vec<AuthorityIdentifier>)
    ensures
        r@ == committee.authorities@.map_values(|a: AuthorityInfo| a.id).filter(
            |id: AuthorityIdentifier| id != me,
        ),
{
    let ghost ids = committee.authorities@.map_values(|a: AuthorityInfo| a.id);
    let ghost keep = |id: AuthorityIdentifier| id != me;
    let mut r: Vec<AuthorityIdentifier> = Vec::new();
    let mut i: usize = 0;
    assert(ids.take(0).filter(keep) =~= seq![]) by {
        reveal(Seq::filter);
    }
    while i < committee.authorities.len()
        invariant
            i <= committee.authorities.len(),
            ids == committee.authorities@.map_values(|a: AuthorityInfo| a.id),
            keep == (|id: AuthorityIdentifier| id != me),
            r@ == ids.take(i as int).filter(keep),
        decreases committee.authorities.len() - i,
    {
        let id = committee.authorities[i].id;
        assert(ids.take(i + 1) =~= ids.take(i as int).push(id));
        proof {
            ids.take(i as int).lemma_filter_push(id, keep);
        }
        if id != me {
            r.push(id);
        }
        i = i + 1;
    }
    assert(ids.take(i as int) =~= ids);
    r
}

/// Whether `c` is a lower-case hexadecimal digit.
pub open spec fn is_lower_hex(c: char) -> bool {
    (('0' as int) <= (c as int) <= ('9' as int)) || (('a' as int) <= (c as int) <= ('f' as int))
}

/// Whether `s` is the hyphenated lower-case text of a random (version 4,
/// RFC 4122 variant) UUID: 36 characters, hyphens at positions 8, 13, 18
/// and 23, hexadecimal digits elsewhere, the version digit `4` at position
/// 14 and a variant digit among `8`, `9`, `a` and `b` at position 19.
pub open spec fn is_v4_uuid_text(s: Seq<char>) -> bool {
    &&& s.len() == 36
    &&& forall|i: int|
        0 <= i < 36 ==> if i == 8 || i == 13 || i == 18 || i == 23 {
            #[trigger] s[i] == '-'
        } else {
            is_lower_hex(s[i])
        }
    &&& s[14] == '4'
    &&& (s[19] == '8' || s[19] == '9' || s[19] == 'a' || s[19] == 'b')
}

/// A fresh random identifier for a signing (`uuid::Uuid::new_v4`, rendered
/// by its `Display` as hyphenated lower-case text). Which identifier comes
/// back is random; only its form is stated. The call panics only where the
/// system's random source fails.
#[verifier::external_body]
fn new_sig_uid() -> (r: String)
    ensures
        is_v4_uuid_text(r@),
{
    uuid::Uuid::new_v4().to_string()
}

/// A signing request for `message` under the committee's key, by all
/// authorities of the committee, with a fresh random identifier.
pub fn create_sign_init_for_message(committee: &CommitteeInfo, message: Vec<u8>) -> (r: SignInit)
    ensures
        is_v4_uuid_text(r.new_sig_uid@),
        r.key_uid@ == tss_key_uid(committee.epoch),
        r.party_uids@.map_values(|s: String| s@) == crate::scalar_event::party_uids(committee.authorities@),
        r.message_to_sign == message,
{
    SignInit {
        new_sig_uid: new_sig_uid(),
        key_uid: crate::scalar_event::get_key_uid(committee.epoch),
        party_uids: committee.party_uids(),
        message_to_sign: message,
    }
}

/// Why a protocol session could not start, with the status message sent to
/// the caller.
#[derive(Clone, Debug, PartialEq)]
pub enum SessionError {
    /// A required input is unavailable.
    Unavailable(String),
    /// The threshold-signature daemon cannot be reached.
    NotFound(String),
}

/// The signing parameters of a signing session, refused with `Unavailable`
/// ("SignInit unavailable") where there are none, before anything is sent.
pub fn require_sign_init(input: Option<SignInit>) -> (r: Result<SignInit, SessionError>)
    ensures
        match input {
            Some(s) => r == Ok::<SignInit, SessionError>(s),
            None => r matches Err(SessionError::Unavailable(m)) && m@ == "SignInit unavailable"@,
        },
{
    match input {
        Some(s) => Ok(s),
        None => {
            let m = string_of("SignInit unavailable");
            proof {
                reveal_strlit("SignInit unavailable");
            }
            Err(SessionError::Unavailable(m))
        },
    }
}

/// The client of the threshold-signature daemon, refused with `NotFound`
/// ("tofnd client not found") where connecting to it failed.
pub fn require_tofnd_client<C, E>(connected: Result<C, E>) -> (r: Result<C, SessionError>)
    ensures
        match connected {
            Ok(c) => r == Ok::<C, SessionError>(c),
            Err(_) => r matches Err(SessionError::NotFound(m)) && m@ == "tofnd client not found"@,
        },
{
    match connected {
        Ok(c) => Ok(c),
        Err(_) => {
            let m = string_of("tofnd client not found");
            proof {
                reveal_strlit("tofnd client not found");
            }
            Err(SessionError::NotFound(m))
        },
    }
}

/// The client of the threshold-signature daemon for a key generation,
/// refused with `Unavailable` ("Cannot create tofnd client") where
/// connecting to it failed.
pub fn require_keygen_client<C, E>(connected: Result<C, E>) -> (r: Result<C, SessionError>)
    ensures
        match connected {
            Ok(c) => r == Ok::<C, SessionError>(c),
            Err(_) => r matches Err(SessionError::Unavailable(m)) && m@ == "Cannot create tofnd client"@,
        },
{
    match connected {
        Ok(c) => Ok(c),
        Err(_) => Err(SessionError::Unavailable(string_of("Cannot create tofnd client"))),
    }
}

/// The number of this party's shares for a key generation, refused where it
/// is zero, with the message "Party {index} has 0 shares assigned".
pub fn require_my_shares(my_share_count: usize, my_index: usize) -> (r: Result<usize, String>)
    ensures
        my_share_count > 0 ==> r == Ok::<usize, String>(my_share_count),
        my_share_count == 0 ==> (r matches Err(m) && m@ == "Party "@ + decimal(my_index as nat)
            + " has 0 shares assigned"@),
{
    if my_share_count == 0 {
        let mut m = string_of("Party ");
        push_decimal(&mut m, my_index as u64);
        push_str(&mut m, " has 0 shares assigned");
        Err(m)
    } else {
        Ok(my_share_count)
    }
}

/// Where a party of the threshold-signature network stands.
#[derive(Clone, Copy, Debug, PartialEq, Eq, Structural)]
pub enum PartyPhase {
    /// Checking whether the committee's key is already stored.
    Starting,
    /// Generating the committee's key.
    Keygen,
    /// Serving signing requests.
    Signing,
    /// Shut down.
    Stopped,
}

/// What a party learns.
pub enum PartyEvent<E> {
    /// Whether the committee's key is already stored.
    KeyPresence(bool),
    /// The key generation ended, with its result or an error.
    KeygenDone(Result<KeygenResult, E>),
    /// A signing request arrived.
    SignRequest(SignInit),
    /// A signing ended, with its result or an error.
    SignDone(Result<SignResult, E>),
    /// The node is shutting down.
    Shutdown,
}

/// What a party does next.
pub enum PartyAction {
    /// Nothing.
    Idle,
    /// Start generating the committee's key.
    StartKeygen,
    /// Publish the key generation's result, if any, and start serving
    /// signing requests.
    StartSigning(Option<KeygenResult>),
    /// Run a signing session with these parameters.
    Sign(SignInit),
    /// Publish a signing's result.
    PublishSignResult(SignResult),
    /// Stop.
    Stop,
}

/// The next phase of a party and what it does: a stored key skips key
/// generation; key generation, once over, leads to signing (publishing its
/// result where it succeeded); while signing, each request is run and each
/// result published; a shutdown stops the party in any phase; any other
/// event changes nothing.
pub open spec fn party_next<E>(phase: PartyPhase, event: PartyEvent<E>) -> (PartyPhase, PartyAction) {
    match (phase, event) {
        (PartyPhase::Stopped, _) => (PartyPhase::Stopped, PartyAction::Idle),
        (_, PartyEvent::Shutdown) => (PartyPhase::Stopped, PartyAction::Stop),
        (PartyPhase::Starting, PartyEvent::KeyPresence(true)) => (PartyPhase::Signing, PartyAction::StartSigning(None)),
        (PartyPhase::Starting, PartyEvent::KeyPresence(false)) => (PartyPhase::Keygen, PartyAction::StartKeygen),
        (PartyPhase::Keygen, PartyEvent::KeygenDone(Ok(res))) => (PartyPhase::Signing, PartyAction::StartSigning(Some(res))),
        (PartyPhase::Keygen, PartyEvent::KeygenDone(Err(_))) => (PartyPhase::Signing, PartyAction::StartSigning(None)),
        (PartyPhase::Signing, PartyEvent::SignRequest(s)) => (PartyPhase::Signing, PartyAction::Sign(s)),
        (PartyPhase::Signing, PartyEvent::SignDone(Ok(res))) => (PartyPhase::Signing, PartyAction::PublishSignResult(res)),
        (p, _) => (p, PartyAction::Idle),
    }
}

/// A party passes on exactly what it was handed. While signing, a request
/// is run with its own parameters and a successful signing's result is
/// published as it came; a successful key generation's result is published
/// as it came. Conversely, a signing result is published, a signing run or a
/// key generation result published only on that very event in that phase.
pub proof fn lemma_party_passes_on_results<E>(phase: PartyPhase, event: PartyEvent<E>)
    ensures
        phase == PartyPhase::Signing ==> (event matches PartyEvent::SignDone(Ok(res)) ==> party_next(phase, event)
            == (PartyPhase::Signing, PartyAction::PublishSignResult(res))),
        phase == PartyPhase::Signing ==> (event matches PartyEvent::SignRequest(init) ==> party_next(phase, event)
            == (PartyPhase::Signing, PartyAction::Sign(init))),
        phase == PartyPhase::Keygen ==> (event matches PartyEvent::KeygenDone(Ok(res)) ==> party_next(phase, event)
            == (PartyPhase::Signing, PartyAction::StartSigning(Some(res)))),
        party_next(phase, event).1 matches PartyAction::PublishSignResult(res) ==> phase == PartyPhase::Signing
            && event == PartyEvent::<E>::SignDone(Ok(res)),
        party_next(phase, event).1 matches PartyAction::Sign(init) ==> phase == PartyPhase::Signing && event
            == PartyEvent::<E>::SignRequest(init),
        party_next(phase, event).1 matches PartyAction::StartSigning(Some(res)) ==> phase == PartyPhase::Keygen
            && event == PartyEvent::<E>::KeygenDone(Ok(res)),
{
}

/// One step of a party: its next phase and action for an event.
pub fn party_step<E>(phase: PartyPhase, event: PartyEvent<E>) -> (r: (PartyPhase, PartyAction))
    ensures
        r == party_next(phase, event),
{
    match (phase, event) {
        (PartyPhase::Stopped, _) => (PartyPhase::Stopped, PartyAction::Idle),
        (_, PartyEvent::Shutdown) => (PartyPhase::Stopped, PartyAction::Stop),
        (PartyPhase::Starting, PartyEvent::KeyPresence(true)) => (PartyPhase::Signing, PartyAction::StartSigning(None)),
        (PartyPhase::Starting, PartyEvent::KeyPresence(false)) => (PartyPhase::Keygen, PartyAction::StartKeygen),
        (PartyPhase::Keygen, PartyEvent::KeygenDone(Ok(res))) => (PartyPhase::Signing, PartyAction::StartSigning(Some(res))),
        (PartyPhase::Keygen, PartyEvent::KeygenDone(Err(_))) => (PartyPhase::Signing, PartyAction::StartSigning(None)),
        (PartyPhase::Signing, PartyEvent::SignRequest(s)) => (PartyPhase::Signing, PartyAction::Sign(s)),
        (PartyPhase::Signing, PartyEvent::SignDone(Ok(res))) => (PartyPhase::Signing, PartyAction::PublishSignResult(res)),
        (p, _) => (p, PartyAction::Idle),
    }
}

} // verus!
