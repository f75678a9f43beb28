use scalar::scalar_event::{AuthorityInfo, CommitteeInfo};
use scalar::tofnd::message_out::{self, KeygenResult, SignResult};
use scalar::tofnd::{key_presence_response, message_in, recover_response, KeygenInit, MessageOut, SignInit, TrafficOut};
use scalar::tofnd::message_out::criminal_list::criminal::CrimeType;
use scalar::tss::{
    create_keygen_init, create_sign_init_for_message, deliver_traffic, handle_keygen_request,
    handle_sign_request, handle_verify_request, keygen_channel_step, keygen_stream_step,
    key_presence_answer, key_presence_outcome, key_presence_reply, other_authorities, recover_answer,
    sign_channel_step, sign_stream_step, party_step, require_my_shares, require_sign_init,
    require_tofnd_client, PartyAction, PartyEvent, PartyPhase, ProtocolStep, SessionError,
};
use scalar::types::{TssAnemoDeliveryMessage, TssAnemoKeygenRequest, TssAnemoSignRequest, TssAnemoVerifyRequest};

fn traffic_out() -> TrafficOut {
    TrafficOut { to_party_uid: "b".to_owned(), payload: vec![1, 2, 3], is_broadcast: true }
}

fn out(d: message_out::Data) -> MessageOut {
    MessageOut { data: Some(d) }
}

#[test]
fn keygen_init_for_the_committee() {
    let init = create_keygen_init(vec!["a".to_owned(), "b".to_owned()], 4, 1);
    assert_eq!(init.new_key_uid, "tss_session4");
    assert_eq!(init.party_share_counts, vec![1, 1, 1, 1]);
    assert_eq!(init.my_party_index, 1);
    assert_eq!(init.threshold, 2);
    assert_eq!(init.share_counts(), (4, 1));
    let plain = KeygenInit { party_share_counts: vec![], ..init.clone() };
    assert_eq!(plain.share_counts(), (2, 1));
    let uneven = KeygenInit { party_share_counts: vec![3, 2, 1], my_party_index: 1, ..init };
    assert_eq!(uneven.share_counts(), (6, 2));
}

#[test]
fn keygen_steps() {
    let s: ProtocolStep<KeygenResult, String> = keygen_channel_step(Some(Ok(out(message_out::Data::Traffic(traffic_out())))));
    assert_eq!(s, ProtocolStep::Deliver(traffic_out()));
    let r = KeygenResult { keygen_result_data: None };
    let s: ProtocolStep<KeygenResult, String> = keygen_channel_step(Some(Ok(out(message_out::Data::KeygenResult(r.clone())))));
    assert_eq!(s, ProtocolStep::Finished(r.clone()));
    let s: ProtocolStep<KeygenResult, String> = keygen_channel_step(Some(Err("broken".to_owned())));
    assert_eq!(s, ProtocolStep::Finished(r.clone()));
    let s: ProtocolStep<KeygenResult, String> = keygen_channel_step(None);
    assert_eq!(s, ProtocolStep::Finished(r.clone()));
    let s: ProtocolStep<KeygenResult, String> = keygen_stream_step(Err("broken".to_owned()));
    assert_eq!(s, ProtocolStep::Failed("broken".to_owned()));
    let s: ProtocolStep<KeygenResult, String> = keygen_stream_step(Ok(None));
    assert_eq!(s, ProtocolStep::Finished(r));
}

#[test]
fn sign_steps() {
    let none = SignResult { sign_result_data: None };
    let s: ProtocolStep<SignResult, String> = sign_channel_step(Some(Ok(out(message_out::Data::NeedRecover(true)))));
    assert_eq!(s, ProtocolStep::Finished(none.clone()));
    let s: ProtocolStep<SignResult, String> = sign_stream_step(Ok(Some(out(message_out::Data::Traffic(traffic_out())))));
    assert_eq!(s, ProtocolStep::Deliver(traffic_out()));
    let s: ProtocolStep<SignResult, String> = sign_stream_step(Err("e".to_owned()));
    assert_eq!(s, ProtocolStep::Failed("e".to_owned()));
    let s: ProtocolStep<SignResult, String> = sign_channel_step(None);
    assert_eq!(s, ProtocolStep::Finished(none));
}

#[test]
fn delivering_traffic() {
    let (local, peer) = deliver_traffic(&out(message_out::Data::Traffic(traffic_out())), &"me".to_owned());
    match local.data {
        Some(message_in::Data::Traffic(t)) => {
            assert_eq!(t.from_party_uid, "me");
            assert_eq!(t.payload, vec![1, 2, 3]);
            assert!(t.is_broadcast);
        }
        _ => panic!("traffic expected"),
    }
    assert_eq!(peer, TssAnemoDeliveryMessage { from_party_uid: "me".to_owned(), is_broadcast: true, payload: vec![1, 2, 3] });
}

#[test]
fn peer_requests() {
    let message = TssAnemoDeliveryMessage { from_party_uid: "p7".to_owned(), is_broadcast: false, payload: vec![9] };
    let (msg, reply) = handle_keygen_request(TssAnemoKeygenRequest { message: message.clone() });
    assert_eq!(reply.message, "Process keygen message from p7!");
    assert!(matches!(msg.data, Some(message_in::Data::Traffic(_))));
    let (_, reply) = handle_sign_request(TssAnemoSignRequest { message: message.clone() });
    assert_eq!(reply.message, "Send sign broadcast message from p7!");
    let reply = handle_verify_request(&TssAnemoVerifyRequest { message });
    assert_eq!(reply.message, "Hello p7!");
}

#[test]
fn key_presence_and_recovery_answers() {
    assert_eq!(key_presence_answer(true), key_presence_response::Response::Present);
    assert_eq!(key_presence_answer(false), key_presence_response::Response::Absent);
    assert_eq!(key_presence_reply::<String>(Err("no seed".to_owned())).response, 3);
    assert_eq!(key_presence_reply::<String>(Ok(key_presence_response::Response::Absent)).response, 2);
    assert!(key_presence_outcome::<String>(Ok(key_presence_response::Response::Present)));
    assert!(!key_presence_outcome::<String>(Ok(key_presence_response::Response::Absent)));
    assert_eq!(recover_answer::<String>(Ok(())).response, 1);
    assert_eq!(recover_answer::<String>(Err("x".to_owned())).response, 2);
}

#[test]
fn protocol_names_and_numbers() {
    for r in [key_presence_response::Response::Unspecified, key_presence_response::Response::Present, key_presence_response::Response::Absent, key_presence_response::Response::Fail] {
        assert_eq!(key_presence_response::Response::from_str_name(r.as_str_name()), Some(r));
        assert_eq!(key_presence_response::Response::from_i32(r.to_i32()), Some(r));
    }
    assert_eq!(key_presence_response::Response::Present.as_str_name(), "RESPONSE_PRESENT");
    assert_eq!(key_presence_response::Response::from_str_name("RESPONSE_NONE"), None);
    assert_eq!(key_presence_response::Response::from_i32(4), None);
    assert_eq!(recover_response::Response::from_str_name("RESPONSE_SUCCESS"), Some(recover_response::Response::Success));
    assert_eq!(recover_response::Response::Fail.to_i32(), 2);
    assert_eq!(CrimeType::NonMalicious.as_str_name(), "CRIME_TYPE_NON_MALICIOUS");
    assert_eq!(CrimeType::from_str_name("CRIME_TYPE_MALICIOUS"), Some(CrimeType::Malicious));
    assert_eq!(CrimeType::from_i32(0), Some(CrimeType::Unspecified));
}

#[test]
fn peers_other_than_me() {
    let c = CommitteeInfo {
        epoch: 1,
        authorities: vec![
            AuthorityInfo { id: 0, stake: 1, party_uid: "a".to_owned() },
            AuthorityInfo { id: 1, stake: 1, party_uid: "b".to_owned() },
            AuthorityInfo { id: 2, stake: 1, party_uid: "c".to_owned() },
        ],
        quorum_threshold: 3,
    };
    assert_eq!(other_authorities(&c, 1), vec![0, 2]);
    let init = create_sign_init_for_message(&c, vec![5; 32]);
    assert_eq!(init.new_sig_uid.len(), 36);
    let chars: Vec<char> = init.new_sig_uid.chars().collect();
    for (i, c) in chars.iter().enumerate() {
        if [8, 13, 18, 23].contains(&i) {
            assert_eq!(*c, '-');
        } else {
            assert!(c.is_ascii_hexdigit() && !c.is_ascii_uppercase());
        }
    }
    assert_eq!(chars[14], '4');
    assert!(['8', '9', 'a', 'b'].contains(&chars[19]));
    assert_eq!(init.key_uid, "tss_session1");
    assert_eq!(init.party_uids, vec!["a", "b", "c"]);
    let other = create_sign_init_for_message(&c, vec![5; 32]);
    assert_ne!(init.new_sig_uid, other.new_sig_uid);
}

fn sign_init(uid: &str) -> SignInit {
    SignInit { new_sig_uid: uid.to_owned(), key_uid: "k".to_owned(), party_uids: vec![], message_to_sign: vec![] }
}

#[test]
fn signing_sessions_need_their_parameters_and_the_daemon() {
    assert_eq!(require_sign_init(None), Err(SessionError::Unavailable("SignInit unavailable".to_owned())));
    assert_eq!(require_sign_init(Some(sign_init("s"))).unwrap().new_sig_uid, "s");
    assert_eq!(require_tofnd_client::<u8, ()>(Err(())), Err(SessionError::NotFound("tofnd client not found".to_owned())));
    assert_eq!(require_tofnd_client::<u8, ()>(Ok(7)), Ok(7));
    assert_eq!(require_my_shares(0, 3), Err("Party 3 has 0 shares assigned".to_owned()));
    assert_eq!(require_my_shares(2, 3), Ok(2));
}

#[test]
fn party_life() {
    let (p, a) = party_step::<()>(PartyPhase::Starting, PartyEvent::KeyPresence(true));
    assert_eq!(p, PartyPhase::Signing);
    assert!(matches!(a, PartyAction::StartSigning(None)));
    let (p, a) = party_step::<()>(PartyPhase::Starting, PartyEvent::KeyPresence(false));
    assert_eq!(p, PartyPhase::Keygen);
    assert!(matches!(a, PartyAction::StartKeygen));
    let res = KeygenResult { keygen_result_data: None };
    let (p, a) = party_step::<()>(PartyPhase::Keygen, PartyEvent::KeygenDone(Ok(res)));
    assert_eq!(p, PartyPhase::Signing);
    assert!(matches!(a, PartyAction::StartSigning(Some(_))));
    let (p, a) = party_step::<()>(PartyPhase::Keygen, PartyEvent::Shutdown);
    assert_eq!(p, PartyPhase::Stopped);
    assert!(matches!(a, PartyAction::Stop));
    let (p, a) = party_step::<()>(PartyPhase::Signing, PartyEvent::SignRequest(sign_init("x")));
    assert_eq!(p, PartyPhase::Signing);
    assert!(matches!(a, PartyAction::Sign(s) if s.new_sig_uid == "x"));
    let (p, a) = party_step::<()>(PartyPhase::Signing, PartyEvent::SignDone(Err(())));
    assert_eq!(p, PartyPhase::Signing);
    assert!(matches!(a, PartyAction::Idle));
    let (p, a) = party_step::<()>(PartyPhase::Stopped, PartyEvent::KeyPresence(true));
    assert_eq!(p, PartyPhase::Stopped);
    assert!(matches!(a, PartyAction::Idle));
}

#[test]
fn keygen_needs_the_daemon() {
    assert_eq!(
        scalar::tss::require_keygen_client::<u8, ()>(Err(())),
        Err(SessionError::Unavailable("Cannot create tofnd client".to_owned()))
    );
    assert_eq!(scalar::tss::require_keygen_client::<u8, ()>(Ok(1)), Ok(1));
}

#[test]
fn party_key_store() {
    let mut store = scalar::store::TssStore::new();
    assert!(store.get_key().is_none());
    let key = scalar::tofnd::KeygenOutput { pub_key: vec![1], group_recover_info: vec![2], private_recover_info: vec![3] };
    store.set_key(key.clone());
    assert_eq!(store.get_key(), Some(key));
}
