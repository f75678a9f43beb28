use scalar::gg20::routing::{open_message, open_message_in, RoutingStatus};
use scalar::gg20::sign::{
    first_sign_init, sign_init_for_key, sign_sanitize_args, MessageDigest, SanitizeError, SignInitError, SignInitSanitized,
};
use scalar::tofnd::{message_in, KeygenInit, MessageIn, SignInit, TrafficIn};

struct TestCase {
    message_in: MessageIn,
    expected_result: RoutingStatus,
}

impl TestCase {
    fn new(message_in: MessageIn, expected_result: RoutingStatus) -> Self {
        TestCase { message_in, expected_result }
    }
}

fn new_msg_in(msg_in: message_in::Data) -> MessageIn {
    MessageIn { data: Some(msg_in) }
}

#[test]
fn test_validate_message() {
    let test_cases = vec![
        TestCase::new(new_msg_in(message_in::Data::Abort(true)), RoutingStatus::Stop),
        TestCase::new(
            new_msg_in(message_in::Data::KeygenInit(KeygenInit::default())),
            RoutingStatus::Skip,
        ),
        TestCase::new(
            new_msg_in(message_in::Data::SignInit(SignInit::default())),
            RoutingStatus::Skip,
        ),
        TestCase::new(
            new_msg_in(message_in::Data::Traffic(TrafficIn::default())),
            RoutingStatus::Continue { traffic: TrafficIn::default() },
        ),
        TestCase::new(MessageIn { data: None }, RoutingStatus::Skip),
    ];

    for test_case in test_cases {
        let result = open_message::<tonic::Status>(Some(Ok(test_case.message_in)));
        assert_eq!(result, test_case.expected_result);
    }

    let result = open_message::<tonic::Status>(Some(Err(tonic::Status::ok("test status"))));
    assert_eq!(result, RoutingStatus::Stop);

    let result = open_message::<tonic::Status>(None);
    assert_eq!(result, RoutingStatus::Stop);
}

#[test]
fn open_message_in_routes_like_open_message() {
    let traffic = TrafficIn { from_party_uid: "p".to_owned(), payload: vec![1, 2], is_broadcast: true };
    assert_eq!(
        open_message_in(new_msg_in(message_in::Data::Traffic(traffic.clone()))),
        RoutingStatus::Continue { traffic }
    );
    assert_eq!(open_message_in(new_msg_in(message_in::Data::Abort(false))), RoutingStatus::Stop);
    assert_eq!(open_message_in(MessageIn { data: None }), RoutingStatus::Skip);
}

#[test]
fn test_ok_sign_sanitize_args() {
    let all_party_uids = vec![
        "party_0".to_owned(), // party 0 has index 0
        "party_1".to_owned(), // party 1 has index 1
        "party_2".to_owned(), // party 2 has index 2
    ];

    let raw_sign_init = SignInit {
        new_sig_uid: "test_uid".to_owned(),
        key_uid: "test_uid".to_owned(),
        party_uids: vec!["party_2".to_owned(), "party_1".to_owned()],
        message_to_sign: vec![42; 32],
    };
    let sanitized_sign_init = SignInitSanitized {
        new_sig_uid: "test_uid".to_owned(),
        participant_uids: vec!["party_2".to_owned(), "party_1".to_owned()],
        participant_indices: vec![2, 1],
        message_to_sign: MessageDigest([42; 32]),
    };

    let res = sign_sanitize_args(raw_sign_init, &all_party_uids).unwrap();
    assert_eq!(&res.new_sig_uid, &sanitized_sign_init.new_sig_uid);
    assert_eq!(&res.participant_uids, &sanitized_sign_init.participant_uids);
    assert_eq!(&res.participant_indices, &sanitized_sign_init.participant_indices);
    assert_eq!(&res.message_to_sign.0, &sanitized_sign_init.message_to_sign.0);
}

#[test]
fn test_fail_sign_sanitize_args() {
    let all_party_uids = vec!["party_0".to_owned(), "party_1".to_owned(), "party_2".to_owned()];
    let raw_sign_init = SignInit {
        new_sig_uid: "test_uid".to_owned(),
        key_uid: "test_uid".to_owned(),
        party_uids: vec!["party_4".to_owned(), "party_1".to_owned()], // party 4 does not exist
        message_to_sign: vec![42; 32],
    };
    assert!(sign_sanitize_args(raw_sign_init, &all_party_uids).is_err());

    let raw_sign_init = SignInit {
        new_sig_uid: "test_uid".to_owned(),
        key_uid: "test_uid".to_owned(),
        party_uids: vec!["party_2".to_owned(), "party_1".to_owned()],
        message_to_sign: vec![42; 33], // message is not 32 bytes
    };
    assert!(sign_sanitize_args(raw_sign_init, &all_party_uids).is_err());
}

#[test]
fn sanitize_reports_the_first_missing_party_then_the_length() {
    let all = vec!["a".to_owned(), "b".to_owned()];
    let init = SignInit {
        new_sig_uid: "s".to_owned(),
        key_uid: "k".to_owned(),
        party_uids: vec!["b".to_owned(), "x".to_owned(), "y".to_owned()],
        message_to_sign: vec![0; 3],
    };
    assert_eq!(
        sign_sanitize_args(init, &all).unwrap_err(),
        SanitizeError::ParticipantNotFound { party_uid: "x".to_owned(), key_uid: "k".to_owned() }
    );
    let init = SignInit {
        new_sig_uid: "s".to_owned(),
        key_uid: "k".to_owned(),
        party_uids: vec!["b".to_owned()],
        message_to_sign: vec![0; 3],
    };
    assert_eq!(sign_sanitize_args(init, &all).unwrap_err(), SanitizeError::BadDigestLength { len: 3 });
}

#[test]
fn sanitize_uses_the_first_position_of_a_repeated_party() {
    let all = vec!["a".to_owned(), "b".to_owned(), "a".to_owned()];
    let init = SignInit {
        new_sig_uid: "s".to_owned(),
        key_uid: "k".to_owned(),
        party_uids: vec!["a".to_owned(), "b".to_owned()],
        message_to_sign: (0..32).collect(),
    };
    let res = sign_sanitize_args(init, &all).unwrap();
    assert_eq!(res.participant_indices, vec![0, 1]);
    assert_eq!(res.message_to_sign.0[31], 31);
}

#[test]
fn setting_up_a_signing() {
    let init = SignInit {
        new_sig_uid: "s".to_owned(),
        key_uid: "key".to_owned(),
        party_uids: vec!["b".to_owned()],
        message_to_sign: vec![1; 32],
    };
    assert!(matches!(first_sign_init::<()>(None), Err(SignInitError::StreamClosed)));
    assert!(matches!(first_sign_init::<u8>(Some(Err(4))), Err(SignInitError::Stream(4))));
    assert!(matches!(first_sign_init::<()>(Some(Ok(MessageIn { data: None }))), Err(SignInitError::MissingData)));
    let traffic = MessageIn { data: Some(message_in::Data::Traffic(TrafficIn::default())) };
    assert!(matches!(first_sign_init::<()>(Some(Ok(traffic))), Err(SignInitError::UnexpectedMessage)));
    let first = MessageIn { data: Some(message_in::Data::SignInit(init.clone())) };
    assert_eq!(first_sign_init::<()>(Some(Ok(first))).unwrap().key_uid, "key");
    let (msg, r) = sign_init_for_key::<()>(init.clone(), Err(()));
    assert!(matches!(msg.unwrap().data, Some(scalar::tofnd::message_out::Data::NeedRecover(true))));
    assert_eq!(r.err().unwrap(), SignInitError::KeyNotFound { key_uid: "key".to_owned() });
    let (msg, r) = sign_init_for_key::<()>(init.clone(), Ok(vec!["a".to_owned(), "b".to_owned()]));
    assert!(msg.is_none());
    assert_eq!(r.unwrap().participant_indices, vec![1]);
    let (_, r) = sign_init_for_key::<()>(init, Ok(vec!["a".to_owned()]));
    assert!(matches!(r, Err(SignInitError::Sanitize(SanitizeError::ParticipantNotFound { .. }))));
}
