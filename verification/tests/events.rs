use scalar::multisig::{Multisig, MultisigError};
use scalar::scalar_event::{
    create_sign_init, get_key_uid, process_request_event_verify, AuthorityInfo, CommitteeInfo,
};
use scalar::types::{EventDigest, EventVerify, ExternalMessage, SignatureSet};

fn committee() -> CommitteeInfo {
    CommitteeInfo {
        epoch: 7,
        authorities: vec![
            AuthorityInfo { id: 0, stake: 1, party_uid: "p0".to_owned() },
            AuthorityInfo { id: 1, stake: 1, party_uid: "p1".to_owned() },
            AuthorityInfo { id: 2, stake: 1, party_uid: "p2".to_owned() },
            AuthorityInfo { id: 3, stake: 1, party_uid: "p3".to_owned() },
        ],
        quorum_threshold: 3,
    }
}

fn event(author: u16, sig: u8) -> EventVerify {
    EventVerify::new(author, 5, 7, EventDigest([0xab; 32]), vec![sig])
}

#[test]
fn keccak_digest_of_an_external_message() {
    let m = ExternalMessage::new(b"".to_vec());
    assert_eq!(
        hex::encode(m.get_digest()),
        "c5d2460186f7233c927e7db2dcc703c0e500b653ca82273b7bfad8045d85a470"
    );
    let m = ExternalMessage::new(b"hello".to_vec());
    assert_eq!(EventDigest::of_message(&m).0, m.get_digest());
    assert_ne!(m.get_digest().to_vec(), b"hello".to_vec());
}

#[test]
fn signature_sets_replace_and_list() {
    let mut s = SignatureSet::new();
    s.insert(2, vec![1]);
    s.insert(4, vec![2]);
    s.insert(2, vec![3]);
    assert_eq!(s.get(2), Some(&vec![3]));
    assert_eq!(s.get(4), Some(&vec![2]));
    assert_eq!(s.get(5), None);
    assert_eq!(s.to_vec().len(), 2);
    assert!(s.contains(4));
}

#[test]
fn events_collect_signatures() {
    let mut e = event(1, 9);
    assert_eq!(e.get_signature(&1), Some(&vec![9]));
    e.add_signature(&3, vec![8]);
    assert_eq!(e.get_signature(&3), Some(&vec![8]));
    assert_eq!(e.digest().0, [0xab; 32]);
}

#[test]
fn key_uid_names_the_epoch() {
    assert_eq!(get_key_uid(0), "tss_session0");
    assert_eq!(get_key_uid(42), "tss_session42");
    assert_eq!(get_key_uid(u64::MAX), format!("tss_session{}", u64::MAX));
}

#[test]
fn sign_init_for_an_event() {
    let init = create_sign_init(&committee(), &event(0, 1));
    assert_eq!(init.new_sig_uid, "ab".repeat(32));
    assert_eq!(init.key_uid, "tss_session7");
    assert_eq!(init.party_uids, vec!["p0", "p1", "p2", "p3"]);
    assert_eq!(init.message_to_sign, vec![0xab; 32]);
}

#[test]
fn a_new_event_is_stored_as_it_came() {
    let out = process_request_event_verify(None, event(1, 1), &committee());
    assert!(out.sign_init.is_none());
    assert_eq!(out.store.author, 1);
    assert_eq!(out.store.signatures.to_vec().len(), 1);
}

#[test]
fn signing_starts_once_a_quorum_has_signed() {
    let c = committee();
    let mut stored = event(0, 1);
    stored.add_signature(&1, vec![2]);
    // Two of four signers: no quorum.
    let out = process_request_event_verify(Some(stored), event(1, 5), &c);
    assert!(out.sign_init.is_none());
    assert_eq!(out.store.get_signature(&1), Some(&vec![5]));
    // A third signer brings the quorum.
    let out = process_request_event_verify(Some(out.store), event(2, 6), &c);
    let init = out.sign_init.expect("quorum reached");
    assert_eq!(init.key_uid, "tss_session7");
    assert_eq!(out.store.signatures.to_vec().len(), 3);
    // Signers outside the committee bring no stake.
    let mut lone = event(0, 1);
    lone.add_signature(&9, vec![1]);
    let out = process_request_event_verify(Some(lone), event(10, 1), &c);
    assert!(out.sign_init.is_none());
    assert_eq!(c.stake_of_signers(&out.store), 1);
}

#[test]
fn multisig_requests() {
    let mut m = Multisig::new("party".to_owned(), 3);
    let k = m.create_keygen_request();
    assert_eq!(k.key_uid, "miltisig_3");
    assert_eq!(k.party_uid, "party");
    assert_eq!(m.create_sign_request(vec![1]).unwrap_err(), MultisigError::MissingPubkey);
    m.set_pub_key(vec![4, 5]);
    let s = m.create_sign_request(vec![1, 2]).unwrap();
    assert_eq!(s.key_uid, "miltisig_3");
    assert_eq!(s.msg_to_sign, vec![1, 2]);
    assert_eq!(s.pub_key, vec![4, 5]);
}
