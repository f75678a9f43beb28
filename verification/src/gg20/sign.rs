//! Sanitising the parameters of a signing: the signers are looked up among
//! the parties of the key, and the message must be a 32-byte digest.

use vstd::prelude::*;
use crate::tofnd::{message_in, message_out, MessageIn, MessageOut, SignInit};

verus! {

/// A 32-byte message digest.
#[derive(Clone, Copy, Debug)]
pub struct MessageDigest(pub [u8; 32]);

impl View for MessageDigest {
    type V = Seq<u8>;

    open spec fn view(&self) -> Seq<u8> {
        self.0@
    }
}

/// The parameters of a signing, checked.
#[derive(Clone, Debug)]
pub struct SignInitSanitized {
    pub new_sig_uid: String,
    pub participant_uids: Vec<String>,
    /// The index of each participant among the parties of the key.
    pub participant_indices: Vec<usize>,
    pub message_to_sign: MessageDigest,
}

/// Why the parameters of a signing were refused.
#[derive(Clone, Debug, PartialEq)]
pub enum SanitizeError {
    /// A participant is not a party of the key.
    ParticipantNotFound { party_uid: String, key_uid: String },
    /// The message to sign is not 32 bytes long.
    BadDigestLength { len: usize },
}

/// The first index of `uid` among `all`, if any.
pub open spec fn position(all: Seq<String>, uid: Seq<char>) -> Option<int>
    decreases all.len(),
{
    if all.len() == 0 {
        None
    } else if all[0]@ == uid {
        Some(0)
    } else {
        match position(all.skip(1), uid) {
            Some(i) => Some(i + 1),
            None => None,
        }
    }
}

/// The first participant that is not a party of the key, if any.
pub open spec fn first_missing(all: Seq<String>, uids: Seq<String>) -> Option<int> {
    if exists|i: int| 0 <= i < uids.len() && position(all, uids[i]@) is None {
        Some(choose|i: int|
            0 <= i < uids.len() && position(all, uids[i]@) is None && forall|j: int|
                0 <= j < i ==> position(all, #[trigger] uids[j]@) is Some)
    } else {
        None
    }
}

/// The position of an identifier is the index of its first occurrence:
/// where it is `Some(i)`, the identifier stands at `i` and at no earlier
/// index; where it is `None`, the identifier occurs nowhere.
pub proof fn lemma_position_is_first_occurrence(all: Seq<String>, uid: Seq<char>)
    ensures
        position(all, uid) matches Some(i) ==> 0 <= i < all.len() && all[i]@ == uid && forall|j: int|
            0 <= j < i ==> all[j]@ != uid,
        position(all, uid) is None <==> forall|j: int| 0 <= j < all.len() ==> all[j]@ != uid,
    decreases all.len(),
{
    if all.len() > 0 {
        lemma_position_is_first_occurrence(all.skip(1), uid);
        assert forall|j: int| 1 <= j < all.len() implies all[j] == all.skip(1)[j - 1] by {}
        if position(all, uid) is None {
            assert forall|j: int| 0 <= j < all.len() implies all[j]@ != uid by {
                if j > 0 {
                    assert(all[j] == all.skip(1)[j - 1]);
                }
            }
        }
        if forall|j: int| 0 <= j < all.len() ==> all[j]@ != uid {
            assert(all[0]@ != uid);
            assert forall|j: int| 0 <= j < all.skip(1).len() implies all.skip(1)[j]@ != uid by {
                assert(all.skip(1)[j] == all[j + 1]);
            }
        }
        if let Some(i) = position(all, uid) {
            if i > 0 {
                assert forall|j: int| 0 <= j < i implies all[j]@ != uid by {
                    if j > 0 {
                        assert(all[j] == all.skip(1)[j - 1]);
                    }
                }
            }
        }
    }
}

/// Looks `uid` up among `all`.
fn find_position(all: &Vec<String>, uid: &String) -> (r: Option<usize>)
    ensures
        match r {
            Some(i) => position(all@, uid@) == Some(i as int),
            None => position(all@, uid@) is None,
        },
{
    let mut i: usize = 0;
    while i < all.len()
        invariant
            i <= all.len(),
            forall|j: int| 0 <= j < i ==> all@[j]@ != uid@,
        decreases all.len() - i,
    {
        if all[i] == *uid {
            proof {
                lemma_position_skip(all@, uid@, i as int);
                assert(all@.skip(i as int)[0] == all@[i as int]);
            }
            return Some(i);
        }
        i = i + 1;
    }
    proof {
        lemma_position_skip(all@, uid@, i as int);
        assert(all@.skip(i as int) =~= Seq::<String>::empty());
    }
    None
}

proof fn lemma_position_skip(all: Seq<String>, uid: Seq<char>, k: int)
    requires
        0 <= k <= all.len(),
        forall|j: int| 0 <= j < k ==> all[j]@ != uid,
    ensures
        position(all, uid) == match position(all.skip(k), uid) {
            Some(p) => Some(p + k),
            None => None::<int>,
        },
    decreases k,
{
    if k == 0 {
        assert(all.skip(0) =~= all);
    } else {
        assert(all[0]@ != uid);
        assert forall|j: int| 0 <= j < k - 1 implies all.skip(1)[j]@ != uid by {
            assert(all.skip(1)[j] == all[j + 1]);
        }
        lemma_position_skip(all.skip(1), uid, k - 1);
        assert(all.skip(1).skip(k - 1) =~= all.skip(k));
    }
}

/// Whether `r` is what checking `sign_init` against the parties `all` gives:
/// the first participant that is not a party is refused; else a message that
/// is not 32 bytes long is refused; else each participant is replaced by its
/// index among the parties.
pub open spec fn sanitized_as(sign_init: SignInit, all: Seq<String>, r: Result<SignInitSanitized, SanitizeError>) -> bool {
    match first_missing(all, sign_init.party_uids@) {
        Some(k) => r == Err::<SignInitSanitized, SanitizeError>(
            SanitizeError::ParticipantNotFound {
                party_uid: sign_init.party_uids@[k],
                key_uid: sign_init.key_uid,
            },
        ),
        None => if sign_init.message_to_sign@.len() != 32 {
            r == Err::<SignInitSanitized, SanitizeError>(
                SanitizeError::BadDigestLength { len: sign_init.message_to_sign@.len() as usize },
            )
        } else {
            r matches Ok(s) && s.new_sig_uid == sign_init.new_sig_uid && s.participant_uids
                == sign_init.party_uids && s.message_to_sign@ == sign_init.message_to_sign@
                && s.participant_indices@.len() == sign_init.party_uids@.len() && forall|i: int|
                0 <= i < s.participant_indices@.len() ==> position(all, sign_init.party_uids@[i]@)
                    == Some(#[trigger] s.participant_indices@[i] as int)
        },
    }
}

proof fn lemma_first_missing_exists(all: Seq<String>, uids: Seq<String>, w: int)
    requires
        0 <= w < uids.len(),
        position(all, uids[w]@) is None,
    ensures
        exists|i: int|
            0 <= i < uids.len() && position(all, uids[i]@) is None && forall|j: int|
                0 <= j < i ==> position(all, #[trigger] uids[j]@) is Some,
    decreases w,
{
    if forall|j: int| 0 <= j < w ==> position(all, #[trigger] uids[j]@) is Some {
        assert(0 <= w < uids.len() && position(all, uids[w]@) is None);
    } else {
        let v = choose|j: int| 0 <= j < w && !(position(all, #[trigger] uids[j]@) is Some);
        lemma_first_missing_exists(all, uids, v);
    }
}

/// What sanitising promises of its outcome: a signing that is accepted has
/// a 32-byte digest equal to the message, and each participant's index
/// points at that participant among the parties; a participant is refused
/// only if it is among the participants and not among the parties; a digest
/// is refused only if every participant is a party and the message is not
/// 32 bytes long, and then with its length.
pub proof fn lemma_sanitized_outcome(sign_init: SignInit, all: Seq<String>, r: Result<SignInitSanitized, SanitizeError>)
    requires
        sanitized_as(sign_init, all, r),
    ensures
        r matches Ok(s) ==> {
            &&& sign_init.message_to_sign@.len() == 32
            &&& s.message_to_sign@ == sign_init.message_to_sign@
            &&& s.participant_indices@.len() == sign_init.party_uids@.len()
            &&& forall|i: int|
                0 <= i < s.participant_indices@.len() ==> {
                    &&& #[trigger] s.participant_indices@[i] < all.len()
                    &&& all[s.participant_indices@[i] as int]@ == sign_init.party_uids@[i]@
                }
        },
        r matches Err(SanitizeError::ParticipantNotFound { party_uid, key_uid }) ==> {
            &&& key_uid == sign_init.key_uid
            &&& exists|k: int| 0 <= k < sign_init.party_uids@.len() && sign_init.party_uids@[k] == party_uid
            &&& forall|j: int| 0 <= j < all.len() ==> all[j]@ != party_uid@
        },
        r matches Err(SanitizeError::BadDigestLength { len }) ==> {
            &&& len == sign_init.message_to_sign@.len() as usize
            &&& sign_init.message_to_sign@.len() != 32
            &&& forall|i: int|
                0 <= i < sign_init.party_uids@.len() ==> exists|j: int|
                    0 <= j < all.len() && all[j]@ == #[trigger] sign_init.party_uids@[i]@
        },
{
    let uids = sign_init.party_uids@;
    match first_missing(all, uids) {
        Some(k) => {
            let w = choose|i: int| 0 <= i < uids.len() && position(all, uids[i]@) is None;
            lemma_first_missing_exists(all, uids, w);
            lemma_position_is_first_occurrence(all, uids[k]@);
            assert(uids[k] == uids[k]);
        },
        None => {
            assert forall|i: int| 0 <= i < uids.len() implies exists|j: int|
                0 <= j < all.len() && all[j]@ == #[trigger] uids[i]@ by {
                lemma_position_is_first_occurrence(all, uids[i]@);
                let p = position(all, uids[i]@)->0;
                assert(all[p]@ == uids[i]@);
            }
            if let Ok(s) = r {
                assert forall|i: int| 0 <= i < s.participant_indices@.len() implies {
                    &&& #[trigger] s.participant_indices@[i] < all.len()
                    &&& all[s.participant_indices@[i] as int]@ == uids[i]@
                } by {
                    lemma_position_is_first_occurrence(all, uids[i]@);
                }
            }
        },
    }
}

/// Checks the parameters of a signing against the parties of the key: each
/// participant is replaced by its index among `all_party_uids`, and the
/// message must be a 32-byte digest.
pub fn sign_sanitize_args(sign_init: SignInit, all_party_uids: &Vec<String>) -> (r: Result<
    SignInitSanitized,
    SanitizeError,
>)
    ensures
        sanitized_as(sign_init, all_party_uids@, r),
{
    let ghost uids = sign_init.party_uids@;
    let mut participant_indices: Vec<usize> = Vec::new();
    let mut i: usize = 0;
    while i < sign_init.party_uids.len()
        invariant
            uids == sign_init.party_uids@,
            i <= uids.len(),
            participant_indices@.len() == i,
            forall|j: int|
                0 <= j < i ==> position(all_party_uids@, uids[j]@) == Some(
                    #[trigger] participant_indices@[j] as int,
                ),
        decreases uids.len() - i,
    {
        match find_position(all_party_uids, &sign_init.party_uids[i]) {
            Some(p) => {
                participant_indices.push(p);
            },
            None => {
                proof {
                    let k = i as int;
                    assert(0 <= k < uids.len() && position(all_party_uids@, uids[k]@) is None);
                    assert forall|j: int| 0 <= j < k implies position(all_party_uids@, #[trigger] uids[j]@) is Some by {
                        assert(position(all_party_uids@, uids[j]@) == Some(participant_indices@[j] as int));
                    }
                    let c = first_missing(all_party_uids@, uids)->0;
                    assert(first_missing(all_party_uids@, uids) is Some);
                    if c < k {
                        assert(position(all_party_uids@, uids[c]@) is Some);
                    } else if c > k {
                        assert(position(all_party_uids@, uids[k]@) is Some);
                    }
                }
                let party_uid = sign_init.party_uids[i].clone();
                return Err(SanitizeError::ParticipantNotFound { party_uid, key_uid: sign_init.key_uid });
            },
        }
        i = i + 1;
    }
    proof {
        if first_missing(all_party_uids@, uids) is Some {
            let c = choose|c: int| 0 <= c < uids.len() && position(all_party_uids@, uids[c]@) is None;
            assert(position(all_party_uids@, uids[c]@) == Some(participant_indices@[c] as int));
        }
    }
    if sign_init.message_to_sign.len() != 32 {
        return Err(SanitizeError::BadDigestLength { len: sign_init.message_to_sign.len() });
    }
    let mut digest = [0u8; 32];
    let mut j: usize = 0;
    while j < 32
        invariant
            j <= 32,
            sign_init.message_to_sign@.len() == 32,
            forall|k: int| 0 <= k < j ==> digest@[k] == sign_init.message_to_sign@[k],
        decreases 32 - j,
    {
        digest[j] = sign_init.message_to_sign[j];
        j = j + 1;
    }
    let message_to_sign = MessageDigest(digest);
    assert(message_to_sign@ =~= sign_init.message_to_sign@);
    Ok(SignInitSanitized {
        new_sig_uid: sign_init.new_sig_uid,
        participant_uids: sign_init.party_uids,
        participant_indices,
        message_to_sign,
    })
}

/// Why a signing session could not be set up.
#[derive(Debug, PartialEq)]
pub enum SignInitError<E> {
    /// The client closed the stream without sending a message.
    StreamClosed,
    /// The stream failed.
    Stream(E),
    /// The client's message has no data.
    MissingData,
    /// The client's first message is not the parameters of a signing.
    UnexpectedMessage,
    /// The key of the signing is not stored: recovery is needed.
    KeyNotFound { key_uid: String },
    /// The parameters were refused.
    Sanitize(SanitizeError),
}

/// The parameters of a signing from the first item of the client's stream:
/// the stream must yield a message whose data is a signing's parameters.
pub fn first_sign_init<E>(item: Option<Result<MessageIn, E>>) -> (r: Result<SignInit, SignInitError<E>>)
    ensures
        r == match item {
            None => Err(SignInitError::StreamClosed),
            Some(Err(e)) => Err(SignInitError::Stream(e)),
            Some(Ok(m)) => match m.data {
                None => Err(SignInitError::MissingData),
                Some(message_in::Data::SignInit(k)) => Ok(k),
                Some(_) => Err(SignInitError::UnexpectedMessage),
            },
        },
{
    match item {
        None => Err(SignInitError::StreamClosed),
        Some(Err(e)) => Err(SignInitError::Stream(e)),
        Some(Ok(m)) => match m.data {
            None => Err(SignInitError::MissingData),
            Some(message_in::Data::SignInit(k)) => Ok(k),
            Some(_) => Err(SignInitError::UnexpectedMessage),
        },
    }
}

/// The message that tells the client that the key must be recovered.
pub open spec fn need_recover_message() -> MessageOut {
    MessageOut { data: Some(message_out::Data::NeedRecover(true)) }
}

/// A sanitising result as a set-up result.
pub open spec fn as_set_up<E>(r: Result<SignInitSanitized, SanitizeError>) -> Result<SignInitSanitized, SignInitError<E>> {
    match r {
        Ok(s) => Ok(s),
        Err(e) => Err(SignInitError::Sanitize(e)),
    }
}

/// Sets up a signing from its parameters and the lookup of the parties of
/// its key: where the key is not stored, the client is told to recover it
/// (the message to send comes first) and the signing is refused; otherwise
/// the parameters are checked against the parties.
pub fn sign_init_for_key<E>(sign_init: SignInit, party_uids: Result<Vec<String>, E>) -> (r: (
    Option<MessageOut>,
    Result<SignInitSanitized, SignInitError<E>>,
))
    ensures
        match party_uids {
            Err(_) => r.0 == Some(need_recover_message()) && r.1 == Err::<
                SignInitSanitized,
                SignInitError<E>,
            >(SignInitError::KeyNotFound { key_uid: sign_init.key_uid }),
            Ok(uids) => r.0 is None && exists|s: Result<SignInitSanitized, SanitizeError>|
                sanitized_as(sign_init, uids@, s) && r.1 == as_set_up::<E>(s),
        },
{
    match party_uids {
        Err(_) => (
            Some(MessageOut { data: Some(message_out::Data::NeedRecover(true)) }),
            Err(SignInitError::KeyNotFound { key_uid: sign_init.key_uid }),
        ),
        Ok(uids) => {
            let ghost init = sign_init;
            let s = sign_sanitize_args(sign_init, &uids);
            let set_up = match s {
                Ok(x) => Ok(x),
                Err(e) => Err(SignInitError::Sanitize(e)),
            };
            assert(sanitized_as(init, uids@, s) && set_up == as_set_up::<E>(s));
            (None, set_up)
        },
    }
}

} // verus!
