//! The keys under which the key-value store keeps the party's mnemonics, and
//! how the store's answers about them are read.

use vstd::prelude::*;
use crate::text::{decimal, decimal_digit, push_decimal, push_str, string_of};

verus! {

/// The key of the latest mnemonic when none has been stored before.
pub open spec fn mnemonic_key() -> Seq<char> {
    "mnemonic"@
}

/// The key under which the mnemonic numbered `count` is stored: the first
/// under the plain key, later ones with their number appended.
pub open spec fn mnemonic_key_for(count: u32) -> Seq<char> {
    if count == 0 {
        mnemonic_key()
    } else {
        mnemonic_key() + "_"@ + decimal(count as nat)
    }
}

/// The key for the next mnemonic, given how many are stored, and that count.
pub fn get_next_key(count: u32) -> (r: (String, u32))
    ensures
        r.0@ == mnemonic_key_for(count),
        r.1 == count,
{
    let key = if count == 0 {
        string_of("mnemonic")
    } else {
        let mut k = string_of("mnemonic");
        crate::text::push_str(&mut k, "_");
        push_decimal(&mut k, count as u64);
        k
    };
    (key, count)
}

/// What went wrong inside the key-value store.
#[derive(Clone, Debug, PartialEq)]
pub enum InnerKvError {
    /// The store refused the operation, with its account of why.
    LogicalErr(String),
    /// A stored value could not be decoded.
    DeserializationErr,
    /// A value could not be encoded.
    SerializationErr,
}

/// An error of the key-value store, by the operation that failed.
#[derive(Clone, Debug, PartialEq)]
pub enum KvError {
    GetErr(InnerKvError),
    PutErr(InnerKvError),
    ExistsErr(InnerKvError),
}

/// The mnemonic count from the read of its record: the decoded count where
/// the record exists and decodes, a decoding error where it does not decode,
/// and a read error, rendered as given, where the read failed. `None` where
/// there is no record: the count is then read from the mnemonic's presence.
pub fn count_from_record(read: Result<Option<Option<u32>>, String>) -> (r: Option<Result<u32, KvError>>)
    ensures
        r == match read {
            Ok(Some(Some(n))) => Some(Ok::<u32, KvError>(n)),
            Ok(Some(None)) => Some(Err(KvError::GetErr(InnerKvError::DeserializationErr))),
            Ok(None) => None,
            Err(e) => Some(Err(KvError::GetErr(InnerKvError::LogicalErr(e)))),
        },
{
    match read {
        Ok(Some(Some(n))) => Some(Ok(n)),
        Ok(Some(None)) => Some(Err(KvError::GetErr(InnerKvError::DeserializationErr))),
        Ok(None) => None,
        Err(e) => Some(Err(KvError::GetErr(InnerKvError::LogicalErr(e)))),
    }
}

/// The mnemonic count where no count is recorded: one where the mnemonic is
/// stored, zero where it is not or its presence could not be checked.
pub fn count_from_presence<E>(present: Result<bool, E>) -> (r: u32)
    ensures
        r == (if present matches Ok(true) { 1u32 } else { 0u32 }),
{
    match present {
        Ok(true) => 1,
        _ => 0,
    }
}

/// Whether `key` can be reserved, given whether it is already stored: a key
/// already stored is refused; a failed check lets the reservation go on.
pub fn reservation_check<E>(key: &String, exists: Result<bool, E>) -> (r: Result<(), KvError>)
    ensures
        exists matches Ok(true) ==> (r matches Err(KvError::ExistsErr(InnerKvError::LogicalErr(m)))
            && m@ == "kv_manager key <"@ + key@ + "> already reserved."@),
        !(exists matches Ok(true)) ==> r == Ok::<(), KvError>(()),
{
    match exists {
        Ok(true) => {
            let mut m = string_of("kv_manager key <");
            push_str(&mut m, key.as_str());
            push_str(&mut m, "> already reserved.");
            Err(KvError::ExistsErr(InnerKvError::LogicalErr(m)))
        },
        _ => Ok(()),
    }
}

/// The key under which the number of stored mnemonics is kept.
pub open spec fn mnemonic_count_key() -> Seq<char> {
    "mnemonic_count"@
}

/// A value of the store, by what it holds.
#[derive(Clone, Debug, PartialEq)]
pub enum StoredValue {
    /// A mnemonic's entropy (empty where the key is only reserved).
    Entropy(Vec<u8>),
    /// The number of stored mnemonics.
    Count(u32),
}

/// A stored value by its view.
pub enum ValueView {
    Entropy(Seq<u8>),
    Count(u32),
}

impl View for StoredValue {
    type V = ValueView;

    open spec fn view(&self) -> ValueView {
        match self {
            StoredValue::Entropy(e) => ValueView::Entropy(e@),
            StoredValue::Count(n) => ValueView::Count(*n),
        }
    }
}

/// One operation on the store.
#[derive(Clone, Debug, PartialEq)]
pub enum StoreOp {
    /// Reserve a key: it is written with an empty value.
    Reserve(String),
    /// Write a value under a key.
    Write(String, StoredValue),
    /// Remove a key.
    Remove(String),
}

/// A store operation by its view.
pub enum OpView {
    Reserve(Seq<char>),
    Write(Seq<char>, ValueView),
    Remove(Seq<char>),
}

impl View for StoreOp {
    type V = OpView;

    open spec fn view(&self) -> OpView {
        match self {
            StoreOp::Reserve(k) => OpView::Reserve(k@),
            StoreOp::Write(k, v) => OpView::Write(k@, v@),
            StoreOp::Remove(k) => OpView::Remove(k@),
        }
    }
}

/// The store after the operations, applied in order.
pub open spec fn apply_ops(store: Map<Seq<char>, ValueView>, ops: Seq<OpView>) -> Map<Seq<char>, ValueView>
    decreases ops.len(),
{
    if ops.len() == 0 {
        store
    } else {
        let next = match ops[0] {
            OpView::Reserve(k) => store.insert(k, ValueView::Entropy(Seq::empty())),
            OpView::Write(k, v) => store.insert(k, v),
            OpView::Remove(k) => store.remove(k),
        };
        apply_ops(next, ops.skip(1))
    }
}

/// The number of stored mnemonics: the recorded count, else one where the
/// first mnemonic is stored and zero where it is not.
pub open spec fn stored_count(store: Map<Seq<char>, ValueView>) -> u32 {
    if store.contains_key(mnemonic_count_key()) && store[mnemonic_count_key()] is Count {
        store[mnemonic_count_key()]->Count_0
    } else if store.contains_key(mnemonic_key()) {
        1
    } else {
        0
    }
}

/// Whether the first mnemonic is stored.
pub open spec fn mnemonic_present(store: Map<Seq<char>, ValueView>) -> bool {
    store.contains_key(mnemonic_key()) && store[mnemonic_key()] is Entropy
}

/// The operations that insert a mnemonic's entropy when `count` mnemonics
/// are stored: the next key is reserved and written, then the count record
/// is replaced by `count + 1`.
pub open spec fn insert_ops(count: u32, entropy: Seq<u8>) -> Seq<OpView> {
    seq![
        OpView::Reserve(mnemonic_key_for(count)),
        OpView::Write(mnemonic_key_for(count), ValueView::Entropy(entropy)),
        OpView::Remove(mnemonic_count_key()),
        OpView::Reserve(mnemonic_count_key()),
        OpView::Write(mnemonic_count_key(), ValueView::Count((count + 1) as u32)),
    ]
}

/// The operations that initialise the mnemonic: none where it is stored,
/// else the insertion of the new entropy.
pub open spec fn init_ops(present: bool, count: u32, entropy: Seq<u8>) -> Seq<OpView> {
    if present {
        seq![]
    } else {
        insert_ops(count, entropy)
    }
}

/// The views of a list of operations.
pub open spec fn op_views(ops: Seq<StoreOp>) -> Seq<OpView> {
    ops.map_values(|o: StoreOp| o@)
}

/// The operations that insert `entropy` as the mnemonic numbered `count`.
pub fn insert_plan(count: u32, entropy: Vec<u8>) -> (r: Vec<StoreOp>)
    requires
        count < u32::MAX,
    ensures
        op_views(r@) == insert_ops(count, entropy@),
{
    let ghost e = entropy@;
    let (key, _) = get_next_key(count);
    let (key2, _) = get_next_key(count);
    let count_key = string_of("mnemonic_count");
    let count_key2 = string_of("mnemonic_count");
    let count_key3 = string_of("mnemonic_count");
    let r = vec![
        StoreOp::Reserve(key),
        StoreOp::Write(key2, StoredValue::Entropy(entropy)),
        StoreOp::Remove(count_key),
        StoreOp::Reserve(count_key2),
        StoreOp::Write(count_key3, StoredValue::Count(count + 1)),
    ];
    proof {
        reveal_strlit("mnemonic_count");
    }
    assert(op_views(r@) =~= insert_ops(count, e));
    r
}

/// The operations that initialise the mnemonic, given whether it is stored
/// and how many mnemonics are stored.
pub fn init_plan(present: bool, count: u32, entropy: Vec<u8>) -> (r: Vec<StoreOp>)
    requires
        !present ==> count < u32::MAX,
    ensures
        op_views(r@) == init_ops(present, count, entropy@),
{
    if present {
        let r: Vec<StoreOp> = Vec::new();
        assert(op_views(r@) =~= Seq::<OpView>::empty());
        r
    } else {
        insert_plan(count, entropy)
    }
}

proof fn lemma_decimal_digits(n: nat)
    ensures
        forall|i: int| 0 <= i < decimal(n).len() ==> ('0' as int) <= (#[trigger] decimal(n)[i] as int) <= ('9' as int),
        decimal(n).len() > 0,
    decreases n,
{
    if n >= 10 {
        lemma_decimal_digits(n / 10);
        assert forall|i: int| 0 <= i < decimal(n).len() implies ('0' as int) <= (#[trigger] decimal(n)[i] as int) <= ('9' as int) by {
            if i < decimal(n / 10).len() {
                assert(decimal(n)[i] == decimal(n / 10)[i]);
            } else {
                assert(decimal(n)[i] == decimal_digit((n % 10) as int));
            }
        }
    }
}

proof fn lemma_mnemonic_key_not_count_key(count: u32)
    ensures
        mnemonic_key_for(count) != mnemonic_count_key(),
{
    reveal_strlit("mnemonic");
    reveal_strlit("mnemonic_count");
    reveal_strlit("_");
    if count != 0 {
        lemma_decimal_digits(count as nat);
        let k = mnemonic_key_for(count);
        assert(k[9] == decimal(count as nat)[0]);
        assert(mnemonic_count_key()[9] == 'c');
    } else {
        assert(mnemonic_key_for(count).len() != mnemonic_count_key().len());
    }
}

/// Inserting a mnemonic raises the count of stored mnemonics by one and
/// stores the entropy under the next mnemonic key.
pub proof fn lemma_insert_raises_count(store: Map<Seq<char>, ValueView>, entropy: Seq<u8>)
    requires
        stored_count(store) < u32::MAX,
    ensures
        ({
            let after = apply_ops(store, insert_ops(stored_count(store), entropy));
            &&& stored_count(after) == stored_count(store) + 1
            &&& after.contains_key(mnemonic_key_for(stored_count(store)))
            &&& after[mnemonic_key_for(stored_count(store))] == ValueView::Entropy(entropy)
            &&& forall|k: Seq<char>|
                k != mnemonic_key_for(stored_count(store)) && k != mnemonic_count_key() ==> (
                #[trigger] after.contains_key(k) == store.contains_key(k) && (store.contains_key(k) ==> after[k]
                    == store[k]))
        }),
{
    let c = stored_count(store);
    let ops = insert_ops(c, entropy);
    lemma_mnemonic_key_not_count_key(c);
    reveal_with_fuel(apply_ops, 6);
    assert(ops.skip(1).skip(1).skip(1).skip(1).skip(1) =~= Seq::<OpView>::empty());
}

/// Each mnemonic has a key of its own: different numbers give different
/// keys, and no mnemonic key is the key of the count record. So an insertion
/// never overwrites an earlier mnemonic.
pub proof fn lemma_mnemonic_keys_distinct(a: u32, b: u32)
    ensures
        a != b ==> mnemonic_key_for(a) != mnemonic_key_for(b),
        mnemonic_key_for(a) != mnemonic_count_key(),
{
    lemma_mnemonic_key_not_count_key(a);
    reveal_strlit("mnemonic");
    reveal_strlit("_");
    if a != b && mnemonic_key_for(a) == mnemonic_key_for(b) {
        crate::text::lemma_decimal_reads_back(a as nat);
        crate::text::lemma_decimal_reads_back(b as nat);
        if a == 0 || b == 0 {
            assert(mnemonic_key_for(a).len() != mnemonic_key_for(b).len());
        } else {
            assert(mnemonic_key_for(a).skip(9) =~= decimal(a as nat));
            assert(mnemonic_key_for(b).skip(9) =~= decimal(b as nat));
        }
    }
}

/// A second initialisation of a fresh store writes nothing: the first one
/// stores the first mnemonic, which the second then finds.
pub proof fn lemma_second_init_writes_nothing(store: Map<Seq<char>, ValueView>, first: Seq<u8>, second: Seq<u8>)
    requires
        !mnemonic_present(store),
        stored_count(store) == 0,
    ensures
        ({
            let after = apply_ops(store, init_ops(mnemonic_present(store), stored_count(store), first));
            &&& mnemonic_present(after)
            &&& init_ops(mnemonic_present(after), stored_count(after), second) == Seq::<OpView>::empty()
        }),
{
    lemma_insert_raises_count(store, first);
    reveal_strlit("mnemonic");
}

} // verus!
