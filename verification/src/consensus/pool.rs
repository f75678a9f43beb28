//! What the block builders read of the transaction pool and of the consensus
//! output, and the table of the next nonce expected from each sender.

use vstd::prelude::*;
use crate::bytes::{byte_strings, insert_bytes};

verus! {

/// A transaction ordered by the external consensus layer.
pub struct ExternalTransaction {
    pub namespace: String,
    /// The hash of the pool transaction it stands for.
    pub tx_bytes: Vec<u8>,
}

/// A transaction of the local pool, as far as block building reads it.
pub struct PoolTransaction {
    /// Transaction hash.
    pub hash: Vec<u8>,
    /// Sender address.
    pub sender: Vec<u8>,
    pub nonce: u64,
}

/// A pool transaction by its view.
pub struct TxView {
    pub hash: Seq<u8>,
    pub sender: Seq<u8>,
    pub nonce: u64,
}

impl View for PoolTransaction {
    type V = TxView;

    open spec fn view(&self) -> TxView {
        TxView { hash: self.hash@, sender: self.sender@, nonce: self.nonce }
    }
}

impl Clone for PoolTransaction {
    fn clone(&self) -> (r: Self)
        ensures
            r@ == self@,
    {
        PoolTransaction {
            hash: crate::bytes::copy_bytes(self.hash.as_slice()),
            sender: crate::bytes::copy_bytes(self.sender.as_slice()),
            nonce: self.nonce,
        }
    }
}

/// The views of a list of pool transactions.
pub open spec fn tx_views(txs: Seq<PoolTransaction>) -> Seq<TxView> {
    txs.map_values(|t: PoolTransaction| t@)
}

/// The next nonce expected from `sender`: the recorded one, else zero.
pub open spec fn expected_nonce(nonces: Map<Seq<u8>, u64>, sender: Seq<u8>) -> u64 {
    if nonces.contains_key(sender) {
        nonces[sender]
    } else {
        0
    }
}

/// The nonces of all transactions in `txs` are below `u64::MAX`, so that the
/// nonce after each of them can be recorded.
pub open spec fn nonces_bounded(txs: Seq<PoolTransaction>) -> bool {
    forall|i: int| 0 <= i < txs.len() ==> #[trigger] txs[i].nonce < u64::MAX
}

/// The first transaction of `pool` whose hash is `hash`.
pub open spec fn pool_lookup(pool: Seq<TxView>, hash: Seq<u8>) -> Option<TxView>
    decreases pool.len(),
{
    if pool.len() == 0 {
        None
    } else if pool[0].hash == hash {
        Some(pool[0])
    } else {
        pool_lookup(pool.skip(1), hash)
    }
}

/// Looks up a transaction of the pool by its hash.
pub fn pool_get<'a>(pool: &'a Vec<PoolTransaction>, hash: &[u8]) -> (r: Option<&'a PoolTransaction>)
    ensures
        match r {
            Some(t) => pool_lookup(tx_views(pool@), hash@) == Some(t@),
            None => pool_lookup(tx_views(pool@), hash@) is None,
        },
{
    let ghost views = tx_views(pool@);
    let mut i: usize = 0;
    assert(views.skip(0) =~= views);
    while i < pool.len()
        invariant
            i <= pool.len(),
            views == tx_views(pool@),
            pool_lookup(views, hash@) == pool_lookup(views.skip(i as int), hash@),
        decreases pool.len() - i,
    {
        assert(views.skip(i as int)[0] == pool@[i as int]@);
        if crate::bytes::bytes_eq(pool[i].hash.as_slice(), hash) {
            return Some(&pool[i]);
        }
        assert(views.skip(i as int).skip(1) =~= views.skip(i + 1));
        i = i + 1;
    }
    None
}

/// One entry of the nonce table.
struct NonceEntry {
    sender: Vec<u8>,
    next_nonce: u64,
}

/// The last entry of `entries` for `sender`, if any.
spec fn entries_lookup(entries: Seq<NonceEntry>, sender: Seq<u8>) -> Option<u64>
    decreases entries.len(),
{
    if entries.len() == 0 {
        None
    } else if entries.last().sender@ == sender {
        Some(entries.last().next_nonce)
    } else {
        entries_lookup(entries.drop_last(), sender)
    }
}

/// No two entries name the same sender.
spec fn senders_distinct(entries: Seq<NonceEntry>) -> bool {
    forall|i: int, j: int|
        0 <= i < entries.len() && 0 <= j < entries.len() && i != j ==> #[trigger] entries[i].sender@
            != #[trigger] entries[j].sender@
}

proof fn lemma_lookup_found(entries: Seq<NonceEntry>, i: int)
    requires
        senders_distinct(entries),
        0 <= i < entries.len(),
    ensures
        entries_lookup(entries, entries[i].sender@) == Some(entries[i].next_nonce),
    decreases entries.len(),
{
    if i != entries.len() - 1 {
        assert(entries.last().sender@ != entries[i].sender@);
        assert(senders_distinct(entries.drop_last()));
        assert(entries.drop_last()[i] == entries[i]);
        lemma_lookup_found(entries.drop_last(), i);
    }
}

proof fn lemma_lookup_absent(entries: Seq<NonceEntry>, sender: Seq<u8>)
    requires
        forall|i: int| 0 <= i < entries.len() ==> #[trigger] entries[i].sender@ != sender,
    ensures
        entries_lookup(entries, sender) is None,
    decreases entries.len(),
{
    if entries.len() > 0 {
        assert(entries.last().sender@ != sender);
        assert forall|i: int| 0 <= i < entries.drop_last().len() implies #[trigger] entries.drop_last()[i].sender@ != sender by {
            assert(entries.drop_last()[i] == entries[i]);
        }
        lemma_lookup_absent(entries.drop_last(), sender);
    }
}

/// The next nonce expected from each sender that has had a transaction sealed.
pub struct NonceTable {
    entries: Vec<NonceEntry>,
}

impl View for NonceTable {
    type V = Map<Seq<u8>, u64>;

    closed spec fn view(&self) -> Map<Seq<u8>, u64> {
        Map::new(
            |k: Seq<u8>| entries_lookup(self.entries@, k) is Some,
            |k: Seq<u8>| entries_lookup(self.entries@, k)->0,
        )
    }
}

impl NonceTable {
    #[verifier::type_invariant]
    spec fn inv(self) -> bool {
        senders_distinct(self.entries@)
    }

    /// An empty table: every sender is expected to start at nonce zero.
    pub fn new() -> (r: Self)
        ensures
            r@ == Map::<Seq<u8>, u64>::empty(),
    {
        let r = NonceTable { entries: Vec::new() };
        assert(r@ =~= Map::<Seq<u8>, u64>::empty());
        r
    }

    /// The next nonce expected from `sender`.
    pub fn expected(&self, sender: &[u8]) -> (r: u64)
        ensures
            r == expected_nonce(self@, sender@),
    {
        proof {
            use_type_invariant(self);
        }
        match self.find_in(&self.entries, sender) {
            Some(i) => {
                proof {
                    lemma_lookup_found(self.entries@, i as int);
                }
                self.entries[i].next_nonce
            },
            None => {
                proof {
                    lemma_lookup_absent(self.entries@, sender@);
                }
                0
            },
        }
    }

    /// Records `nonce` as the next nonce expected from `sender`.
    pub fn set(&mut self, sender: &[u8], nonce: u64)
        ensures
            final(self)@ == old(self)@.insert(sender@, nonce),
    {
        proof {
            use_type_invariant(&*self);
        }
        let ghost old_entries = self.entries@;
        let mut entries: Vec<NonceEntry> = Vec::new();
        std::mem::swap(&mut entries, &mut self.entries);
        match self.find_in(&entries, sender) {
            Some(i) => {
                let old_sender = crate::bytes::copy_bytes(entries[i].sender.as_slice());
                entries.set(i, NonceEntry { sender: old_sender, next_nonce: nonce });
            },
            None => {
                entries.push(NonceEntry { sender: crate::bytes::copy_bytes(sender), next_nonce: nonce });
            },
        }
        proof {
            assert(senders_distinct(entries@));
            assert forall|k: Seq<u8>|
                #![trigger entries_lookup(entries@, k)]
                entries_lookup(entries@, k) == (if k == sender@ {
                    Some(nonce)
                } else {
                    entries_lookup(old_entries, k)
                }) by {
                if exists|j: int| 0 <= j < entries@.len() && entries@[j].sender@ == k {
                    let j = choose|j: int| 0 <= j < entries@.len() && entries@[j].sender@ == k;
                    lemma_lookup_found(entries@, j);
                    if k != sender@ {
                        assert(j < old_entries.len() && old_entries[j] == entries@[j]);
                        lemma_lookup_found(old_entries, j);
                    }
                } else {
                    lemma_lookup_absent(entries@, k);
                    assert forall|j: int| 0 <= j < old_entries.len() implies #[trigger] old_entries[j].sender@ != k by {
                        assert(entries@[j].sender@ == old_entries[j].sender@);
                    }
                    lemma_lookup_absent(old_entries, k);
                }
            }
        }
        self.entries = entries;
        assert(self@ =~= old(self)@.insert(sender@, nonce));
    }

    fn find_in(&self, entries: &Vec<NonceEntry>, sender: &[u8]) -> (r: Option<usize>)
        ensures
            match r {
                Some(i) => i < entries.len() && entries@[i as int].sender@ == sender@,
                None => forall|j: int| 0 <= j < entries.len() ==> #[trigger] entries@[j].sender@ != sender@,
            },
    {
        let mut i: usize = 0;
        while i < entries.len()
            invariant
                i <= entries.len(),
                forall|j: int| 0 <= j < i ==> #[trigger] entries@[j].sender@ != sender@,
            decreases entries.len() - i,
        {
            if crate::bytes::bytes_eq(entries[i].sender.as_slice(), sender) {
                return Some(i);
            }
            i = i + 1;
        }
        None
    }
}

/// The distinct hashes of a list of transactions.
pub open spec fn view_hash_set(views: Seq<TxView>) -> Set<Seq<u8>> {
    views.map_values(|t: TxView| t.hash).to_set()
}

/// The number of distinct hashes among `txs`.
pub fn distinct_hash_count(txs: &Vec<PoolTransaction>) -> (r: usize)
    ensures
        r == view_hash_set(tx_views(txs@)).len(),
{
    let mut keys: Vec<Vec<u8>> = Vec::new();
    let mut i: usize = 0;
    assert(view_hash_set(tx_views(txs@.take(0))) =~= Set::<Seq<u8>>::empty());
    assert(byte_strings(keys@).to_set() =~= Set::<Seq<u8>>::empty());
    while i < txs.len()
        invariant
            i <= txs.len(),
            byte_strings(keys@).no_duplicates(),
            byte_strings(keys@).to_set() == view_hash_set(tx_views(txs@.take(i as int))),
        decreases txs.len() - i,
    {
        insert_bytes(&mut keys, txs[i].hash.as_slice());
        proof {
            let before = tx_views(txs@.take(i as int)).map_values(|t: TxView| t.hash);
            assert(tx_views(txs@.take(i + 1)).map_values(|t: TxView| t.hash) =~= before.push(txs@[i as int].hash@));
            crate::consensus::mode::lemma_to_set_push(before, txs@[i as int].hash@);
        }
        i = i + 1;
    }
    assert(txs@.take(i as int) =~= txs@);
    proof {
        byte_strings(keys@).unique_seq_to_set();
    }
    keys.len()
}

/// The number of transactions in a list of batches.
pub open spec fn batch_total(batches: Seq<Vec<ExternalTransaction>>) -> int
    decreases batches.len(),
{
    if batches.len() == 0 {
        0
    } else {
        batch_total(batches.drop_last()) + batches.last()@.len()
    }
}

/// The batches of a prefix hold no more transactions than all of them.
pub proof fn lemma_batch_total_prefix(batches: Seq<Vec<ExternalTransaction>>, i: int)
    requires
        0 <= i <= batches.len(),
    ensures
        0 <= batch_total(batches.take(i)) <= batch_total(batches),
    decreases batches.len(),
{
    if i < batches.len() {
        assert(batches.drop_last().take(i) =~= batches.take(i));
        lemma_batch_total_prefix(batches.drop_last(), i);
    } else {
        assert(batches.take(i) =~= batches);
        if batches.len() > 0 {
            lemma_batch_total_prefix(batches.drop_last(), i - 1);
        }
    }
}

} // verus!
