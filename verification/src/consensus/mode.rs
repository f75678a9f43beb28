//! The miner that seals blocks out of the transactions that the consensus
//! layer has committed, in the order in which they reached the pool.

use std::collections::VecDeque;
use vstd::prelude::*;
use crate::bytes::{byte_strings, contains_bytes, copy_bytes, insert_bytes};
use super::pool::{
    batch_total, distinct_hash_count, expected_nonce, lemma_batch_total_prefix, nonces_bounded, tx_views,
    view_hash_set, ExternalTransaction, NonceTable, PoolTransaction,
};

verus! {

/// The keys (transaction hashes) that a list of committed transactions names.
pub open spec fn committed_keys(txs: Seq<ExternalTransaction>) -> Set<Seq<u8>> {
    txs.map_values(|t: ExternalTransaction| t.tx_bytes@).to_set()
}

/// The hashes of a list of pool transactions.
pub open spec fn hash_keys(txs: Seq<PoolTransaction>) -> Set<Seq<u8>> {
    txs.map_values(|t: PoolTransaction| t.hash@).to_set()
}

/// The committed transactions whose hash is not among `sealed`.
pub open spec fn unsealed(txs: Seq<ExternalTransaction>, sealed: Set<Seq<u8>>) -> Seq<ExternalTransaction> {
    txs.filter(|t: ExternalTransaction| !sealed.contains(t.tx_bytes@))
}

/// Scans the pending queue from its front. A transaction whose hash is not
/// committed stops the scan and is put back; a committed one is sealed when
/// its nonce is the one expected from its sender (which then expects the next
/// nonce), and put back otherwise. The result is the sealed transactions, the
/// transactions put back, the transactions after the one that stopped the
/// scan, and the expected nonces afterwards.
pub open spec fn seal_scan(
    pending: Seq<PoolTransaction>,
    committed: Set<Seq<u8>>,
    nonces: Map<Seq<u8>, u64>,
) -> (Seq<PoolTransaction>, Seq<PoolTransaction>, Seq<PoolTransaction>, Map<Seq<u8>, u64>)
    decreases pending.len(),
{
    if pending.len() == 0 {
        (seq![], seq![], seq![], nonces)
    } else {
        let tx = pending[0];
        if !committed.contains(tx.hash@) {
            (seq![], seq![tx], pending.skip(1), nonces)
        } else if tx.nonce == expected_nonce(nonces, tx.sender@) {
            let r = seal_scan(pending.skip(1), committed, nonces.insert(tx.sender@, (tx.nonce + 1) as u64));
            (seq![tx] + r.0, r.1, r.2, r.3)
        } else {
            let r = seal_scan(pending.skip(1), committed, nonces);
            (r.0, seq![tx] + r.1, r.2, r.3)
        }
    }
}

/// The batch of committed transactions that the next block is built from.
pub open spec fn current_batch(batches: Seq<Vec<ExternalTransaction>>) -> Seq<ExternalTransaction> {
    if batches.len() > 0 {
        batches[0]@
    } else {
        seq![]
    }
}

/// Moves the elements of a vector into a queue, in order.
pub fn into_queue<T>(v: Vec<T>) -> (q: VecDeque<T>)
    ensures
        q@ == v@,
{
    let ghost v0 = v@;
    let mut v = v;
    let mut q: VecDeque<T> = VecDeque::new();
    while v.len() > 0
        invariant
            v0 == v@ + q@,
        decreases v.len(),
    {
        let x = v.pop().unwrap();
        q.push_front(x);
        assert(v0 =~= v@ + q@);
    }
    assert(v0 =~= q@);
    q
}

/// Appends to `out` the transactions of `txs` whose hash is not in `sealed`.
fn keep_unsealed(txs: Vec<ExternalTransaction>, sealed: &Vec<Vec<u8>>, out: &mut Vec<ExternalTransaction>)
    ensures
        final(out)@ == old(out)@ + unsealed(txs@, byte_strings(sealed@).to_set()),
{
    let ghost s = byte_strings(sealed@).to_set();
    let ghost t0 = txs@;
    let ghost out0 = out@;
    let n = txs.len();
    let mut q = into_queue(txs);
    let mut i: usize = 0;
    assert(t0.take(0).filter(|t: ExternalTransaction| !s.contains(t.tx_bytes@)) =~= seq![]) by {
        reveal(Seq::filter);
    }
    while q.len() > 0
        invariant
            i + q@.len() == t0.len(),
            t0.len() <= usize::MAX,
            q@ == t0.skip(i as int),
            out@ == out0 + unsealed(t0.take(i as int), s),
            s == byte_strings(sealed@).to_set(),
        decreases q.len(),
    {
        let t = q.pop_front().unwrap();
        assert(t == t0[i as int]);
        assert(t0.take(i + 1) =~= t0.take(i as int).push(t));
        proof {
            t0.take(i as int).lemma_filter_push(t, |t: ExternalTransaction| !s.contains(t.tx_bytes@));
        }
        let found = contains_bytes(sealed, t.tx_bytes.as_slice());
        if !found {
            out.push(t);
        }
        assert(out@ =~= out0 + unsealed(t0.take(i + 1), s));
        i = i + 1;
        assert(q@ =~= t0.skip(i as int));
    }
    assert(t0.take(i as int) =~= t0);
}

/// Collects the keys of the committed transactions of `txs` into `keys`.
fn collect_keys(txs: &Vec<ExternalTransaction>, keys: &mut Vec<Vec<u8>>)
    ensures
        byte_strings(final(keys)@) == byte_strings(old(keys)@) + txs@.map_values(
            |t: ExternalTransaction| t.tx_bytes@,
        ),
{
    let ghost k0 = byte_strings(keys@);
    let mut i: usize = 0;
    while i < txs.len()
        invariant
            i <= txs.len(),
            byte_strings(keys@) == k0 + txs@.take(i as int).map_values(|t: ExternalTransaction| t.tx_bytes@),
        decreases txs.len() - i,
    {
        let ghost before = byte_strings(keys@);
        keys.push(copy_bytes(txs[i].tx_bytes.as_slice()));
        assert(byte_strings(keys@) =~= before.push(txs@[i as int].tx_bytes@));
        assert(txs@.take(i + 1).map_values(|t: ExternalTransaction| t.tx_bytes@) =~= txs@.take(
            i as int,
        ).map_values(|t: ExternalTransaction| t.tx_bytes@).push(txs@[i as int].tx_bytes@));
        i = i + 1;
        assert(byte_strings(keys@) =~= k0 + txs@.take(i as int).map_values(|t: ExternalTransaction| t.tx_bytes@));
    }
    assert(txs@.take(i as int) =~= txs@);
}

/// The state of a Narwhal miner, by its views.
pub struct MinerState {
    pub max_transactions: usize,
    /// Committed transactions not yet sealed.
    pub deferred: Seq<ExternalTransaction>,
    /// Batches of committed transactions not yet looked at.
    pub batches: Seq<Vec<ExternalTransaction>>,
    /// Announced pool transactions, in order.
    pub pending: Seq<PoolTransaction>,
    /// The next nonce expected from each sender.
    pub nonces: Map<Seq<u8>, u64>,
}

/// The next block and the miner state after building it. The block is built
/// out of the first pending batch (if any) together with the deferred
/// committed transactions; the committed transactions left unsealed are
/// deferred again. Where nothing is committed at all, the first pending
/// transaction is dropped and the block is empty.
pub open spec fn next_block(s: MinerState) -> (Seq<PoolTransaction>, MinerState) {
    let all = s.deferred + current_batch(s.batches);
    let batches = if s.batches.len() > 0 {
        s.batches.skip(1)
    } else {
        s.batches
    };
    if all.len() == 0 {
        (
            seq![],
            MinerState {
                deferred: seq![],
                batches,
                pending: if s.pending.len() > 0 {
                    s.pending.skip(1)
                } else {
                    s.pending
                },
                ..s
            },
        )
    } else {
        let r = seal_scan(s.pending, committed_keys(all), s.nonces);
        (
            r.0,
            MinerState {
                deferred: unsealed(all, hash_keys(r.0)),
                batches,
                pending: r.1 + r.2,
                nonces: r.3,
                ..s
            },
        )
    }
}

/// The batches worth keeping: the non-empty ones.
pub open spec fn nonempty_batches(b: Seq<Vec<ExternalTransaction>>) -> Seq<Vec<ExternalTransaction>> {
    b.filter(|v: Vec<ExternalTransaction>| v@.len() > 0)
}

/// The announced transactions that the pool still holds.
pub open spec fn found_transactions(a: Seq<Option<PoolTransaction>>) -> Seq<PoolTransaction> {
    a.filter_map(|o: Option<PoolTransaction>| o)
}

/// What one poll of the miner gives: the newly committed batches and the
/// newly announced transactions are queued; where no committed transaction is
/// waiting at all nothing is mined, and otherwise the next block is built and
/// handed out unless it is empty.
pub open spec fn poll_outcome(
    s: MinerState,
    committed: Seq<Vec<ExternalTransaction>>,
    announced: Seq<Option<PoolTransaction>>,
) -> (Option<Seq<PoolTransaction>>, MinerState) {
    let s1 = MinerState {
        batches: s.batches + nonempty_batches(committed),
        pending: s.pending + found_transactions(announced),
        ..s
    };
    if s1.batches.len() == 0 && s1.deferred.len() == 0 {
        (None, s1)
    } else {
        let (block, s2) = next_block(s1);
        (if block.len() == 0 {
            None
        } else {
            Some(block)
        }, s2)
    }
}

/// A miner that seals the pool transactions that the Narwhal consensus layer
/// has committed.
pub struct NarwhalTransactionMiner {
    /// How many transactions to mine per block.
    pub max_transactions: usize,
    /// The next nonce expected from each sender.
    pub expected_nonces: NonceTable,
    /// Committed transactions not yet sealed into a block.
    pub deferred_commited_transactions: Vec<ExternalTransaction>,
    /// Pool transactions in the order in which they were announced.
    pub pending_transaction_queue: VecDeque<PoolTransaction>,
    /// Batches of committed transactions not yet looked at.
    pub pending_committed_transactions: VecDeque<Vec<ExternalTransaction>>,
    /// How many committed transactions have been received.
    pub committed_trans: u64,
    /// How many distinct transactions have been sealed.
    pub sealed_trans: u64,
}

impl View for NarwhalTransactionMiner {
    type V = MinerState;

    open spec fn view(&self) -> MinerState {
        MinerState {
            max_transactions: self.max_transactions,
            deferred: self.deferred_commited_transactions@,
            batches: self.pending_committed_transactions@,
            pending: self.pending_transaction_queue@,
            nonces: self.expected_nonces@,
        }
    }
}

impl NarwhalTransactionMiner {
    /// A miner with nothing pending, no limit on the block size and every
    /// sender expected at nonce zero.
    pub fn new() -> (r: Self)
        ensures
            r.max_transactions == usize::MAX,
            r.expected_nonces@ == Map::<Seq<u8>, u64>::empty(),
            r.deferred_commited_transactions@ == Seq::<ExternalTransaction>::empty(),
            r.pending_transaction_queue@ == Seq::<PoolTransaction>::empty(),
            r.pending_committed_transactions@ == Seq::<Vec<ExternalTransaction>>::empty(),
            r.committed_trans == 0,
            r.sealed_trans == 0,
    {
        NarwhalTransactionMiner {
            max_transactions: usize::MAX,
            expected_nonces: NonceTable::new(),
            deferred_commited_transactions: Vec::new(),
            pending_transaction_queue: VecDeque::new(),
            pending_committed_transactions: VecDeque::new(),
            committed_trans: 0,
            sealed_trans: 0,
        }
    }

    /// Takes in what the consensus layer committed and what the pool
    /// announced since the last poll, and returns the next block if there is
    /// one to seal.
    pub fn poll(
        &mut self,
        committed: Vec<Vec<ExternalTransaction>>,
        announced: Vec<Option<PoolTransaction>>,
    ) -> (r: Option<Vec<PoolTransaction>>)
        requires
            old(self).committed_trans + batch_total(committed@) <= u64::MAX,
            poll_outcome(old(self)@, committed@, announced@).0 matches Some(b) ==> nonces_bounded(b)
                && old(self).sealed_trans + view_hash_set(tx_views(b)).len() <= u64::MAX,
        ensures
            (match r {
                Some(v) => Some(v@),
                None => None,
            }, final(self)@) == poll_outcome(old(self)@, committed@, announced@),
            final(self).committed_trans == old(self).committed_trans + batch_total(committed@),
            final(self).sealed_trans == old(self).sealed_trans + match r {
                Some(v) => view_hash_set(tx_views(v@)).len(),
                None => 0,
            },
    {
        let ghost c0 = committed@;
        let ghost b0 = self.pending_committed_transactions@;
        let clen = committed.len();
        let mut cq = into_queue(committed);
        let mut i: usize = 0;
        let ghost keep = |v: Vec<ExternalTransaction>| v@.len() > 0;
        assert(c0.take(0).filter(keep) =~= seq![]) by {
            reveal(Seq::filter);
        }
        while cq.len() > 0
            invariant
                cq@ == c0.skip(i as int),
                i + cq@.len() == c0.len(),
                c0.len() == clen,
                self.pending_committed_transactions@ == b0 + c0.take(i as int).filter(keep),
                self@ == (MinerState { batches: self.pending_committed_transactions@, ..old(self)@ }),
                keep == (|v: Vec<ExternalTransaction>| v@.len() > 0),
                self.committed_trans == old(self).committed_trans + batch_total(c0.take(i as int)),
                self.sealed_trans == old(self).sealed_trans,
                old(self).committed_trans + batch_total(c0) <= u64::MAX,
            decreases cq.len(),
        {
            let batch = cq.pop_front().unwrap();
            assert(batch == c0[i as int]);
            assert(c0.take(i + 1) =~= c0.take(i as int).push(batch));
            proof {
                c0.take(i as int).lemma_filter_push(batch, keep);
                assert(c0.take(i + 1).drop_last() =~= c0.take(i as int));
                lemma_batch_total_prefix(c0, i + 1);
            }
            self.committed_trans = self.committed_trans + batch.len() as u64;
            if batch.len() > 0 {
                self.pending_committed_transactions.push_back(batch);
            }
            i = i + 1;
            assert(cq@ =~= c0.skip(i as int));
        }
        assert(c0.take(i as int) =~= c0);
        let ghost a0 = announced@;
        let ghost p0 = self.pending_transaction_queue@;
        let ghost s_mid = self@;
        let alen = announced.len();
        let mut aq = into_queue(announced);
        let mut j: usize = 0;
        let ghost found = |o: Option<PoolTransaction>| o;
        while aq.len() > 0
            invariant
                aq@ == a0.skip(j as int),
                j + aq@.len() == a0.len(),
                a0.len() == alen,
                self.pending_transaction_queue@ == p0 + a0.take(j as int).filter_map(found),
                self@ == (MinerState { pending: self.pending_transaction_queue@, ..s_mid }),
                found == (|o: Option<PoolTransaction>| o),
                self.committed_trans == old(self).committed_trans + batch_total(c0),
                self.sealed_trans == old(self).sealed_trans,
            decreases aq.len(),
        {
            let item = aq.pop_front().unwrap();
            assert(item == a0[j as int]);
            proof {
                a0.lemma_filter_map_take_succ(found, j as int);
            }
            match item {
                Some(tx) => {
                    self.pending_transaction_queue.push_back(tx);
                },
                None => {},
            }
            j = j + 1;
            assert(self.pending_transaction_queue@ =~= p0 + a0.take(j as int).filter_map(found));
            assert(aq@ =~= a0.skip(j as int));
        }
        assert(a0.take(j as int) =~= a0);
        if self.pending_committed_transactions.len() == 0 && self.deferred_commited_transactions.len() == 0 {
            return None;
        }
        proof {
            let b = next_block(self@).0;
            if b.len() == 0 {
                assert(view_hash_set(tx_views(b)) =~= Set::<Seq<u8>>::empty());
            }
        }
        let block = self.process_next_block();
        if block.len() == 0 {
            assert(view_hash_set(tx_views(block@)) =~= Set::<Seq<u8>>::empty());
            None
        } else {
            Some(block)
        }
    }

    /// Builds the transaction list of the next block out of the next batch of
    /// committed transactions and those committed earlier but not yet sealed.
    fn process_next_block(&mut self) -> (r: Vec<PoolTransaction>)
        requires
            nonces_bounded(next_block(old(self)@).0),
            old(self).sealed_trans + view_hash_set(tx_views(next_block(old(self)@).0)).len() <= u64::MAX,
        ensures
            (r@, final(self)@) == next_block(old(self)@),
            final(self).sealed_trans == old(self).sealed_trans + view_hash_set(tx_views(r@)).len(),
            final(self).committed_trans == old(self).committed_trans,
    {
        let sealed0 = self.sealed_trans;
        let committed0 = self.committed_trans;
        let ghost batches0 = self.pending_committed_transactions@;
        let current: Vec<ExternalTransaction> = match self.pending_committed_transactions.pop_front() {
            Some(batch) => batch,
            None => Vec::new(),
        };
        assert(current@ == current_batch(batches0));
        let ghost all = self.deferred_commited_transactions@ + current@;
        let mut committed: Vec<Vec<u8>> = Vec::new();
        collect_keys(&self.deferred_commited_transactions, &mut committed);
        collect_keys(&current, &mut committed);
        assert(byte_strings(committed@) =~= all.map_values(|t: ExternalTransaction| t.tx_bytes@));
        let ghost committed_set = committed_keys(all);
        let ghost p0 = self.pending_transaction_queue@;
        let ghost n0 = self.expected_nonces@;
        let mut transactions: Vec<PoolTransaction> = Vec::new();
        let mut sealed_keys: Vec<Vec<u8>> = Vec::new();
        if committed.len() == 0 {
            let _ = self.pending_transaction_queue.pop_front();
            assert(transactions@ =~= Seq::<PoolTransaction>::empty());
            assert(all.len() == 0);
        } else {
            assert(all.len() > 0);
            let mut put_back: Vec<PoolTransaction> = Vec::new();
            let mut i: usize = 0;
            let mut stopped = false;
            let plen = self.pending_transaction_queue.len();
            let ghost d_start = self.deferred_commited_transactions@;
            let ghost pc_start = self.pending_committed_transactions@;
            assert(p0.skip(0) =~= p0);
            assert(byte_strings(sealed_keys@) =~= Seq::<Seq<u8>>::empty());
            assert(hash_keys(transactions@) =~= Set::<Seq<u8>>::empty());
            assert(byte_strings(sealed_keys@).to_set() =~= Set::<Seq<u8>>::empty());
            while !stopped && self.pending_transaction_queue.len() > 0
                invariant
                    self.max_transactions == old(self).max_transactions,
                    self.deferred_commited_transactions@ == d_start,
                    self.pending_committed_transactions@ == pc_start,
                    p0.len() == plen,
                    committed_set == committed_keys(all),
                    byte_strings(committed@).to_set() == committed_set,
                    nonces_bounded(seal_scan(p0, committed_set, n0).0),
                    i <= p0.len(),
                    !stopped ==> self.pending_transaction_queue@ == p0.skip(i as int),
                    !stopped ==> ({
                        let rest = seal_scan(p0.skip(i as int), committed_set, self.expected_nonces@);
                        seal_scan(p0, committed_set, n0) == (
                            transactions@ + rest.0,
                            put_back@ + rest.1,
                            rest.2,
                            rest.3,
                        )
                    }),
                    stopped ==> seal_scan(p0, committed_set, n0) == (
                        transactions@,
                        put_back@,
                        self.pending_transaction_queue@,
                        self.expected_nonces@,
                    ),
                    byte_strings(sealed_keys@).no_duplicates(),
                    byte_strings(sealed_keys@).to_set() == hash_keys(transactions@),
                decreases p0.len() - i,
            {
                let ghost before = self.pending_transaction_queue@;
                let tx = self.pending_transaction_queue.pop_front().unwrap();
                assert(before[0] == tx);
                assert(before.skip(1) =~= p0.skip(i + 1));
                assert(p0[i as int] == tx);
                let ghost nonces_now = self.expected_nonces@;
                let ghost rest = seal_scan(before, committed_set, nonces_now);
                if !contains_bytes(&committed, tx.hash.as_slice()) {
                    put_back.push(tx);
                    stopped = true;
                    assert(transactions@ + rest.0 =~= transactions@);
                } else {
                    let expected = self.expected_nonces.expected(tx.sender.as_slice());
                    if tx.nonce == expected {
                        assert(rest.0[0] == tx);
                        assert(seal_scan(p0, committed_set, n0).0[transactions@.len() as int] == tx);
                        self.expected_nonces.set(tx.sender.as_slice(), tx.nonce + 1);
                        insert_bytes(&mut sealed_keys, tx.hash.as_slice());
                        let ghost t0 = transactions@;
                        transactions.push(tx);
                        assert(transactions@ =~= t0.push(tx));
                        assert(hash_keys(transactions@) =~= hash_keys(t0).insert(tx.hash@)) by {
                            assert(transactions@.map_values(|t: PoolTransaction| t.hash@) =~= t0.map_values(
                                |t: PoolTransaction| t.hash@,
                            ).push(tx.hash@));
                            lemma_to_set_push(t0.map_values(|t: PoolTransaction| t.hash@), tx.hash@);
                        }
                        assert(t0 + seq![tx] =~= transactions@);
                        let ghost r2 = seal_scan(p0.skip(i + 1), committed_set, self.expected_nonces@);
                        assert(rest.0 =~= seq![tx] + r2.0);
                        assert(t0 + rest.0 =~= transactions@ + r2.0);
                    } else {
                        let ghost pb0 = put_back@;
                        put_back.push(tx);
                        let ghost r2 = seal_scan(p0.skip(i + 1), committed_set, self.expected_nonces@);
                        assert(pb0 + rest.1 =~= put_back@ + r2.1);
                    }
                }
                i = i + 1;
            }
            proof {
                if !stopped {
                    assert(p0.skip(i as int).len() == 0);
                    assert(put_back@ + seq![] =~= put_back@);
                    assert(transactions@ + seq![] =~= transactions@);
                }
            }
            let ghost rest_queue = self.pending_transaction_queue@;
            let ghost nonces_end = self.expected_nonces@;
            let ghost pb = put_back@;
            while put_back.len() > 0
                invariant
                    self.max_transactions == old(self).max_transactions,
                    self.deferred_commited_transactions@ == d_start,
                    self.pending_committed_transactions@ == pc_start,
                    self.expected_nonces@ == nonces_end,
                    pb == put_back@ + self.pending_transaction_queue@.take(pb.len() - put_back@.len()),
                    self.pending_transaction_queue@ == pb.skip(put_back@.len() as int) + rest_queue,
                    put_back@.len() <= pb.len(),
                    pb =~= put_back@ + pb.skip(put_back@.len() as int),
                decreases put_back.len(),
            {
                let ghost q0 = self.pending_transaction_queue@;
                let ghost b0 = put_back@;
                let x = put_back.pop().unwrap();
                self.pending_transaction_queue.push_front(x);
                assert(pb.skip(put_back@.len() as int) =~= seq![x] + pb.skip(b0.len() as int));
                assert(self.pending_transaction_queue@ =~= pb.skip(put_back@.len() as int) + rest_queue);
                assert(pb =~= put_back@ + pb.skip(put_back@.len() as int));
                assert(pb =~= put_back@ + self.pending_transaction_queue@.take(pb.len() - put_back@.len()));
            }
            assert(pb.skip(0) =~= pb);
        }
        let mut deferred: Vec<ExternalTransaction> = Vec::new();
        std::mem::swap(&mut deferred, &mut self.deferred_commited_transactions);
        let mut kept: Vec<ExternalTransaction> = Vec::new();
        let ghost sealed_set = byte_strings(sealed_keys@).to_set();
        let ghost d0 = deferred@;
        keep_unsealed(deferred, &sealed_keys, &mut kept);
        keep_unsealed(current, &sealed_keys, &mut kept);
        proof {
            let p = |t: ExternalTransaction| !sealed_set.contains(t.tx_bytes@);
            Seq::filter_distributes_over_add(d0, current@, p);
            assert(kept@ =~= unsealed(all, sealed_set));
            if all.len() == 0 {
                assert(unsealed(all, sealed_set) =~= seq![]) by {
                    reveal(Seq::filter);
                }
            }
        }
        self.deferred_commited_transactions = kept;
        let count = distinct_hash_count(&transactions);
        self.sealed_trans = sealed0 + count as u64;
        self.committed_trans = committed0;
        transactions
    }
}

/// Pushing an element onto a sequence adds it to the sequence's set.
pub proof fn lemma_to_set_push<A>(s: Seq<A>, x: A)
    ensures
        s.push(x).to_set() == s.to_set().insert(x),
{
    assert forall|y: A| s.push(x).to_set().contains(y) <==> s.to_set().insert(x).contains(y) by {
        if s.push(x).contains(y) && y != x {
            let j = choose|j: int| 0 <= j < s.push(x).len() && s.push(x)[j] == y;
            assert(j < s.len() && s[j] == y);
        }
        if s.contains(y) {
            let j = choose|j: int| 0 <= j < s.len() && s[j] == y;
            assert(s.push(x)[j] == y);
        }
        if y == x {
            assert(s.push(x)[s.len() as int] == x);
        }
    }
    assert(s.push(x).to_set() =~= s.to_set().insert(x));
}

} // verus!

verus! {

/// What one poll of a ready-transaction miner gives and its state after it:
/// a notification marks transactions as pending; once none are known to be
/// pending nothing is mined; otherwise up to `max_transactions` of the best
/// transactions are taken, and transactions are known to be pending exactly
/// when the limit was reached.
pub open spec fn ready_poll_outcome(
    m: ReadyTransactionMiner,
    notified: bool,
    best: Seq<PoolTransaction>,
) -> (Option<Seq<PoolTransaction>>, ReadyTransactionMiner) {
    let flag = if notified {
        Some(true)
    } else {
        m.has_pending_txs
    };
    if flag == Some(false) {
        (None, ReadyTransactionMiner { has_pending_txs: flag, ..m })
    } else {
        let n = if best.len() < m.max_transactions {
            best.len() as int
        } else {
            m.max_transactions as int
        };
        let taken = best.take(n);
        (
            if taken.len() == 0 {
                None
            } else {
                Some(taken)
            },
            ReadyTransactionMiner { has_pending_txs: Some(taken.len() >= m.max_transactions), ..m },
        )
    }
}

/// A miner that listens for new ready transactions.
#[derive(Clone, Copy)]
pub struct ReadyTransactionMiner {
    /// How many transactions to mine per block.
    pub max_transactions: usize,
    /// Whether there are pending transactions, if known.
    pub has_pending_txs: Option<bool>,
}

impl ReadyTransactionMiner {
    /// Takes in whether new ready transactions were announced since the last
    /// poll and the pool's best transactions, best first.
    pub fn poll(&mut self, notified: bool, best: Vec<PoolTransaction>) -> (r: Option<Vec<PoolTransaction>>)
        ensures
            (match r {
                Some(v) => Some(v@),
                None => None,
            }, *final(self)) == ready_poll_outcome(*old(self), notified, best@),
    {
        if notified {
            self.has_pending_txs = Some(true);
        }
        if self.has_pending_txs == Some(false) {
            return None;
        }
        let mut transactions = best;
        if self.max_transactions < transactions.len() {
            transactions.truncate(self.max_transactions);
        }
        assert(transactions@ =~= best@.take(transactions@.len() as int));
        self.has_pending_txs = Some(transactions.len() >= self.max_transactions);
        if transactions.len() == 0 {
            return None;
        }
        Some(transactions)
    }
}

/// A ready-transaction miner takes the best transactions in order and never
/// more than its limit: a block is a prefix of the best transactions, as long
/// as the limit allows and the pool has; after a notification it mines
/// whenever the pool has something and the limit is not zero; and where it
/// knows nothing is pending and is not notified, it mines nothing and stays
/// as it was.
pub proof fn lemma_ready_poll_takes_best(m: ReadyTransactionMiner, notified: bool, best: Seq<PoolTransaction>)
    ensures
        ({
            let (block, m2) = ready_poll_outcome(m, notified, best);
            &&& block matches Some(b) ==> {
                &&& b == best.take(b.len() as int)
                &&& b.len() <= m.max_transactions
                &&& (b.len() == best.len() || b.len() == m.max_transactions)
                &&& 0 < b.len()
            }
            &&& (notified && best.len() > 0 && m.max_transactions > 0) ==> block is Some
            &&& (!notified && m.has_pending_txs == Some(false)) ==> block is None && m2 == m
            &&& m2.max_transactions == m.max_transactions
        }),
{
}

/// A miner that constructs a new block every interval, with all the
/// transactions that are ready then.
#[derive(Clone, Copy)]
pub struct FixedBlockTimeMiner {
    /// The interval between blocks, in milliseconds.
    pub interval_ms: u64,
}

impl FixedBlockTimeMiner {
    pub fn new(interval_ms: u64) -> (r: Self)
        ensures
            r.interval_ms == interval_ms,
    {
        FixedBlockTimeMiner { interval_ms }
    }

    /// The default block time is six seconds.
    pub fn default_block_time() -> (r: Self)
        ensures
            r.interval_ms == 6000,
    {
        FixedBlockTimeMiner { interval_ms: 6000 }
    }

    /// When the interval has elapsed, the whole pool makes the block.
    pub fn poll(&self, tick: bool, best: Vec<PoolTransaction>) -> (r: Option<Vec<PoolTransaction>>)
        ensures
            tick ==> r == Some(best),
            !tick ==> r is None,
    {
        if tick {
            Some(best)
        } else {
            None
        }
    }
}

/// Everything a miner may take in at one poll.
pub struct MiningInput {
    /// New ready transactions were announced.
    pub notified: bool,
    /// The block interval has elapsed.
    pub tick: bool,
    /// The pool's best transactions, best first.
    pub best: Vec<PoolTransaction>,
    /// Batches committed by consensus since the last poll.
    pub committed: Vec<Vec<ExternalTransaction>>,
    /// Pool lookups of the transactions announced since the last poll.
    pub announced: Vec<Option<PoolTransaction>>,
}

/// Mode of operations for the miner.
pub enum ScalarMiningMode {
    /// A miner that does nothing.
    Idle,
    /// A miner that listens for new transactions that are ready.
    Auto(ReadyTransactionMiner),
    /// A miner that seals transactions committed by Narwhal consensus.
    Narwhal(NarwhalTransactionMiner),
    /// A miner that constructs a new block every interval.
    FixedBlockTime(FixedBlockTimeMiner),
}

impl ScalarMiningMode {
    /// A miner that mines as soon as transactions are ready, at most
    /// `max_transactions` per block.
    pub fn instant(max_transactions: usize) -> (r: Self)
        ensures
            r == ScalarMiningMode::Auto(
                ReadyTransactionMiner { max_transactions, has_pending_txs: None },
            ),
    {
        ScalarMiningMode::Auto(ReadyTransactionMiner { max_transactions, has_pending_txs: None })
    }

    /// A miner that seals what Narwhal consensus commits.
    pub fn narwhal() -> (r: Self)
        ensures
            r matches ScalarMiningMode::Narwhal(m) && m@ == (MinerState {
                max_transactions: usize::MAX,
                deferred: seq![],
                batches: seq![],
                pending: seq![],
                nonces: Map::empty(),
            }) && m.committed_trans == 0 && m.sealed_trans == 0,
    {
        let m = NarwhalTransactionMiner::new();
        assert(m@.deferred =~= seq![]);
        assert(m@.batches =~= seq![]);
        assert(m@.pending =~= seq![]);
        ScalarMiningMode::Narwhal(m)
    }

    /// A miner that builds a block every `interval_ms` milliseconds.
    pub fn interval(interval_ms: u64) -> (r: Self)
        ensures
            r == ScalarMiningMode::FixedBlockTime(FixedBlockTimeMiner { interval_ms }),
    {
        ScalarMiningMode::FixedBlockTime(FixedBlockTimeMiner::new(interval_ms))
    }

    /// The transactions that should be put in a block, if any.
    pub fn poll(&mut self, input: MiningInput) -> (r: Option<Vec<PoolTransaction>>)
        requires
            *old(self) matches ScalarMiningMode::Narwhal(m) ==> m.committed_trans + batch_total(
                input.committed@,
            ) <= u64::MAX && (poll_outcome(m@, input.committed@, input.announced@).0 matches Some(b)
                ==> nonces_bounded(b) && m.sealed_trans + view_hash_set(tx_views(b)).len() <= u64::MAX),
        ensures
            match *old(self) {
                ScalarMiningMode::Idle => r is None && *final(self) is Idle,
                ScalarMiningMode::Auto(m) => *final(self) matches ScalarMiningMode::Auto(m2) && (
                match r {
                    Some(v) => Some(v@),
                    None => None,
                },
                m2,
                ) == ready_poll_outcome(m, input.notified, input.best@),
                ScalarMiningMode::Narwhal(m) => *final(self) matches ScalarMiningMode::Narwhal(m2) && (
                match r {
                    Some(v) => Some(v@),
                    None => None,
                },
                m2@,
                ) == poll_outcome(m@, input.committed@, input.announced@) && m2.committed_trans
                    == m.committed_trans + batch_total(input.committed@) && m2.sealed_trans == m.sealed_trans
                    + match r {
                    Some(v) => view_hash_set(tx_views(v@)).len(),
                    None => 0,
                },
                ScalarMiningMode::FixedBlockTime(m) => *final(self) == ScalarMiningMode::FixedBlockTime(m)
                    && (input.tick ==> r == Some(input.best)) && (!input.tick ==> r is None),
            },
    {
        let MiningInput { notified, tick, best, committed, announced } = input;
        match self {
            ScalarMiningMode::Idle => None,
            ScalarMiningMode::Auto(miner) => miner.poll(notified, best),
            ScalarMiningMode::Narwhal(miner) => miner.poll(committed, announced),
            ScalarMiningMode::FixedBlockTime(miner) => miner.poll(tick, best),
        }
    }
}

} // verus!
