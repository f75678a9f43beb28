//! What the adapter's block building keeps: it seals only pool transactions
//! that consensus committed, it neither loses nor duplicates a committed
//! transaction, and it seals each sender's transactions in nonce order from
//! the nonce expected of it.

use vstd::prelude::*;
use super::mode::{
    adapter_next_block, adapter_poll_outcome, first_batch, nonempty_batches, select_pass, select_rounds,
    AdapterMinerState,
};
use crate::consensus::pool::{expected_nonce, pool_lookup, ExternalTransaction, TxView};

verus! {

/// The hashes that a list of committed transactions names, in order.
pub open spec fn committed_hashes(txs: Seq<ExternalTransaction>) -> Seq<Seq<u8>> {
    txs.map_values(|t: ExternalTransaction| t.tx_bytes@)
}

/// The hashes of a list of transactions, in order.
pub open spec fn view_hashes(txs: Seq<TxView>) -> Seq<Seq<u8>> {
    txs.map_values(|t: TxView| t.hash)
}

/// The nonces of all the transactions are below `u64::MAX`.
pub open spec fn pool_nonces_bounded(pool: Seq<TxView>) -> bool {
    forall|i: int| 0 <= i < pool.len() ==> #[trigger] pool[i].nonce < u64::MAX
}

/// Whether a transaction was sent by `sender`.
pub open spec fn view_sent_by(sender: Seq<u8>) -> spec_fn(TxView) -> bool {
    |t: TxView| t.sender == sender
}

/// A transaction found by hash is in the pool and has that hash, and a
/// lookup finds nothing only where no transaction of the pool has the hash.
pub proof fn lemma_lookup_found(pool: Seq<TxView>, hash: Seq<u8>)
    ensures
        pool_lookup(pool, hash) is Some ==> pool.contains(pool_lookup(pool, hash)->0)
            && pool_lookup(pool, hash)->0.hash == hash,
        pool_lookup(pool, hash) is None <==> forall|i: int| 0 <= i < pool.len() ==> #[trigger] pool[i].hash != hash,
    decreases pool.len(),
{
    if pool.len() > 0 {
        lemma_lookup_found(pool.skip(1), hash);
        assert forall|i: int| 1 <= i < pool.len() implies pool[i] == pool.skip(1)[i - 1] by {}
        if forall|i: int| 0 <= i < pool.len() ==> #[trigger] pool[i].hash != hash {
            assert forall|i: int| 0 <= i < pool.skip(1).len() implies #[trigger] pool.skip(1)[i].hash != hash by {
                assert(pool.skip(1)[i] == pool[i + 1]);
            }
        }
        if pool[0].hash == hash {
            assert(pool[0] == pool_lookup(pool, hash)->0);
        } else {
            lemma_lookup_found(pool.skip(1), hash);
            if pool_lookup(pool, hash) is Some {
                let i = choose|i: int|
                    0 <= i < pool.skip(1).len() && pool.skip(1)[i] == pool_lookup(pool.skip(1), hash)->0;
                assert(pool[i + 1] == pool.skip(1)[i]);
            }
        }
    }
}

/// Every transaction a pass selects is in the pool, and its hash is that of
/// a committed transaction.
pub proof fn lemma_pass_selects_committed_pool_transactions(
    deferred: Seq<ExternalTransaction>,
    pool: Seq<TxView>,
    nonces: Map<Seq<u8>, u64>,
)
    ensures
        forall|i: int|
            0 <= i < select_pass(deferred, pool, nonces).0.len() ==> pool.contains(
                #[trigger] select_pass(deferred, pool, nonces).0[i],
            ) && committed_hashes(deferred).contains(select_pass(deferred, pool, nonces).0[i].hash),
    decreases deferred.len(),
{
    if deferred.len() > 0 {
        let c = deferred[0];
        let found = pool_lookup(pool, c.tx_bytes@);
        lemma_lookup_found(pool, c.tx_bytes@);
        let taken = found is Some && found->0.nonce == expected_nonce(nonces, found->0.sender);
        let n2 = if taken {
            nonces.insert(found->0.sender, (found->0.nonce + 1) as u64)
        } else {
            nonces
        };
        lemma_pass_selects_committed_pool_transactions(deferred.skip(1), pool, n2);
        let r = select_pass(deferred, pool, nonces);
        let r2 = select_pass(deferred.skip(1), pool, n2);
        assert forall|i: int| 0 <= i < r.0.len() implies pool.contains(#[trigger] r.0[i])
            && committed_hashes(deferred).contains(r.0[i].hash) by {
            if taken && i == 0 {
                assert(committed_hashes(deferred)[0] == c.tx_bytes@);
            } else {
                let k = if taken {
                    i - 1
                } else {
                    i
                };
                assert(r.0[i] == r2.0[k]);
                let j = choose|j: int|
                    0 <= j < committed_hashes(deferred.skip(1)).len() && committed_hashes(
                        deferred.skip(1),
                    )[j] == r2.0[k].hash;
                assert(committed_hashes(deferred)[j + 1] == committed_hashes(deferred.skip(1))[j]);
            }
        }
    }
}

/// Every transaction that block building selects is in the pool, and its
/// hash is that of a committed transaction.
pub proof fn lemma_rounds_select_committed_pool_transactions(
    deferred: Seq<ExternalTransaction>,
    pool: Seq<TxView>,
    nonces: Map<Seq<u8>, u64>,
)
    ensures
        forall|i: int|
            0 <= i < select_rounds(deferred, pool, nonces).0.len() ==> pool.contains(
                #[trigger] select_rounds(deferred, pool, nonces).0[i],
            ) && committed_hashes(deferred).contains(select_rounds(deferred, pool, nonces).0[i].hash),
    decreases deferred.len(),
{
    broadcast use vstd::seq_lib::group_to_multiset_ensures;

    let r = select_pass(deferred, pool, nonces);
    lemma_pass_selects_committed_pool_transactions(deferred, pool, nonces);
    if r.0.len() > 0 {
        super::mode::lemma_select_pass_len(deferred, pool, nonces);
        lemma_rounds_select_committed_pool_transactions(r.1, pool, r.2);
        lemma_pass_keeps_every_hash(deferred, pool, nonces);
        let rr = select_rounds(deferred, pool, nonces);
        let r2 = select_rounds(r.1, pool, r.2);
        assert forall|i: int| 0 <= i < rr.0.len() implies pool.contains(#[trigger] rr.0[i])
            && committed_hashes(deferred).contains(rr.0[i].hash) by {
            if i >= r.0.len() {
                let k = i - r.0.len();
                assert(rr.0[i] == r2.0[k]);
                let h = r2.0[k].hash;
                assert(committed_hashes(r.1).contains(h));
                let whole = view_hashes(r.0) + committed_hashes(r.1);
                let j = choose|j: int| 0 <= j < committed_hashes(r.1).len() && committed_hashes(r.1)[j] == h;
                assert(whole[r.0.len() + j] == h);
                assert(whole.contains(h));
                assert(whole.to_multiset().count(h) > 0);
                assert(committed_hashes(deferred).to_multiset().count(h) > 0);
                assert(committed_hashes(deferred).contains(h));
            } else {
                assert(rr.0[i] == r.0[i]);
            }
        }
    }
}

/// A pass neither loses nor duplicates a committed transaction: the hashes
/// selected and those kept are, together, the hashes of the deferred list.
pub proof fn lemma_pass_keeps_every_hash(
    deferred: Seq<ExternalTransaction>,
    pool: Seq<TxView>,
    nonces: Map<Seq<u8>, u64>,
)
    ensures
        ({
            let r = select_pass(deferred, pool, nonces);
            (view_hashes(r.0) + committed_hashes(r.1)).to_multiset() == committed_hashes(
                deferred,
            ).to_multiset()
        }),
    decreases deferred.len(),
{
    broadcast use vstd::seq_lib::lemma_multiset_commutative;

    let r = select_pass(deferred, pool, nonces);
    if deferred.len() == 0 {
        assert(view_hashes(r.0) + committed_hashes(r.1) =~= committed_hashes(deferred));
    } else {
        let c = deferred[0];
        let found = pool_lookup(pool, c.tx_bytes@);
        lemma_lookup_found(pool, c.tx_bytes@);
        let taken = found is Some && found->0.nonce == expected_nonce(nonces, found->0.sender);
        let n2 = if taken {
            nonces.insert(found->0.sender, (found->0.nonce + 1) as u64)
        } else {
            nonces
        };
        lemma_pass_keeps_every_hash(deferred.skip(1), pool, n2);
        let r2 = select_pass(deferred.skip(1), pool, n2);
        let x = seq![c.tx_bytes@];
        assert(committed_hashes(deferred) =~= x + committed_hashes(deferred.skip(1)));
        if taken {
            assert(view_hashes(r.0) + committed_hashes(r.1) =~= x + (view_hashes(r2.0) + committed_hashes(
                r2.1,
            )));
        } else {
            assert(view_hashes(r.0) + committed_hashes(r.1) =~= view_hashes(r2.0) + (x + committed_hashes(
                r2.1,
            )));
            assert((view_hashes(r2.0) + (x + committed_hashes(r2.1))).to_multiset() =~= x.to_multiset().add(
                (view_hashes(r2.0) + committed_hashes(r2.1)).to_multiset(),
            ));
        }
    }
}

/// Block building neither loses nor duplicates a committed transaction: the
/// hashes sealed and those still deferred are, together, the hashes of the
/// committed transactions it started from.
pub proof fn lemma_rounds_keep_every_hash(
    deferred: Seq<ExternalTransaction>,
    pool: Seq<TxView>,
    nonces: Map<Seq<u8>, u64>,
)
    ensures
        ({
            let r = select_rounds(deferred, pool, nonces);
            (view_hashes(r.0) + committed_hashes(r.1)).to_multiset() == committed_hashes(
                deferred,
            ).to_multiset()
        }),
    decreases deferred.len(),
{
    broadcast use vstd::seq_lib::lemma_multiset_commutative;

    let r = select_pass(deferred, pool, nonces);
    lemma_pass_keeps_every_hash(deferred, pool, nonces);
    if r.0.len() == 0 {
        assert(view_hashes(seq![]) + committed_hashes(r.1) =~= view_hashes(r.0) + committed_hashes(r.1));
    } else {
        super::mode::lemma_select_pass_len(deferred, pool, nonces);
        lemma_rounds_keep_every_hash(r.1, pool, r.2);
        let r2 = select_rounds(r.1, pool, r.2);
        let rr = select_rounds(deferred, pool, nonces);
        assert(view_hashes(rr.0) + committed_hashes(rr.1) =~= view_hashes(r.0) + (view_hashes(r2.0)
            + committed_hashes(r2.1)));
    }
}

/// The transactions a pass selects from one sender carry consecutive nonces
/// from the nonce expected of it, and afterwards the sender is expected at
/// the nonce after the last of them.
pub proof fn lemma_pass_sender_nonces_consecutive(
    deferred: Seq<ExternalTransaction>,
    pool: Seq<TxView>,
    nonces: Map<Seq<u8>, u64>,
    sender: Seq<u8>,
)
    requires
        pool_nonces_bounded(select_pass(deferred, pool, nonces).0),
    ensures
        ({
            let r = select_pass(deferred, pool, nonces);
            let s = r.0.filter(view_sent_by(sender));
            &&& forall|i: int|
                0 <= i < s.len() ==> #[trigger] s[i].nonce == expected_nonce(nonces, sender) + i
            &&& expected_nonce(r.2, sender) == expected_nonce(nonces, sender) + s.len()
        }),
    decreases deferred.len(),
{
    let p = view_sent_by(sender);
    let r = select_pass(deferred, pool, nonces);
    if deferred.len() == 0 {
        assert(r.0.filter(p) =~= seq![]) by {
            reveal(Seq::filter);
        }
    } else {
        let c = deferred[0];
        let found = pool_lookup(pool, c.tx_bytes@);
        lemma_lookup_found(pool, c.tx_bytes@);
        if found is Some && found->0.nonce == expected_nonce(nonces, found->0.sender) {
            let tx = found->0;
            let n2 = nonces.insert(tx.sender, (tx.nonce + 1) as u64);
            let r2 = select_pass(deferred.skip(1), pool, n2);
            assert(r.0 == seq![tx] + r2.0);
            assert(r.0[0] == tx);
            assert(tx.nonce < u64::MAX);
            assert forall|i: int| 0 <= i < r2.0.len() implies #[trigger] r2.0[i].nonce < u64::MAX by {
                assert(r.0[i + 1] == r2.0[i]);
            }
            lemma_pass_sender_nonces_consecutive(deferred.skip(1), pool, n2, sender);
            r2.0.lemma_filter_prepend(tx, p);
            if tx.sender == sender {
                let s = r.0.filter(p);
                let s2 = r2.0.filter(p);
                assert(s == seq![tx] + s2);
                assert forall|i: int| 0 <= i < s.len() implies #[trigger] s[i].nonce == expected_nonce(nonces, sender) + i by {
                    if i > 0 {
                        assert(s[i] == s2[i - 1]);
                    }
                }
            } else {
                assert(expected_nonce(n2, sender) == expected_nonce(nonces, sender));
            }
        } else {
            assert(r.0 == select_pass(deferred.skip(1), pool, nonces).0);
            lemma_pass_sender_nonces_consecutive(deferred.skip(1), pool, nonces, sender);
        }
    }
}

/// The transactions that block building seals from one sender carry
/// consecutive nonces from the nonce expected of it, and afterwards the
/// sender is expected at the nonce after the last of them.
pub proof fn lemma_rounds_sender_nonces_consecutive(
    deferred: Seq<ExternalTransaction>,
    pool: Seq<TxView>,
    nonces: Map<Seq<u8>, u64>,
    sender: Seq<u8>,
)
    requires
        pool_nonces_bounded(select_rounds(deferred, pool, nonces).0),
    ensures
        ({
            let r = select_rounds(deferred, pool, nonces);
            let s = r.0.filter(view_sent_by(sender));
            &&& forall|i: int|
                0 <= i < s.len() ==> #[trigger] s[i].nonce == expected_nonce(nonces, sender) + i
            &&& expected_nonce(r.2, sender) == expected_nonce(nonces, sender) + s.len()
        }),
    decreases deferred.len(),
{
    let p = view_sent_by(sender);
    let r = select_pass(deferred, pool, nonces);
    let rr = select_rounds(deferred, pool, nonces);
    if r.0.len() > 0 {
        super::mode::lemma_select_pass_len(deferred, pool, nonces);
        let r2 = select_rounds(r.1, pool, r.2);
        assert(rr.0 == r.0 + r2.0);
        assert forall|i: int| 0 <= i < r.0.len() implies #[trigger] r.0[i].nonce < u64::MAX by {
            assert(rr.0[i] == r.0[i]);
        }
        assert forall|i: int| 0 <= i < r2.0.len() implies #[trigger] r2.0[i].nonce < u64::MAX by {
            assert(rr.0[r.0.len() + i] == r2.0[i]);
        }
    }
    lemma_pass_sender_nonces_consecutive(deferred, pool, nonces, sender);
    if r.0.len() == 0 {
        assert(seq![].filter(p) =~= Seq::<TxView>::empty()) by {
            reveal(Seq::filter);
        }
        assert(r.0.filter(p) =~= Seq::<TxView>::empty()) by {
            reveal(Seq::filter);
        }
    } else {
        super::mode::lemma_select_pass_len(deferred, pool, nonces);
        lemma_rounds_sender_nonces_consecutive(r.1, pool, r.2, sender);
        let r2 = select_rounds(r.1, pool, r.2);
        let rr = select_rounds(deferred, pool, nonces);
        Seq::filter_distributes_over_add(r.0, r2.0, p);
        let s1 = r.0.filter(p);
        let s2 = r2.0.filter(p);
        let s = rr.0.filter(p);
        assert(s == s1 + s2);
        assert forall|i: int| 0 <= i < s.len() implies #[trigger] s[i].nonce == expected_nonce(nonces, sender) + i by {
            if i >= s1.len() {
                assert(s[i] == s2[i - s1.len()]);
            } else {
                assert(s[i] == s1[i]);
            }
        }
    }
}

/// The passes go on until one selects nothing: after them, a further pass
/// over what is still deferred selects nothing, and every pass before made
/// progress, so the deferred list never grows.
pub proof fn lemma_rounds_end_at_fixpoint(deferred: Seq<ExternalTransaction>, pool: Seq<TxView>, nonces: Map<Seq<u8>, u64>)
    ensures
        ({
            let r = select_rounds(deferred, pool, nonces);
            &&& select_pass(r.1, pool, r.2).0.len() == 0
            &&& r.1.len() + r.0.len() == deferred.len()
        }),
    decreases deferred.len(),
{
    let p = select_pass(deferred, pool, nonces);
    super::mode::lemma_select_pass_len(deferred, pool, nonces);
    if p.0.len() > 0 {
        lemma_rounds_end_at_fixpoint(p.1, pool, p.2);
    } else {
        lemma_empty_pass_keeps_all(deferred, pool, nonces);
    }
}

/// A pass that selects nothing keeps every deferred transaction and the
/// expected nonces as they were.
proof fn lemma_empty_pass_keeps_all(deferred: Seq<ExternalTransaction>, pool: Seq<TxView>, nonces: Map<Seq<u8>, u64>)
    requires
        select_pass(deferred, pool, nonces).0.len() == 0,
    ensures
        select_pass(deferred, pool, nonces).1 == deferred,
        select_pass(deferred, pool, nonces).2 == nonces,
    decreases deferred.len(),
{
    if deferred.len() > 0 {
        lemma_empty_pass_keeps_all(deferred.skip(1), pool, nonces);
        assert(seq![deferred[0]] + deferred.skip(1) =~= deferred);
    }
}

/// Committed batches are used first in, first out: where a batch is
/// waiting, the next block is what the passes select from the deferred
/// transactions followed by the oldest batch, that batch leaves the queue of
/// batches while every later one stays in order, and what the passes leave
/// is deferred.
pub proof fn lemma_adapter_oldest_batch_first(s: AdapterMinerState, pool: Seq<TxView>)
    requires
        s.batches.len() > 0,
    ensures
        ({
            let r = select_rounds(s.deferred + s.batches[0]@, pool, s.nonces);
            let (block, s2) = adapter_next_block(s, pool);
            &&& block == r.0
            &&& s2.deferred == r.1
            &&& s2.nonces == r.2
            &&& s2.batches == s.batches.skip(1)
        }),
{
    assert(first_batch(s.batches) == s.batches[0]@);
}

/// One poll queues the newly committed batches behind those already waiting
/// and then uses the oldest waiting batch: the block handed out is selected
/// from the deferred transactions and that batch only, and every later batch
/// is still waiting afterwards, in order.
pub proof fn lemma_adapter_poll_uses_oldest_batch(
    s: AdapterMinerState,
    committed: Seq<Vec<ExternalTransaction>>,
    pool: Seq<TxView>,
)
    requires
        (s.batches + nonempty_batches(committed)).len() > 0,
    ensures
        ({
            let waiting = s.batches + nonempty_batches(committed);
            let r = select_rounds(s.deferred + waiting[0]@, pool, s.nonces);
            let (block, s2) = adapter_poll_outcome(s, committed, pool);
            &&& s2.batches == waiting.skip(1)
            &&& s2.deferred == r.1
            &&& block == (if r.0.len() == 0 {
                None
            } else {
                Some(r.0)
            })
        }),
{
    let s1 = AdapterMinerState { batches: s.batches + nonempty_batches(committed), ..s };
    lemma_adapter_oldest_batch_first(s1, pool);
}

} // verus!
