//! What block building keeps: only committed transactions are sealed, no
//! pending transaction is lost or duplicated, and each sender's transactions
//! are sealed in nonce order from the nonce expected of it.

use vstd::prelude::*;
use super::mode::{
    committed_keys, current_batch, found_transactions, hash_keys, next_block, nonempty_batches, poll_outcome,
    seal_scan, unsealed, MinerState,
};
use super::pool::{expected_nonce, nonces_bounded, ExternalTransaction, PoolTransaction};

verus! {

/// Whether a transaction was sent by `sender`.
pub open spec fn sent_by(sender: Seq<u8>) -> spec_fn(PoolTransaction) -> bool {
    |t: PoolTransaction| t.sender@ == sender
}

/// The transactions of `txs` sent by `sender`, in order.
pub open spec fn from_sender(txs: Seq<PoolTransaction>, sender: Seq<u8>) -> Seq<PoolTransaction> {
    txs.filter(sent_by(sender))
}

/// Every transaction that a scan seals has a committed hash.
pub proof fn lemma_sealed_were_committed(
    pending: Seq<PoolTransaction>,
    committed: Set<Seq<u8>>,
    nonces: Map<Seq<u8>, u64>,
)
    ensures
        forall|i: int|
            0 <= i < seal_scan(pending, committed, nonces).0.len() ==> committed.contains(
                #[trigger] seal_scan(pending, committed, nonces).0[i].hash@,
            ),
    decreases pending.len(),
{
    if pending.len() > 0 {
        let tx = pending[0];
        if committed.contains(tx.hash@) {
            let n2 = if tx.nonce == expected_nonce(nonces, tx.sender@) {
                nonces.insert(tx.sender@, (tx.nonce + 1) as u64)
            } else {
                nonces
            };
            lemma_sealed_were_committed(pending.skip(1), committed, n2);
            let r = seal_scan(pending, committed, nonces);
            let r2 = seal_scan(pending.skip(1), committed, n2);
            assert forall|i: int| 0 <= i < r.0.len() implies committed.contains(#[trigger] r.0[i].hash@) by {
                if tx.nonce == expected_nonce(nonces, tx.sender@) && i > 0 {
                    assert(r.0[i] == r2.0[i - 1]);
                }
            }
        }
    }
}

/// A scan loses and duplicates no pending transaction: the sealed ones, the
/// ones put back and the rest are, together, the pending ones.
pub proof fn lemma_scan_keeps_every_transaction(
    pending: Seq<PoolTransaction>,
    committed: Set<Seq<u8>>,
    nonces: Map<Seq<u8>, u64>,
)
    ensures
        ({
            let r = seal_scan(pending, committed, nonces);
            (r.0 + r.1 + r.2).to_multiset() == pending.to_multiset()
        }),
    decreases pending.len(),
{
    broadcast use vstd::seq_lib::lemma_multiset_commutative;

    let r = seal_scan(pending, committed, nonces);
    if pending.len() == 0 {
        assert(r.0 + r.1 + r.2 =~= pending);
    } else {
        let tx = pending[0];
        assert(pending =~= seq![tx] + pending.skip(1));
        if !committed.contains(tx.hash@) {
            assert(r.0 + r.1 + r.2 =~= pending);
        } else {
            let n2 = if tx.nonce == expected_nonce(nonces, tx.sender@) {
                nonces.insert(tx.sender@, (tx.nonce + 1) as u64)
            } else {
                nonces
            };
            lemma_scan_keeps_every_transaction(pending.skip(1), committed, n2);
            let r2 = seal_scan(pending.skip(1), committed, n2);
            let x = seq![tx];
            if tx.nonce == expected_nonce(nonces, tx.sender@) {
                assert(r.0 + r.1 + r.2 =~= x + (r2.0 + r2.1 + r2.2));
            } else {
                assert(r.0 + r.1 + r.2 =~= r2.0 + x + r2.1 + r2.2);
                assert((r2.0 + x + r2.1 + r2.2).to_multiset() =~= x.to_multiset().add(
                    (r2.0 + r2.1 + r2.2).to_multiset(),
                )) by {
                    assert(r2.0 + x + r2.1 + r2.2 =~= r2.0 + (x + (r2.1 + r2.2)));
                    assert(r2.0 + r2.1 + r2.2 =~= r2.0 + (r2.1 + r2.2));
                }
            }
        }
    }
}

/// A scan stops at the first pending transaction whose hash is not
/// committed: that transaction is the last one put back, everything after it
/// is left untouched, and only the transactions before it are sealed or put
/// back. Where every pending transaction is committed, the scan goes through
/// the whole queue.
pub proof fn lemma_scan_stops_at_first_uncommitted(
    pending: Seq<PoolTransaction>,
    committed: Set<Seq<u8>>,
    nonces: Map<Seq<u8>, u64>,
    m: int,
)
    requires
        0 <= m <= pending.len(),
        forall|j: int| 0 <= j < m ==> committed.contains(#[trigger] pending[j].hash@),
        m < pending.len() ==> !committed.contains(pending[m].hash@),
    ensures
        ({
            let r = seal_scan(pending, committed, nonces);
            &&& m < pending.len() ==> {
                &&& r.2 == pending.skip(m + 1)
                &&& r.0.len() + r.1.len() == m + 1
                &&& r.1.len() > 0 && r.1.last() == pending[m]
            }
            &&& m == pending.len() ==> r.2.len() == 0 && r.0.len() + r.1.len() == pending.len()
        }),
    decreases m,
{
    if pending.len() > 0 && m > 0 {
        let tx = pending[0];
        let n2 = if tx.nonce == expected_nonce(nonces, tx.sender@) {
            nonces.insert(tx.sender@, (tx.nonce + 1) as u64)
        } else {
            nonces
        };
        let rest = pending.skip(1);
        assert forall|j: int| 0 <= j < m - 1 implies committed.contains(#[trigger] rest[j].hash@) by {
            assert(rest[j] == pending[j + 1]);
        }
        if m < pending.len() {
            assert(rest[m - 1] == pending[m]);
        }
        lemma_scan_stops_at_first_uncommitted(rest, committed, n2, m - 1);
        let r2 = seal_scan(rest, committed, n2);
        if m < pending.len() {
            assert(rest.skip(m) =~= pending.skip(m + 1));
            assert((seq![tx] + r2.1).last() == r2.1.last());
        }
    } else if pending.len() > 0 {
        assert(m == 0);
    }
}

/// The transactions that a scan seals from one sender carry consecutive
/// nonces, starting from the nonce expected of that sender, and afterwards
/// the sender is expected at the nonce after the last of them.
pub proof fn lemma_sender_nonces_consecutive(
    pending: Seq<PoolTransaction>,
    committed: Set<Seq<u8>>,
    nonces: Map<Seq<u8>, u64>,
    sender: Seq<u8>,
)
    requires
        nonces_bounded(seal_scan(pending, committed, nonces).0),
    ensures
        ({
            let r = seal_scan(pending, committed, nonces);
            let s = from_sender(r.0, sender);
            &&& forall|i: int|
                0 <= i < s.len() ==> #[trigger] s[i].nonce == expected_nonce(nonces, sender) + i
            &&& expected_nonce(r.3, sender) == expected_nonce(nonces, sender) + s.len()
        }),
    decreases pending.len(),
{
    let p = sent_by(sender);
    let r = seal_scan(pending, committed, nonces);
    if pending.len() == 0 {
        assert(from_sender(r.0, sender) =~= seq![]) by {
            reveal(Seq::filter);
        }
    } else {
        let tx = pending[0];
        if !committed.contains(tx.hash@) {
            assert(from_sender(r.0, sender) =~= seq![]) by {
                reveal(Seq::filter);
            }
        } else if tx.nonce == expected_nonce(nonces, tx.sender@) {
            let n2 = nonces.insert(tx.sender@, (tx.nonce + 1) as u64);
            let r2 = seal_scan(pending.skip(1), committed, n2);
            assert(r.0 == seq![tx] + r2.0);
            assert(r.0[0] == tx);
            assert(tx.nonce < u64::MAX);
            assert forall|i: int| 0 <= i < r2.0.len() implies #[trigger] r2.0[i].nonce < u64::MAX by {
                assert(r.0[i + 1] == r2.0[i]);
            }
            lemma_sender_nonces_consecutive(pending.skip(1), committed, n2, sender);
            r2.0.lemma_filter_prepend(tx, p);
            if tx.sender@ == sender {
                assert(expected_nonce(n2, sender) == expected_nonce(nonces, sender) + 1);
                let s = from_sender(r.0, sender);
                let s2 = from_sender(r2.0, sender);
                assert(s == seq![tx] + s2);
                assert forall|i: int| 0 <= i < s.len() implies #[trigger] s[i].nonce == expected_nonce(nonces, sender) + i by {
                    if i > 0 {
                        assert(s[i] == s2[i - 1]);
                    }
                }
            } else {
                assert(expected_nonce(n2, sender) == expected_nonce(nonces, sender));
            }
        } else {
            assert(r.0 == seal_scan(pending.skip(1), committed, nonces).0);
            lemma_sender_nonces_consecutive(pending.skip(1), committed, nonces, sender);
        }
    }
}

/// Whether `c` interleaves `a` and `b`: every element of `c` comes from one
/// of them, and each of `a` and `b` appears in `c` whole and in its order.
pub open spec fn interleaves<A>(a: Seq<A>, b: Seq<A>, c: Seq<A>) -> bool
    decreases c.len(),
{
    if c.len() == 0 {
        a.len() == 0 && b.len() == 0
    } else {
        ||| (a.len() > 0 && a[0] == c[0] && interleaves(a.skip(1), b, c.skip(1)))
        ||| (b.len() > 0 && b[0] == c[0] && interleaves(a, b.skip(1), c.skip(1)))
    }
}

proof fn lemma_interleaves_right<A>(b: Seq<A>)
    ensures
        interleaves(Seq::<A>::empty(), b, b),
    decreases b.len(),
{
    if b.len() > 0 {
        lemma_interleaves_right(b.skip(1));
    }
}

/// A scan takes the sealed transactions out of the pending queue in their
/// order, and leaves the others in theirs: the queue interleaves the sealed
/// transactions with those put back followed by those not reached.
pub proof fn lemma_scan_keeps_queue_order(
    pending: Seq<PoolTransaction>,
    committed: Set<Seq<u8>>,
    nonces: Map<Seq<u8>, u64>,
)
    ensures
        ({
            let r = seal_scan(pending, committed, nonces);
            interleaves(r.0, r.1 + r.2, pending)
        }),
    decreases pending.len(),
{
    let r = seal_scan(pending, committed, nonces);
    if pending.len() == 0 {
        assert(r.1 + r.2 =~= Seq::<PoolTransaction>::empty());
    } else {
        let tx = pending[0];
        if !committed.contains(tx.hash@) {
            assert(r.1 + r.2 =~= pending);
            lemma_interleaves_right(pending);
        } else {
            let n2 = if tx.nonce == expected_nonce(nonces, tx.sender@) {
                nonces.insert(tx.sender@, (tx.nonce + 1) as u64)
            } else {
                nonces
            };
            lemma_scan_keeps_queue_order(pending.skip(1), committed, n2);
            let r2 = seal_scan(pending.skip(1), committed, n2);
            if tx.nonce == expected_nonce(nonces, tx.sender@) {
                assert(r.0 == seq![tx] + r2.0);
                assert(r.0[0] == tx);
                assert(r.0.skip(1) =~= r2.0);
                assert(r.1 + r.2 == r2.1 + r2.2);
            } else {
                assert(r.1 == seq![tx] + r2.1);
                assert((r.1 + r.2)[0] == tx);
                assert((r.1 + r.2).skip(1) =~= r2.1 + r2.2);
                assert(r.0 == r2.0);
            }
        }
    }
}

/// What building a block (`next_block`, which `process_next_block` follows)
/// keeps, where something is committed: the block is taken out of the
/// pending queue in order and the rest of the queue keeps its order; every
/// transaction of the block is committed; each sender's transactions in the
/// block carry consecutive nonces from the one expected of it, which then
/// advances past them; and the committed transactions not sealed stay
/// deferred, in order.
pub proof fn lemma_next_block_laws(s: MinerState, sender: Seq<u8>)
    requires
        (s.deferred + current_batch(s.batches)).len() > 0,
        nonces_bounded(next_block(s).0),
    ensures
        ({
            let (block, s2) = next_block(s);
            let all = s.deferred + current_batch(s.batches);
            &&& interleaves(block, s2.pending, s.pending)
            &&& forall|i: int| 0 <= i < block.len() ==> committed_keys(all).contains(#[trigger] block[i].hash@)
            &&& forall|i: int|
                0 <= i < from_sender(block, sender).len() ==> #[trigger] from_sender(block, sender)[i].nonce
                    == expected_nonce(s.nonces, sender) + i
            &&& expected_nonce(s2.nonces, sender) == expected_nonce(s.nonces, sender) + from_sender(block, sender).len()
            &&& s2.deferred == unsealed(all, hash_keys(block))
        }),
{
    let all = s.deferred + current_batch(s.batches);
    lemma_scan_keeps_queue_order(s.pending, committed_keys(all), s.nonces);
    lemma_sealed_were_committed(s.pending, committed_keys(all), s.nonces);
    lemma_sender_nonces_consecutive(s.pending, committed_keys(all), s.nonces, sender);
}

/// Committed batches are used first in, first out: where a batch is
/// waiting, the next block is the scan of the pending queue against the
/// deferred transactions and the oldest batch, that batch leaves the queue of
/// batches while every later one stays in order, and what it leaves
/// unsealed, together with what was deferred, is deferred again.
pub proof fn lemma_oldest_batch_first(s: MinerState)
    requires
        s.batches.len() > 0,
    ensures
        ({
            let all = s.deferred + s.batches[0]@;
            let (block, s2) = next_block(s);
            &&& block == seal_scan(s.pending, committed_keys(all), s.nonces).0
            &&& forall|i: int| 0 <= i < block.len() ==> committed_keys(all).contains(#[trigger] block[i].hash@)
            &&& s2.batches == s.batches.skip(1)
            &&& s2.deferred == unsealed(all, hash_keys(block))
        }),
{
    let all = s.deferred + s.batches[0]@;
    assert(current_batch(s.batches) == s.batches[0]@);
    if all.len() > 0 {
        lemma_sealed_were_committed(s.pending, committed_keys(all), s.nonces);
    }
}

/// One poll queues the newly committed batches behind those already waiting
/// and then uses the oldest waiting batch: the block handed out is built
/// against the deferred transactions and that batch only, and every later
/// batch is still waiting afterwards, in order.
pub proof fn lemma_poll_uses_oldest_batch(
    s: MinerState,
    committed: Seq<Vec<ExternalTransaction>>,
    announced: Seq<Option<PoolTransaction>>,
)
    requires
        (s.batches + nonempty_batches(committed)).len() > 0,
    ensures
        ({
            let waiting = s.batches + nonempty_batches(committed);
            let all = s.deferred + waiting[0]@;
            let queue = s.pending + found_transactions(announced);
            let scan = seal_scan(queue, committed_keys(all), s.nonces).0;
            let (block, s2) = poll_outcome(s, committed, announced);
            &&& s2.batches == waiting.skip(1)
            &&& block == (if scan.len() == 0 {
                None
            } else {
                Some(scan)
            })
            &&& block matches Some(b) ==> forall|i: int|
                0 <= i < b.len() ==> committed_keys(all).contains(#[trigger] b[i].hash@)
        }),
{
    let waiting = s.batches + nonempty_batches(committed);
    let s1 = MinerState { batches: waiting, pending: s.pending + found_transactions(announced), ..s };
    lemma_oldest_batch_first(s1);
}

} // verus!
