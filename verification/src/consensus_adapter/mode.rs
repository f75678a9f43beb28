//! The miner that seals committed transactions in passes over the deferred
//! list, taking in each pass every transaction whose nonce is the one
//! expected from its sender.

use std::collections::VecDeque;
use vstd::prelude::*;
use crate::consensus::mode::into_queue;
use super::laws::pool_nonces_bounded;
use crate::consensus::pool::{
    batch_total, distinct_hash_count, expected_nonce, lemma_batch_total_prefix, pool_get,
    pool_lookup, tx_views, view_hash_set, ExternalTransaction, NonceTable, PoolTransaction, TxView,
};

verus! {

/// One pass over the deferred committed transactions, front to back: a
/// transaction found in the pool with the nonce expected from its sender is
/// selected (and the sender then expects the next nonce); any other is kept.
/// The result is the selected pool transactions, the kept committed ones and
/// the expected nonces afterwards.
pub open spec fn select_pass(
    deferred: Seq<ExternalTransaction>,
    pool: Seq<TxView>,
    nonces: Map<Seq<u8>, u64>,
) -> (Seq<TxView>, Seq<ExternalTransaction>, Map<Seq<u8>, u64>)
    decreases deferred.len(),
{
    if deferred.len() == 0 {
        (seq![], seq![], nonces)
    } else {
        let c = deferred[0];
        let found = pool_lookup(pool, c.tx_bytes@);
        if found is Some && found->0.nonce == expected_nonce(nonces, found->0.sender) {
            let tx = found->0;
            let r = select_pass(
                deferred.skip(1),
                pool,
                nonces.insert(tx.sender, (tx.nonce + 1) as u64),
            );
            (seq![tx] + r.0, r.1, r.2)
        } else {
            let r = select_pass(deferred.skip(1), pool, nonces);
            (r.0, seq![c] + r.1, r.2)
        }
    }
}

/// A pass selects or keeps each deferred transaction, one or the other.
pub proof fn lemma_select_pass_len(
    deferred: Seq<ExternalTransaction>,
    pool: Seq<TxView>,
    nonces: Map<Seq<u8>, u64>,
)
    ensures
        select_pass(deferred, pool, nonces).0.len() + select_pass(deferred, pool, nonces).1.len()
            == deferred.len(),
    decreases deferred.len(),
{
    if deferred.len() > 0 {
        let c = deferred[0];
        let found = pool_lookup(pool, c.tx_bytes@);
        if found is Some && found->0.nonce == expected_nonce(nonces, found->0.sender) {
            lemma_select_pass_len(
                deferred.skip(1),
                pool,
                nonces.insert(found->0.sender, (found->0.nonce + 1) as u64),
            );
        } else {
            lemma_select_pass_len(deferred.skip(1), pool, nonces);
        }
    }
}

/// Passes repeated until one selects nothing: the selected transactions of
/// all passes in order, the committed transactions still deferred, and the
/// expected nonces afterwards.
pub open spec fn select_rounds(
    deferred: Seq<ExternalTransaction>,
    pool: Seq<TxView>,
    nonces: Map<Seq<u8>, u64>,
) -> (Seq<TxView>, Seq<ExternalTransaction>, Map<Seq<u8>, u64>)
    decreases deferred.len(),
{
    let r = select_pass(deferred, pool, nonces);
    if r.0.len() == 0 {
        (seq![], r.1, r.2)
    } else {
        proof {
            lemma_select_pass_len(deferred, pool, nonces);
        }
        let r2 = select_rounds(r.1, pool, r.2);
        (r.0 + r2.0, r2.1, r2.2)
    }
}

/// The state of an adapter miner, by its views.
pub struct AdapterMinerState {
    pub max_transactions: usize,
    pub deferred: Seq<ExternalTransaction>,
    pub batches: Seq<Vec<ExternalTransaction>>,
    pub nonces: Map<Seq<u8>, u64>,
}

/// The batch of committed transactions that the next block is built from.
pub open spec fn first_batch(batches: Seq<Vec<ExternalTransaction>>) -> Seq<ExternalTransaction> {
    if batches.len() > 0 {
        batches[0]@
    } else {
        seq![]
    }
}

/// The next block built against `pool`, and the miner state after it: the
/// first pending batch joins the deferred transactions, and passes select
/// from them until one selects nothing.
pub open spec fn adapter_next_block(s: AdapterMinerState, pool: Seq<TxView>) -> (Seq<TxView>, AdapterMinerState) {
    let all = s.deferred + first_batch(s.batches);
    let r = select_rounds(all, pool, s.nonces);
    (
        r.0,
        AdapterMinerState {
            deferred: r.1,
            batches: if s.batches.len() > 0 {
                s.batches.skip(1)
            } else {
                s.batches
            },
            nonces: r.2,
            ..s
        },
    )
}

/// The batches worth keeping: the non-empty ones.
pub open spec fn nonempty_batches(b: Seq<Vec<ExternalTransaction>>) -> Seq<Vec<ExternalTransaction>> {
    b.filter(|v: Vec<ExternalTransaction>| v@.len() > 0)
}

/// What one poll gives: the newly committed non-empty batches are queued;
/// where no committed transaction is waiting nothing is mined, and otherwise
/// the next block is built and handed out unless it is empty.
pub open spec fn adapter_poll_outcome(
    s: AdapterMinerState,
    committed: Seq<Vec<ExternalTransaction>>,
    pool: Seq<TxView>,
) -> (Option<Seq<TxView>>, AdapterMinerState) {
    let s1 = AdapterMinerState { batches: s.batches + nonempty_batches(committed), ..s };
    if s1.batches.len() == 0 && s1.deferred.len() == 0 {
        (None, s1)
    } else {
        let (block, s2) = adapter_next_block(s1, pool);
        (if block.len() == 0 {
            None
        } else {
            Some(block)
        }, s2)
    }
}

/// A miner that seals committed transactions, reading them from the pool.
pub struct NarwhalTransactionMiner {
    /// How many transactions to mine per block.
    pub max_transactions: usize,
    /// The next nonce expected from each sender.
    pub expected_nonces: NonceTable,
    /// Committed transactions not yet sealed into a block.
    pub deferred_commited_transactions: Vec<ExternalTransaction>,
    /// Batches of committed transactions not yet looked at.
    pub pending_committed_transactions: VecDeque<Vec<ExternalTransaction>>,
    /// How many committed transactions have been received.
    pub committed_trans: u64,
    /// How many distinct transactions have been sealed.
    pub sealed_trans: u64,
}

impl View for NarwhalTransactionMiner {
    type V = AdapterMinerState;

    open spec fn view(&self) -> AdapterMinerState {
        AdapterMinerState {
            max_transactions: self.max_transactions,
            deferred: self.deferred_commited_transactions@,
            batches: self.pending_committed_transactions@,
            nonces: self.expected_nonces@,
        }
    }
}

/// One pass: moves the selected transactions (copied from the pool) to
/// `selected` and returns the committed transactions kept.
fn run_pass(
    deferred: Vec<ExternalTransaction>,
    pool: &Vec<PoolTransaction>,
    nonces: &mut NonceTable,
    selected: &mut Vec<PoolTransaction>,
) -> (kept: Vec<ExternalTransaction>)
    requires
        pool_nonces_bounded(select_pass(deferred@, tx_views(pool@), old(nonces)@).0),
    ensures
        ({
            let r = select_pass(deferred@, tx_views(pool@), old(nonces)@);
            &&& tx_views(final(selected)@) == tx_views(old(selected)@) + r.0
            &&& kept@ == r.1
            &&& final(nonces)@ == r.2
        }),
{
    let ghost d0 = deferred@;
    let ghost views = tx_views(pool@);
    let ghost n0 = nonces@;
    let ghost s0 = tx_views(selected@);
    let dlen = deferred.len();
    let mut q = into_queue(deferred);
    let mut kept: Vec<ExternalTransaction> = Vec::new();
    let mut i: usize = 0;
    assert(d0.skip(0) =~= d0);
    assert(s0 + seq![] =~= s0);
    while q.len() > 0
        invariant
            q@ == d0.skip(i as int),
            i + q@.len() == d0.len(),
            d0.len() == dlen,
            views == tx_views(pool@),
            pool_nonces_bounded(select_pass(d0, views, n0).0),
            ({
                let rest = select_pass(d0.skip(i as int), views, nonces@);
                let all = select_pass(d0, views, n0);
                &&& all.0 == tx_views(selected@).skip(s0.len() as int) + rest.0
                &&& all.1 == kept@ + rest.1
                &&& all.2 == rest.2
            }),
            tx_views(selected@).len() >= s0.len(),
            tx_views(selected@).take(s0.len() as int) == s0,
        decreases q.len(),
    {
        let ghost before = q@;
        let ghost sel_before = tx_views(selected@);
        let ghost n_before = nonces@;
        let c = q.pop_front().unwrap();
        assert(before[0] == c);
        assert(before.skip(1) =~= d0.skip(i + 1));
        let found = pool_get(pool, c.tx_bytes.as_slice());
        let mut take = false;
        match found {
            Some(tx) => {
                proof {
                    lemma_lookup_in(views, c.tx_bytes@);
                }
                let expected = nonces.expected(tx.sender.as_slice());
                if tx.nonce == expected {
                    proof {
                        let rest = select_pass(before, views, n_before);
                        let all = select_pass(d0, views, n0);
                        assert(rest.0[0] == tx@);
                        assert(all.0[sel_before.skip(s0.len() as int).len() as int] == tx@);
                    }
                    take = true;
                    nonces.set(tx.sender.as_slice(), tx.nonce + 1);
                    selected.push(tx.clone());
                    assert(tx_views(selected@) =~= sel_before.push(tx@));
                }
            },
            None => {},
        }
        if !take {
            kept.push(c);
        }
        proof {
            let rest_new = select_pass(d0.skip(i + 1), views, nonces@);
            if take {
                assert(sel_before.skip(s0.len() as int).push(found->0@) =~= tx_views(selected@).skip(s0.len() as int));
                assert(tx_views(selected@).take(s0.len() as int) =~= sel_before.take(s0.len() as int));
            } else {
                assert(tx_views(selected@) == sel_before);
            }
        }
        i = i + 1;
        assert(q@ =~= d0.skip(i as int));
    }
    proof {
        assert(d0.skip(i as int) =~= seq![]);
        assert(tx_views(selected@) =~= s0 + tx_views(selected@).skip(s0.len() as int));
        assert(kept@ + seq![] =~= kept@);
        assert(tx_views(selected@).skip(s0.len() as int) + seq![] =~= tx_views(selected@).skip(s0.len() as int));
    }
    kept
}

/// A transaction found by hash is one whose nonce bound holds.
proof fn lemma_lookup_in(pool: Seq<TxView>, hash: Seq<u8>)
    ensures
        pool_lookup(pool, hash) is Some ==> exists|i: int|
            0 <= i < pool.len() && pool[i] == pool_lookup(pool, hash)->0,
    decreases pool.len(),
{
    if pool.len() > 0 && pool[0].hash != hash {
        lemma_lookup_in(pool.skip(1), hash);
        if pool_lookup(pool, hash) is Some {
            let i = choose|i: int|
                0 <= i < pool.skip(1).len() && pool.skip(1)[i] == pool_lookup(pool.skip(1), hash)->0;
            assert(pool[i + 1] == pool.skip(1)[i]);
        }
    }
}

impl NarwhalTransactionMiner {
    /// A miner with nothing pending, no limit on the block size and every
    /// sender expected at nonce zero.
    pub fn new() -> (r: Self)
        ensures
            r@ == (AdapterMinerState {
                max_transactions: usize::MAX,
                deferred: seq![],
                batches: seq![],
                nonces: Map::empty(),
            }),
            r.committed_trans == 0,
            r.sealed_trans == 0,
    {
        let r = NarwhalTransactionMiner {
            max_transactions: usize::MAX,
            expected_nonces: NonceTable::new(),
            deferred_commited_transactions: Vec::new(),
            pending_committed_transactions: VecDeque::new(),
            committed_trans: 0,
            sealed_trans: 0,
        };
        assert(r@.deferred =~= seq![]);
        assert(r@.batches =~= seq![]);
        r
    }

    /// Builds the transaction list of the next block against the pool's
    /// current transactions.
    fn process_next_block(&mut self, pool: &Vec<PoolTransaction>) -> (r: Vec<PoolTransaction>)
        requires
            pool_nonces_bounded(adapter_next_block(old(self)@, tx_views(pool@)).0),
            old(self).sealed_trans + view_hash_set(adapter_next_block(old(self)@, tx_views(pool@)).0).len()
                <= u64::MAX,
        ensures
            (tx_views(r@), final(self)@) == adapter_next_block(old(self)@, tx_views(pool@)),
            final(self).sealed_trans == old(self).sealed_trans + view_hash_set(tx_views(r@)).len(),
            final(self).committed_trans == old(self).committed_trans,
    {
        let sealed0 = self.sealed_trans;
        let committed0 = self.committed_trans;
        let ghost s0 = self@;
        let current: Vec<ExternalTransaction> = match self.pending_committed_transactions.pop_front() {
            Some(batch) => batch,
            None => Vec::new(),
        };
        let mut deferred: Vec<ExternalTransaction> = Vec::new();
        std::mem::swap(&mut deferred, &mut self.deferred_commited_transactions);
        let mut cur = current;
        deferred.append(&mut cur);
        let ghost all = deferred@;
        assert(all =~= s0.deferred + first_batch(s0.batches));
        let ghost views = tx_views(pool@);
        let mut transactions: Vec<PoolTransaction> = Vec::new();
        let ghost n0 = self.expected_nonces@;
        assert(tx_views(transactions@) =~= seq![]);
        loop
            invariant_except_break
                views == tx_views(pool@),
                pool_nonces_bounded(select_rounds(all, views, n0).0),
                ({
                    let rest = select_rounds(deferred@, views, self.expected_nonces@);
                    let whole = select_rounds(all, views, n0);
                    &&& whole.0 == tx_views(transactions@) + rest.0
                    &&& whole.1 == rest.1
                    &&& whole.2 == rest.2
                }),
                self.max_transactions == s0.max_transactions,
                self.pending_committed_transactions@ == (if s0.batches.len() > 0 {
                    s0.batches.skip(1)
                } else {
                    s0.batches
                }),
            ensures
                ({
                    let whole = select_rounds(all, views, n0);
                    &&& whole.0 == tx_views(transactions@)
                    &&& whole.1 == self.deferred_commited_transactions@
                    &&& whole.2 == self.expected_nonces@
                }),
                self.max_transactions == s0.max_transactions,
                self.pending_committed_transactions@ == (if s0.batches.len() > 0 {
                    s0.batches.skip(1)
                } else {
                    s0.batches
                }),
            decreases deferred@.len(),
        {
            let ghost d_before = deferred@;
            let ghost n_before = self.expected_nonces@;
            let ghost t_before = tx_views(transactions@);
            let mut round: Vec<PoolTransaction> = Vec::new();
            proof {
                let pass = select_pass(d_before, views, n_before);
                let rest = select_rounds(d_before, views, n_before);
                let whole = select_rounds(all, views, n0);
                assert forall|k: int| 0 <= k < pass.0.len() implies #[trigger] pass.0[k].nonce < u64::MAX by {
                    assert(rest.0[k] == pass.0[k]);
                    assert(whole.0[t_before.len() + k] == rest.0[k]);
                }
            }
            let kept = run_pass(deferred, pool, &mut self.expected_nonces, &mut round);
            proof {
                lemma_select_pass_len(d_before, views, n_before);
                assert(tx_views(round@) =~= seq![] + select_pass(d_before, views, n_before).0);
            }
            if round.len() > 0 {
                transactions.append(&mut round);
                deferred = kept;
                proof {
                    assert(tx_views(transactions@) =~= t_before + select_pass(d_before, views, n_before).0);
                    let r = select_pass(d_before, views, n_before);
                    assert(t_before + select_rounds(d_before, views, n_before).0 =~= tx_views(transactions@)
                        + select_rounds(r.1, views, r.2).0);
                }
            } else {
                self.deferred_commited_transactions = kept;
                proof {
                    assert(t_before + seq![] =~= t_before);
                }
                break;
            }
        }
        let count = distinct_hash_count(&transactions);
        self.sealed_trans = sealed0 + count as u64;
        self.committed_trans = committed0;
        transactions
    }

    /// Takes in what the consensus layer committed since the last poll and
    /// returns the next block, built against the pool's current
    /// transactions, if there is one to seal.
    pub fn poll(&mut self, committed: Vec<Vec<ExternalTransaction>>, pool: &Vec<PoolTransaction>) -> (r: Option<
        Vec<PoolTransaction>,
    >)
        requires
            old(self).committed_trans + batch_total(committed@) <= u64::MAX,
            adapter_poll_outcome(old(self)@, committed@, tx_views(pool@)).0 matches Some(b) ==> pool_nonces_bounded(
                b,
            ) && old(self).sealed_trans + view_hash_set(b).len() <= u64::MAX,
        ensures
            (match r {
                Some(v) => Some(tx_views(v@)),
                None => None,
            }, final(self)@) == adapter_poll_outcome(old(self)@, committed@, tx_views(pool@)),
            final(self).committed_trans == old(self).committed_trans + batch_total(committed@),
            final(self).sealed_trans == old(self).sealed_trans + match r {
                Some(v) => view_hash_set(tx_views(v@)).len(),
                None => 0,
            },
    {
        let ghost c0 = committed@;
        let ghost b0 = self.pending_committed_transactions@;
        let clen = committed.len();
        let mut cq = into_queue(committed);
        let mut i: usize = 0;
        let ghost keep = |v: Vec<ExternalTransaction>| v@.len() > 0;
        assert(c0.take(0).filter(keep) =~= seq![]) by {
            reveal(Seq::filter);
        }
        while cq.len() > 0
            invariant
                cq@ == c0.skip(i as int),
                i + cq@.len() == c0.len(),
                c0.len() == clen,
                self.pending_committed_transactions@ == b0 + c0.take(i as int).filter(keep),
                self@ == (AdapterMinerState { batches: self.pending_committed_transactions@, ..old(self)@ }),
                keep == (|v: Vec<ExternalTransaction>| v@.len() > 0),
                self.committed_trans == old(self).committed_trans + batch_total(c0.take(i as int)),
                self.sealed_trans == old(self).sealed_trans,
                old(self).committed_trans + batch_total(c0) <= u64::MAX,
            decreases cq.len(),
        {
            let batch = cq.pop_front().unwrap();
            assert(batch == c0[i as int]);
            assert(c0.take(i + 1) =~= c0.take(i as int).push(batch));
            proof {
                c0.take(i as int).lemma_filter_push(batch, keep);
                assert(c0.take(i + 1).drop_last() =~= c0.take(i as int));
                lemma_batch_total_prefix(c0, i + 1);
            }
            self.committed_trans = self.committed_trans + batch.len() as u64;
            if batch.len() > 0 {
                self.pending_committed_transactions.push_back(batch);
            }
            i = i + 1;
            assert(cq@ =~= c0.skip(i as int));
        }
        assert(c0.take(i as int) =~= c0);
        if self.pending_committed_transactions.len() == 0 && self.deferred_commited_transactions.len() == 0 {
            return None;
        }
        proof {
            let b = adapter_next_block(self@, tx_views(pool@)).0;
            if b.len() == 0 {
                assert(view_hash_set(b) =~= Set::<Seq<u8>>::empty());
            }
        }
        let block = self.process_next_block(pool);
        if block.len() == 0 {
            assert(view_hash_set(tx_views(block@)) =~= Set::<Seq<u8>>::empty());
            None
        } else {
            Some(block)
        }
    }
}

} // verus!
