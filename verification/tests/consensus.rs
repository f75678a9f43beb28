use scalar::consensus::mode::{
    FixedBlockTimeMiner, MiningInput, NarwhalTransactionMiner, ReadyTransactionMiner, ScalarMiningMode,
};
use scalar::consensus::pool::{ExternalTransaction, NonceTable, PoolTransaction};
use scalar::consensus_adapter::mode::NarwhalTransactionMiner as AdapterMiner;

fn tx(hash: u8, sender: u8, nonce: u64) -> PoolTransaction {
    PoolTransaction { hash: vec![hash; 32], sender: vec![sender; 20], nonce }
}

fn committed(hash: u8) -> ExternalTransaction {
    ExternalTransaction { namespace: "scalar".to_owned(), tx_bytes: vec![hash; 32] }
}

fn hashes(txs: &[PoolTransaction]) -> Vec<u8> {
    txs.iter().map(|t| t.hash[0]).collect()
}

#[test]
fn nonce_table_starts_at_zero_and_remembers() {
    let mut t = NonceTable::new();
    assert_eq!(t.expected(&[1; 20]), 0);
    t.set(&[1; 20], 5);
    t.set(&[2; 20], 7);
    t.set(&[1; 20], 6);
    assert_eq!(t.expected(&[1; 20]), 6);
    assert_eq!(t.expected(&[2; 20]), 7);
    assert_eq!(t.expected(&[3; 20]), 0);
}

#[test]
fn queue_miner_seals_committed_transactions_in_nonce_order() {
    let mut m = NarwhalTransactionMiner::new();
    // Sender 1 sends nonces 0 and 1; sender 2 sends nonce 1 (its nonce 0 is missing).
    let block = m.poll(
        vec![vec![committed(10), committed(11), committed(20)]],
        vec![Some(tx(10, 1, 0)), Some(tx(20, 2, 1)), Some(tx(11, 1, 1)), None],
    );
    let block = block.expect("a block");
    assert_eq!(hashes(&block), vec![10, 11]);
    // The transaction of sender 2 waits, and so does its committed entry.
    assert_eq!(m.pending_transaction_queue.len(), 1);
    assert_eq!(m.pending_transaction_queue[0].hash[0], 20);
    assert_eq!(m.deferred_commited_transactions.len(), 1);
    assert_eq!(m.deferred_commited_transactions[0].tx_bytes[0], 20);
    assert_eq!(m.expected_nonces.expected(&[1; 20]), 2);
    assert_eq!(m.expected_nonces.expected(&[2; 20]), 0);
}

#[test]
fn queue_miner_stops_at_an_uncommitted_transaction() {
    let mut m = NarwhalTransactionMiner::new();
    let block = m.poll(
        vec![vec![committed(10), committed(12)]],
        vec![Some(tx(10, 1, 0)), Some(tx(11, 1, 1)), Some(tx(12, 1, 2))],
    );
    assert_eq!(hashes(&block.unwrap()), vec![10]);
    // 11 stopped the scan and 12 was not looked at: both wait, in order.
    let queue: Vec<u8> = m.pending_transaction_queue.iter().map(|t| t.hash[0]).collect();
    assert_eq!(queue, vec![11, 12]);
    assert_eq!(m.deferred_commited_transactions.len(), 1);
    // Once 11 is committed, 11 and 12 are sealed.
    let block = m.poll(vec![vec![committed(11)]], vec![]);
    assert_eq!(hashes(&block.unwrap()), vec![11, 12]);
    assert_eq!(m.deferred_commited_transactions.len(), 0);
    assert_eq!(m.expected_nonces.expected(&[1; 20]), 3);
}

#[test]
fn queue_miner_mines_nothing_without_commits() {
    let mut m = NarwhalTransactionMiner::new();
    assert!(m.poll(vec![vec![]], vec![Some(tx(1, 1, 0))]).is_none());
    assert_eq!(m.pending_transaction_queue.len(), 1);
    assert_eq!(m.pending_committed_transactions.len(), 0);
}

#[test]
fn adapter_miner_seals_in_passes_until_nothing_is_left() {
    let mut m = AdapterMiner::new();
    // Committed in reverse nonce order: each pass seals one more.
    let pool = vec![tx(10, 1, 0), tx(11, 1, 1), tx(12, 1, 2), tx(30, 3, 5)];
    let block = m.poll(vec![vec![committed(12), committed(11), committed(10), committed(30), committed(99)]], &pool);
    assert_eq!(hashes(&block.unwrap()), vec![10, 11, 12]);
    // Sender 3's nonce is ahead of the expected one and 99 is not in the pool.
    let deferred: Vec<u8> = m.deferred_commited_transactions.iter().map(|t| t.tx_bytes[0]).collect();
    assert_eq!(deferred, vec![30, 99]);
    assert_eq!(m.expected_nonces.expected(&[1; 20]), 3);
}

#[test]
fn adapter_miner_returns_nothing_when_no_pass_selects() {
    let mut m = AdapterMiner::new();
    let pool = vec![tx(10, 1, 4)];
    assert!(m.poll(vec![vec![committed(10)]], &pool).is_none());
    assert_eq!(m.deferred_commited_transactions.len(), 1);
    assert!(m.poll(vec![], &pool).is_none());
    assert_eq!(m.pending_committed_transactions.len(), 0);
}

#[test]
fn ready_miner_takes_at_most_the_limit() {
    let mut m = ReadyTransactionMiner { max_transactions: 2, has_pending_txs: None };
    let block = m.poll(false, vec![tx(1, 1, 0), tx(2, 1, 1), tx(3, 1, 2)]);
    assert_eq!(hashes(&block.unwrap()), vec![1, 2]);
    assert_eq!(m.has_pending_txs, Some(true));
    let block = m.poll(false, vec![tx(3, 1, 2)]);
    assert_eq!(hashes(&block.unwrap()), vec![3]);
    assert_eq!(m.has_pending_txs, Some(false));
    // Nothing pending and no notification: the pool is not read.
    assert!(m.poll(false, vec![tx(4, 1, 3)]).is_none());
    // A notification makes it look again.
    assert_eq!(hashes(&m.poll(true, vec![tx(4, 1, 3)]).unwrap()), vec![4]);
}

#[test]
fn fixed_block_time_miner_drains_the_pool_on_a_tick() {
    let m = FixedBlockTimeMiner::default_block_time();
    assert_eq!(m.interval_ms, 6000);
    assert!(m.poll(false, vec![tx(1, 1, 0)]).is_none());
    assert_eq!(m.poll(true, vec![]).map(|v| v.len()), Some(0));
}

#[test]
fn mining_modes_dispatch() {
    let input = || MiningInput {
        notified: true,
        tick: true,
        best: vec![tx(1, 1, 0)],
        committed: vec![],
        announced: vec![],
    };
    assert!(ScalarMiningMode::Idle.poll(input()).is_none());
    assert_eq!(ScalarMiningMode::instant(10).poll(input()).map(|v| v.len()), Some(1));
    assert_eq!(ScalarMiningMode::interval(100).poll(input()).map(|v| v.len()), Some(1));
    assert!(ScalarMiningMode::narwhal().poll(input()).is_none());
}

#[test]
fn miners_count_committed_and_sealed_transactions() {
    let mut m = NarwhalTransactionMiner::new();
    assert_eq!((m.committed_trans, m.sealed_trans), (0, 0));
    m.poll(
        vec![vec![committed(10), committed(11), committed(20)], vec![]],
        vec![Some(tx(10, 1, 0)), Some(tx(20, 2, 1)), Some(tx(11, 1, 1))],
    );
    assert_eq!(m.committed_trans, 3);
    assert_eq!(m.sealed_trans, 2);
    let mut a = AdapterMiner::new();
    let pool = vec![tx(10, 1, 0), tx(11, 1, 1)];
    a.poll(vec![vec![committed(11), committed(10)], vec![committed(40)]], &pool);
    assert_eq!(a.committed_trans, 3);
    assert_eq!(a.sealed_trans, 2);
}

#[test]
fn sealing_keeps_the_order_of_the_queue() {
    let mut m = NarwhalTransactionMiner::new();
    // Sender 2's nonce 1 comes before its nonce 0: the first waits, the
    // second is sealed, and the rest keeps its order.
    let block = m.poll(
        vec![vec![committed(21), committed(20), committed(10)]],
        vec![Some(tx(21, 2, 1)), Some(tx(20, 2, 0)), Some(tx(10, 1, 0)), Some(tx(99, 3, 0))],
    );
    assert_eq!(hashes(&block.unwrap()), vec![20, 10]);
    let queue: Vec<u8> = m.pending_transaction_queue.iter().map(|t| t.hash[0]).collect();
    assert_eq!(queue, vec![21, 99]);
}
