use chain_indexer::block::{BlockDomain, BlockRow};
use chain_indexer::bytes::{Address, Hash32};
use chain_indexer::chain::{Block, Receipt, Transaction};
use chain_indexer::error::AppError;
use chain_indexer::filter::FilterConfig;
use chain_indexer::retry::{RetryAdapter, RetryStep};
use chain_indexer::store::MemoryStore;
use chain_indexer::sync::{safe_height, BlockFetch, SyncPass, SyncState};
use chain_indexer::uint::Uint256;

fn account(b: u8) -> Address {
    Address { bytes: [b; 20] }
}

fn hash_of_height(h: u64) -> Hash32 {
    let mut b = [0u8; 32];
    b[24..].copy_from_slice(&h.to_be_bytes());
    b[0] = 0x5a;
    Hash32 { bytes: b }
}

fn chain_block(h: u64, txs: Vec<Transaction>) -> Block {
    Block {
        number: Some(h),
        hash: Some(hash_of_height(h)),
        parent_hash: hash_of_height(h - 1),
        gas_used: Uint256::from_u64(21000),
        base_fee_per_gas: None,
        timestamp: Uint256::from_u64(1_700_000_000 + h),
        transactions: txs,
    }
}

fn pay(h: u8, from: u8, to: u8, value: u64) -> Transaction {
    Transaction {
        hash: Hash32 { bytes: [h; 32] },
        from: account(from),
        to: Some(account(to)),
        value: Uint256::from_u64(value),
        input: vec![],
        gas: Uint256::from_u64(21000),
        max_fee_per_gas: None,
    }
}

fn ok_receipt() -> Receipt {
    Receipt { status: Some(1), gas_used: Some(Uint256::from_u64(21000)), logs: vec![] }
}

/// Runs one pass: `fetch` plays the node, `store` the database; every
/// receipt that is asked for is found with success. Returns the pass and the
/// heights that were written.
fn run_pass(
    store: &mut MemoryStore,
    head: u64,
    delay: i16,
    init_height: u64,
    filter: &FilterConfig,
    fetch: &mut dyn FnMut(u64) -> BlockFetch,
) -> (Result<(), AppError>, SyncPass, Vec<u64>) {
    let mut written = vec![];
    let mut pass = match SyncPass::begin(head, delay, store.last_indexed_block(), init_height) {
        Ok(p) => p,
        Err(e) => panic!("begin failed: {:?}", e),
    };
    while let Some(h) = pass.next_height() {
        match pass.on_block(fetch(h)) {
            Err(e) => return (Err(e), pass, written),
            Ok(false) => break,
            Ok(true) => {}
        }
        let asks = pass.receipt_requests(filter);
        let receipts: Vec<Option<Receipt>> = asks.iter().map(|a| if *a { Some(ok_receipt()) } else { None }).collect();
        let plan = match pass.prepare_commit(filter, &receipts) {
            Ok(p) => p,
            Err(e) => return (Err(e), pass, written),
        };
        store.execute_commit(&plan);
        written.push(plan.block.block_number as u64);
        pass.on_committed();
    }
    (Ok(()), pass, written)
}

#[test]
fn cold_start_commits_up_to_the_safe_height() {
    let mut store = MemoryStore::new();
    let f = FilterConfig::new(vec![], vec![]);
    let (r, pass, written) = run_pass(&mut store, 1020, 12, 1000, &f, &mut |h| {
        let mut b = chain_block(h, vec![]);
        if h == 1000 {
            b.parent_hash = Hash32 { bytes: [0; 32] };
        }
        BlockFetch::Found(b)
    });
    assert!(r.is_ok());
    assert_eq!(written, (1000..=1008).collect::<Vec<u64>>());
    assert_eq!(pass.next, 1009);
    assert_eq!(pass.safe, 1008);
    assert_eq!(pass.state, SyncState::Done);
    assert_eq!(store.blocks.len(), 9);
    assert_eq!(store.last_indexed_block().unwrap().block_number, 1008);
}

#[test]
fn nothing_to_do_below_the_safe_height() {
    let pass = SyncPass::begin(1020, 12, None, 1009).unwrap();
    assert_eq!(pass.state, SyncState::Done);
    assert_eq!(pass.next_height(), None);
    assert_eq!(safe_height(5, 12), 0);
    assert_eq!(safe_height(1020, 12), 1008);
}

#[test]
fn reorg_is_reported_and_nothing_is_written() {
    let aa = Hash32 { bytes: [0xaa; 32] };
    let last = BlockRow { block_number: 1500, block_hash: format!("0x{}", "aa".repeat(32)), parent_hash: format!("0x{}", "99".repeat(32)) };
    let mut pass = SyncPass::begin(2000, 12, Some(last), 0).unwrap();
    assert_eq!(pass.prev.unwrap().block_hash, aa);
    assert_eq!(pass.next_height(), Some(1501));
    let mut b = chain_block(1501, vec![]);
    b.parent_hash = Hash32 { bytes: [0xbb; 32] };
    let r = pass.on_block(BlockFetch::Found(b));
    match r {
        Err(AppError::ChainReorg { block, local, network }) => {
            assert_eq!(block, 1501);
            assert_eq!(local, format!("0x{}", "aa".repeat(32)));
            assert_eq!(network, format!("0x{}", "bb".repeat(32)));
        }
        other => panic!("expected a reorg, got {:?}", other),
    }
    assert_eq!(pass.state, SyncState::Halted);
    assert_eq!(pass.next, 1501);
    assert_eq!(pass.next_height(), None);

    let mut store = MemoryStore::new();
    store.insert_block(&BlockDomain::new(1500, format!("0x{}", "aa".repeat(32)), format!("0x{}", "99".repeat(32)), 0, 0, 0, 0));
    let f = FilterConfig::new(vec![], vec![account(0x11)]);
    let (r, _, written) = run_pass(&mut store, 2000, 12, 0, &f, &mut |h| {
        let mut b = chain_block(h, vec![pay(1, 0x11, 0x22, 5)]);
        b.parent_hash = Hash32 { bytes: [0xbb; 32] };
        BlockFetch::Found(b)
    });
    assert!(matches!(r, Err(AppError::ChainReorg { block: 1501, .. })));
    assert!(written.is_empty());
    assert_eq!(store.blocks.len(), 1);
    assert!(store.transfers.is_empty());
}

#[test]
fn absent_or_failed_block_ends_the_pass() {
    let mut pass = SyncPass::begin(2000, 12, None, 100).unwrap();
    assert_eq!(pass.on_block(BlockFetch::Absent), Ok(false));
    assert_eq!(pass.state, SyncState::Done);
    let mut pass = SyncPass::begin(2000, 12, None, 100).unwrap();
    assert_eq!(pass.on_block(BlockFetch::Failed), Ok(false));
    assert_eq!(pass.next, 100);
}

#[test]
fn block_without_hash_halts_the_pass() {
    let mut pass = SyncPass::begin(2000, 12, None, 100).unwrap();
    let mut b = chain_block(100, vec![]);
    b.hash = None;
    assert!(matches!(pass.on_block(BlockFetch::Found(b)), Err(AppError::ProviderError(_))));
    assert_eq!(pass.state, SyncState::Halted);
}

#[test]
fn unreadable_stored_hash_is_refused() {
    let last = BlockRow { block_number: 7, block_hash: "not a hash".to_string(), parent_hash: String::new() };
    assert!(matches!(SyncPass::begin(2000, 12, Some(last), 0), Err(AppError::Conversion(_))));
}

#[test]
fn oversized_block_values_halt_the_pass() {
    let mut pass = SyncPass::begin(2000, 0, None, 100).unwrap();
    let mut b = chain_block(100, vec![]);
    b.timestamp = Uint256 { words: [0, 0, 1, 0] };
    assert_eq!(pass.on_block(BlockFetch::Found(b)), Ok(true));
    assert!(matches!(pass.prepare_commit(&FilterConfig::new(vec![], vec![]), &vec![]), Err(AppError::ConversionError(_))));
    assert_eq!(pass.state, SyncState::Halted);
}

#[test]
fn watchlist_reload_changes_what_is_indexed() {
    let mut store = MemoryStore::new();
    let first = FilterConfig::from_lines(&vec![], &vec![format!("0x{}", "11".repeat(20))]);
    let (r, _, _) = run_pass(&mut store, 112, 12, 100, &first, &mut |h| {
        BlockFetch::Found(chain_block(h, vec![pay(1, 0x33, 0x11, 5)]))
    });
    assert!(r.is_ok());
    assert_eq!(store.transfers.len(), 1);
    assert_eq!(store.transfers[0].to_address, format!("0x{}", "11".repeat(20)));
    let second = FilterConfig::from_lines(&vec![], &vec![format!("0x{}", "22".repeat(20))]);
    let (r, _, written) = run_pass(&mut store, 113, 12, 100, &second, &mut |h| {
        BlockFetch::Found(chain_block(h, vec![pay(2, 0x33, 0x11, 5)]))
    });
    assert!(r.is_ok());
    assert_eq!(written, vec![101]);
    assert_eq!(store.transfers.len(), 1);
}

#[test]
fn transient_failures_are_retried_with_backoff() {
    let policy = RetryAdapter::new(5, 1000);
    let mut waits = vec![];
    let mut attempts = 0;
    let mut outcome = None;
    loop {
        match policy.next_step(attempts) {
            RetryStep::GiveUp => break,
            RetryStep::Attempt { wait_ms } => {
                waits.push(wait_ms);
                attempts += 1;
                if attempts == 3 {
                    outcome = Some(chain_block(100, vec![]));
                    break;
                }
            }
        }
    }
    assert_eq!(waits.len(), 3);
    assert_eq!(waits[0], 0);
    assert!(waits[1] >= 1000 && waits[1] <= 1100);
    assert!(waits[2] >= 2000 && waits[2] <= 2200);
    let mut store = MemoryStore::new();
    let f = FilterConfig::new(vec![], vec![]);
    let mut fetched = outcome;
    let (r, _, written) = run_pass(&mut store, 112, 12, 100, &f, &mut |_| match fetched.take() {
        Some(b) => BlockFetch::Found(b),
        None => BlockFetch::Absent,
    });
    assert!(r.is_ok());
    assert_eq!(written, vec![100]);
    assert_eq!(store.blocks.len(), 1);
}

#[test]
fn persisted_blocks_keep_the_invariants() {
    let mut store = MemoryStore::new();
    let f = FilterConfig::new(vec![], vec![account(0x11)]);
    let (r, _, _) = run_pass(&mut store, 130, 0, 120, &f, &mut |h| {
        BlockFetch::Found(chain_block(h, vec![pay(h as u8, 0x11, 0x22, h)]))
    });
    assert!(r.is_ok());
    let blocks = &store.blocks;
    assert_eq!(blocks.len(), 11);
    for w in blocks.windows(2) {
        assert_eq!(w[1].block_number, w[0].block_number + 1);
        assert_eq!(w[1].parent_hash, w[0].block_hash);
    }
    for t in &store.transfers {
        assert_eq!(t.status, 1);
        assert!(blocks.iter().any(|b| b.block_number == t.block_number));
    }
    let mut keys: Vec<(String, i64)> = store.transfers.iter().map(|t| (t.tx_hash.clone(), t.log_index)).collect();
    keys.sort();
    keys.dedup();
    assert_eq!(keys.len(), store.transfers.len());
}

#[test]
fn replaying_a_block_changes_nothing() {
    let mut store = MemoryStore::new();
    let f = FilterConfig::new(vec![], vec![account(0x11)]);
    let mut pass = SyncPass::begin(200, 0, None, 150).unwrap();
    pass.on_block(BlockFetch::Found(chain_block(150, vec![pay(1, 0x11, 0x22, 9), pay(2, 0x22, 0x11, 4)]))).unwrap();
    let plan = pass.prepare_commit(&f, &vec![Some(ok_receipt()), Some(ok_receipt())]).unwrap();
    store.execute_commit(&plan);
    let blocks_once = store.blocks.clone();
    let transfers_once = store.transfers.clone();
    store.execute_commit(&plan);
    assert_eq!(store.blocks, blocks_once);
    assert_eq!(store.transfers, transfers_once);
    assert_eq!(store.transfers.len(), 2);
}
