use chain_indexer::bytes::{Address, Hash32};
use chain_indexer::chain::{Block, Log, Receipt, Transaction};
use chain_indexer::error::AppError;
use chain_indexer::extract::{is_potential_target, is_target_transaction, needs_receipt_of, EventParser};
use chain_indexer::filter::FilterConfig;
use chain_indexer::transfer::Transfer;
use chain_indexer::uint::Uint256;

const TRANSFER_TOPIC: &str = "0xddf252ad1be2c89b69c2b068fc378daa952ba7f163c4a11628f55a4df523b3ef";

fn addr(b: u8) -> Address {
    Address { bytes: [b; 20] }
}

fn hash(b: u8) -> Hash32 {
    Hash32 { bytes: [b; 32] }
}

fn topic_of(a: &Address) -> Hash32 {
    let mut t = [0u8; 32];
    t[12..].copy_from_slice(&a.bytes);
    Hash32 { bytes: t }
}

fn amount_bytes(v: u64) -> Vec<u8> {
    let mut d = vec![0u8; 24];
    d.extend_from_slice(&v.to_be_bytes());
    d
}

fn native_tx(h: u8, from: u8, to: u8, value: u64) -> Transaction {
    Transaction {
        hash: hash(h),
        from: addr(from),
        to: Some(addr(to)),
        value: Uint256::from_u64(value),
        input: vec![],
        gas: Uint256::from_u64(21000),
        max_fee_per_gas: Some(Uint256::from_u64(30)),
    }
}

fn erc20_tx(h: u8, from: u8, contract: u8, to: u8, amount: u64) -> Transaction {
    let mut input = vec![0xa9, 0x05, 0x9c, 0xbb];
    input.extend_from_slice(&topic_of(&addr(to)).bytes);
    input.extend_from_slice(&amount_bytes(amount));
    Transaction {
        hash: hash(h),
        from: addr(from),
        to: Some(addr(contract)),
        value: Uint256::zero(),
        input,
        gas: Uint256::from_u64(60000),
        max_fee_per_gas: None,
    }
}

fn transfer_log(contract: u8, from: u8, to: u8, amount: u64, index: u64) -> Log {
    Log {
        address: addr(contract),
        topics: vec![Hash32::parse(TRANSFER_TOPIC).unwrap(), topic_of(&addr(from)), topic_of(&addr(to))],
        data: amount_bytes(amount),
        log_index: Some(Uint256::from_u64(index)),
    }
}

fn receipt(status: u64, logs: Vec<Log>) -> Receipt {
    Receipt { status: Some(status), gas_used: Some(Uint256::from_u64(52000)), logs }
}

fn block_of(txs: Vec<Transaction>) -> Block {
    Block {
        number: Some(1000),
        hash: Some(hash(0xb0)),
        parent_hash: hash(0xaf),
        gas_used: Uint256::from_u64(1_000_000),
        base_fee_per_gas: Some(Uint256::from_u64(7)),
        timestamp: Uint256::from_u64(1_700_000_000),
        transactions: txs,
    }
}

fn filter(contracts: &[u8], users: &[u8]) -> FilterConfig {
    FilterConfig::new(contracts.iter().map(|b| addr(*b)).collect(), users.iter().map(|b| addr(*b)).collect())
}

fn hex_of(b: u8, n: usize) -> String {
    format!("0x{}", format!("{:02x}", b).repeat(n))
}

#[test]
fn block_with_no_transactions_yields_nothing() {
    let b = block_of(vec![]);
    let (ts, skipped) = EventParser::new().parse_transfers_from_block(&b, 1000, 5, &filter(&[0xcc], &[0x11]), &vec![]).unwrap();
    assert!(ts.is_empty());
    assert_eq!(skipped, 0);
}

#[test]
fn block_with_every_transaction_filtered_yields_nothing() {
    let b = block_of(vec![native_tx(1, 0x21, 0x22, 5), erc20_tx(2, 0x23, 0xcc, 0x24, 9)]);
    let f = filter(&[0xdd], &[0x11]);
    let receipts = vec![None, None];
    let (ts, skipped) = EventParser::new().parse_transfers_from_block(&b, 1000, 5, &f, &receipts).unwrap();
    assert!(ts.is_empty());
    assert_eq!(skipped, 2);
}

#[test]
fn failed_receipt_yields_no_transfer() {
    let b = block_of(vec![native_tx(1, 0x11, 0x22, 5)]);
    let f = filter(&[], &[0x11]);
    let receipts = vec![Some(receipt(0, vec![]))];
    let (ts, skipped) = EventParser::new().parse_transfers_from_block(&b, 1000, 5, &f, &receipts).unwrap();
    assert!(ts.is_empty());
    assert_eq!(skipped, 1);
}

#[test]
fn receipt_without_status_counts_as_failed() {
    let b = block_of(vec![native_tx(1, 0x11, 0x22, 5)]);
    let f = filter(&[], &[0x11]);
    let mut r = receipt(1, vec![]);
    r.status = None;
    let (ts, skipped) = EventParser::new().parse_transfers_from_block(&b, 1000, 5, &f, &vec![Some(r)]).unwrap();
    assert!(ts.is_empty());
    assert_eq!(skipped, 1);
}

#[test]
fn log_of_unwatched_contract_yields_nothing() {
    let tx = erc20_tx(3, 0x11, 0xaa, 0x22, 77);
    let r = receipt(1, vec![transfer_log(0xaa, 0x11, 0x22, 77, 4)]);
    let out = Transfer::process_transaction(&tx, &r, 1000, 5, &filter(&[0xcc], &[0x11])).unwrap();
    assert!(out.is_empty());
}

#[test]
fn zero_value_native_transfer_yields_nothing() {
    let tx = native_tx(1, 0x11, 0x22, 0);
    assert!(!is_target_transaction(&tx));
    let out = Transfer::process_transaction(&tx, &receipt(1, vec![]), 1000, 5, &filter(&[0x22], &[0x11, 0x22])).unwrap();
    assert!(out.is_empty());
}

#[test]
fn native_transfer_to_watched_user() {
    let tx = native_tx(1, 0x33, 0x11, 500);
    let out = Transfer::process_transaction(&tx, &receipt(1, vec![]), 1000, 1_700_000_000, &filter(&[], &[0x11])).unwrap();
    assert_eq!(out.len(), 1);
    let t = &out[0];
    assert_eq!(t.block_number, 1000);
    assert_eq!(t.tx_hash, hex_of(1, 32));
    assert_eq!(t.from_address, hex_of(0x33, 20));
    assert_eq!(t.to_address, hex_of(0x11, 20));
    assert_eq!(t.amount, Uint256::from_u64(500));
    assert_eq!(t.contract_address, None);
    assert_eq!(t.gas, Uint256::from_u64(21000));
    assert_eq!(t.max_fee_per_gas, Uint256::from_u64(30));
    assert_eq!(t.status, 1);
    assert_eq!(t.log_index, 0);
    assert_eq!(t.timestamp, 1_700_000_000);
}

#[test]
fn erc20_transfer_of_watched_contract_and_user() {
    let tx = erc20_tx(7, 0x11, 0xcc, 0x22, 1234);
    let r = receipt(1, vec![transfer_log(0xcc, 0x11, 0x22, 1234, 9)]);
    let out = Transfer::process_transaction(&tx, &r, 1000, 5, &filter(&[0xcc], &[0x11])).unwrap();
    assert_eq!(out.len(), 1);
    let t = &out[0];
    assert_eq!(t.from_address, hex_of(0x11, 20));
    assert_eq!(t.to_address, hex_of(0x22, 20));
    assert_eq!(t.amount, Uint256::from_u64(1234));
    assert_eq!(t.contract_address, Some(hex_of(0xcc, 20)));
    assert_eq!(t.log_index, 9);
    assert_eq!(t.gas, Uint256::from_u64(52000));
    assert_eq!(t.max_fee_per_gas, Uint256::zero());
    assert_eq!(t.tx_hash, hex_of(7, 32));
}

#[test]
fn malformed_logs_are_ignored() {
    let tx = erc20_tx(7, 0x11, 0xcc, 0x22, 1);
    let mut short_data = transfer_log(0xcc, 0x11, 0x22, 1, 1);
    short_data.data.pop();
    let mut two_topics = transfer_log(0xcc, 0x11, 0x22, 1, 2);
    two_topics.topics.pop();
    let mut other_event = transfer_log(0xcc, 0x11, 0x22, 1, 3);
    other_event.topics[0] = hash(0x99);
    let r = receipt(1, vec![short_data, two_topics, other_event]);
    let out = Transfer::process_transaction(&tx, &r, 1000, 5, &filter(&[0xcc], &[0x11])).unwrap();
    assert!(out.is_empty());
}

#[test]
fn log_index_beyond_i64_fails_the_block() {
    let tx = erc20_tx(7, 0x11, 0xcc, 0x22, 1);
    let mut log = transfer_log(0xcc, 0x11, 0x22, 1, 0);
    log.log_index = Some(Uint256 { words: [0, 1, 0, 0] });
    let out = Transfer::process_transaction(&tx, &receipt(1, vec![log.clone()]), 1000, 5, &filter(&[0xcc], &[0x22]));
    assert!(matches!(out, Err(AppError::ConversionError(_))));
    let b = block_of(vec![tx]);
    let r = EventParser::new().parse_transfers_from_block(&b, 1000, 5, &filter(&[0xcc], &[0x22]), &vec![Some(receipt(1, vec![log]))]);
    assert!(matches!(r, Err(AppError::ConversionError(_))));
}

#[test]
fn prefilter_rules() {
    let mut creation = native_tx(1, 0x11, 0x22, 5);
    creation.to = None;
    assert!(!is_target_transaction(&creation));
    assert!(is_target_transaction(&native_tx(1, 0x11, 0x22, 5)));
    assert!(is_target_transaction(&erc20_tx(1, 0x11, 0xcc, 0x22, 5)));
    let mut paid_call = erc20_tx(1, 0x11, 0xcc, 0x22, 5);
    paid_call.value = Uint256::from_u64(1);
    assert!(!is_target_transaction(&paid_call));
    let mut other_call = erc20_tx(1, 0x11, 0xcc, 0x22, 5);
    other_call.input[0] = 0x12;
    assert!(!is_target_transaction(&other_call));
    let f = filter(&[0xcc], &[0x11]);
    assert!(is_potential_target(&native_tx(1, 0x11, 0x22, 5), &f));
    assert!(is_potential_target(&native_tx(1, 0x33, 0x11, 5), &f));
    assert!(is_potential_target(&erc20_tx(1, 0x44, 0xcc, 0x22, 5), &f));
    assert!(!is_potential_target(&native_tx(1, 0x33, 0x44, 5), &f));
    assert!(needs_receipt_of(&native_tx(1, 0x11, 0x22, 5), &f));
    assert!(!needs_receipt_of(&native_tx(1, 0x11, 0x22, 0), &f));
}

#[test]
fn missing_receipt_skips_only_that_transaction() {
    let b = block_of(vec![native_tx(1, 0x11, 0x22, 5), native_tx(2, 0x11, 0x23, 6)]);
    let f = filter(&[], &[0x11]);
    let receipts = vec![None, Some(receipt(1, vec![]))];
    let (ts, skipped) = EventParser::new().parse_transfers_from_block(&b, 1000, 5, &f, &receipts).unwrap();
    assert_eq!(skipped, 1);
    assert_eq!(ts.len(), 1);
    assert_eq!(ts[0].tx_hash, hex_of(2, 32));
    assert_eq!(ts[0].amount, Uint256::from_u64(6));
}

#[test]
fn erc20_call_on_unwatched_contract_from_watched_user() {
    let tx = erc20_tx(5, 0x11, 0xaa, 0x22, 10);
    let f = filter(&[0xcc], &[0x11]);
    assert!(needs_receipt_of(&tx, &f));
    let b = block_of(vec![tx]);
    let receipts = vec![Some(receipt(1, vec![transfer_log(0xaa, 0x11, 0x22, 10, 0)]))];
    let (ts, skipped) = EventParser::new().parse_transfers_from_block(&b, 1000, 5, &f, &receipts).unwrap();
    assert!(ts.is_empty());
    assert_eq!(skipped, 0);
}

#[test]
fn transfers_come_in_transaction_then_log_order() {
    let mut tx = erc20_tx(5, 0x11, 0xcc, 0x22, 10);
    tx.input.clear();
    tx.value = Uint256::from_u64(3);
    let logs = vec![transfer_log(0xcc, 0x11, 0x22, 10, 1), transfer_log(0xcc, 0x22, 0x11, 20, 2)];
    let out = Transfer::process_transaction(&tx, &receipt(1, logs), 1000, 5, &filter(&[0xcc], &[0x11])).unwrap();
    assert_eq!(out.len(), 3);
    assert_eq!(out[0].contract_address, None);
    assert_eq!(out[1].log_index, 1);
    assert_eq!(out[2].log_index, 2);
    assert_eq!(out[2].amount, Uint256::from_u64(20));
}
