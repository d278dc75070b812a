use chain_indexer::block::{BlockDomain, BlockQuery, BlockRow};
use chain_indexer::bytes::{bytes_equal, Address, Hash32};
use chain_indexer::chain::Block;
use chain_indexer::config::{api_key_list, endpoint_url, endpoint_urls, EthereumConfig};
use chain_indexer::convert::{h256_opt_to_string, h256_to_string, opt_u256_to_i64_loose, option_u64_to_i64, u256_to_i64};
use chain_indexer::error::AppError;
use chain_indexer::filter::{reloads_on, FilterConfig, WatchEvent};
use chain_indexer::supervisor::{next_action, PassOutcome, SupervisorAction, RETRY_INTERVAL_MS};
use chain_indexer::gas::{GasService, TxOptions, TxPriority};
use chain_indexer::hex::to_hex_text;
use chain_indexer::pool::EthereumProvider;
use chain_indexer::repository::{BlockRepository, TransactionRepository};
use chain_indexer::retry::{RetryAdapter, RetryStep};
use chain_indexer::store::transfer_chunks;
use chain_indexer::uint::Uint256;

fn eth_config(rpc_url: &str, api_keys: &str) -> EthereumConfig {
    EthereumConfig {
        rpc_url: rpc_url.to_string(),
        chain_id: 1,
        api_keys: api_keys.to_string(),
        init_height: 0,
        delay: 12,
        max_retries: 3,
        base_delay_secs: 1,
    }
}

#[test]
fn hex_text_of_bytes() {
    assert_eq!(to_hex_text(&[0x00, 0xab, 0x7f]), "0x00ab7f");
    assert_eq!(to_hex_text(&[]), "0x");
    assert_eq!(Address { bytes: [0x1f; 20] }.to_hex(), format!("0x{}", "1f".repeat(20)));
}

#[test]
fn address_parsing() {
    let lower = format!("0x{}", "ab".repeat(20));
    assert_eq!(Address::parse(&lower), Some(Address { bytes: [0xab; 20] }));
    assert_eq!(Address::parse(&"AB".repeat(20)), Some(Address { bytes: [0xab; 20] }));
    let spaced = format!("0x{} {}", "ab".repeat(10), "ab".repeat(10));
    assert_eq!(Address::parse(&spaced), Some(Address { bytes: [0xab; 20] }));
    assert_eq!(Address::parse(&format!("0x{}", "ab".repeat(19))), None);
    assert_eq!(Address::parse(&format!("0x{}", "ab".repeat(21))), None);
    assert_eq!(Address::parse(&format!("0x{}g", "ab".repeat(19))), None);
    assert_eq!(Address::parse(""), None);
    let h = Hash32::parse(&format!("0x{}", "0c".repeat(32))).unwrap();
    assert_eq!(h, Hash32 { bytes: [0x0c; 32] });
    assert_eq!(Hash32::parse(&"0c".repeat(31)), None);
}

#[test]
fn hex_text_reads_back() {
    let a = Address { bytes: [0x5c; 20] };
    assert_eq!(Address::parse(&a.to_hex()), Some(a));
    let h = Hash32 { bytes: [0xe7; 32] };
    assert_eq!(Hash32::parse(&h.to_hex()), Some(h));
}

#[test]
fn address_of_topic_and_equality() {
    let mut t = [0u8; 32];
    for (i, b) in t.iter_mut().enumerate() {
        *b = i as u8;
    }
    let a = Address::from_topic(&Hash32 { bytes: t });
    assert_eq!(a.bytes[0], 12);
    assert_eq!(a.bytes[19], 31);
    assert!(a.same(&a));
    assert!(!a.same(&Address { bytes: [0; 20] }));
    assert!(bytes_equal(&[1, 2], &[1, 2]));
    assert!(!bytes_equal(&[1, 2], &[1]));
}

#[test]
fn uint256_reading_and_limits() {
    let mut b = [0u8; 32];
    b[31] = 0x01;
    b[30] = 0x02;
    assert_eq!(Uint256::from_big_endian(&b), Uint256::from_u64(0x0201));
    let mut high = [0u8; 32];
    high[0] = 0x80;
    assert_eq!(Uint256::from_big_endian(&high), Uint256 { words: [0, 0, 0, 0x8000_0000_0000_0000] });
    assert!(Uint256::zero().is_zero());
    assert!(!Uint256 { words: [0, 0, 0, 1] }.is_zero());
    assert_eq!(Uint256::from_u64(i64::MAX as u64).to_i64(), Some(i64::MAX));
    assert_eq!(Uint256::from_u64(i64::MAX as u64 + 1).to_i64(), None);
    assert_eq!(Uint256 { words: [5, 1, 0, 0] }.to_i64(), None);
}

#[test]
fn conversions() {
    assert!(matches!(option_u64_to_i64(None), Err(AppError::InvalidNumber(_))));
    assert!(matches!(option_u64_to_i64(Some(u64::MAX)), Err(AppError::ConversionError(_))));
    assert_eq!(option_u64_to_i64(Some(42)), Ok(42));
    assert_eq!(u256_to_i64(Uint256::from_u64(7)), Ok(7));
    assert!(matches!(u256_to_i64(Uint256 { words: [0, 0, 0, 9] }), Err(AppError::ConversionError(_))));
    assert_eq!(opt_u256_to_i64_loose(None), Ok(0));
    assert_eq!(opt_u256_to_i64_loose(Some(Uint256::from_u64(3))), Ok(3));
    assert!(matches!(opt_u256_to_i64_loose(Some(Uint256 { words: [0, 2, 0, 0] })), Err(AppError::ConversionError(_))));
    assert_eq!(h256_opt_to_string(None), "");
    assert_eq!(h256_to_string(Hash32 { bytes: [0xef; 32] }), format!("0x{}", "ef".repeat(32)));
    assert_eq!(AppError::new("boom"), AppError::Internal("boom".to_string()));
}

fn block(number: Option<u64>) -> Block {
    Block {
        number,
        hash: Some(Hash32 { bytes: [1; 32] }),
        parent_hash: Hash32 { bytes: [2; 32] },
        gas_used: Uint256::from_u64(30_000_000),
        base_fee_per_gas: Some(Uint256::from_u64(12)),
        timestamp: Uint256::from_u64(1_700_000_000),
        transactions: vec![],
    }
}

#[test]
fn block_rows() {
    let d = BlockDomain::from_ethers(&block(Some(77))).unwrap();
    assert_eq!(d.block_number, 77);
    assert_eq!(d.block_hash, format!("0x{}", "01".repeat(32)));
    assert_eq!(d.parent_hash, format!("0x{}", "02".repeat(32)));
    assert_eq!(d.gas_used, 30_000_000);
    assert_eq!(d.base_fee_per_gas, 12);
    assert_eq!(d.timestamp, 1_700_000_000);
    assert_eq!(d.size, 0);
    assert!(!d.is_empty());
    assert!(matches!(BlockDomain::from_ethers(&block(None)), Err(AppError::InvalidNumber(_))));
    let mut big_gas = block(Some(1));
    big_gas.gas_used = Uint256 { words: [0, 1, 0, 0] };
    assert!(matches!(BlockDomain::from_ethers(&big_gas), Err(AppError::ConversionError(_))));
    let row = d.to_row();
    let q = BlockQuery::try_from(&row).unwrap();
    assert_eq!(q.block_number, 77);
    assert_eq!(q.block_hash, Hash32 { bytes: [1; 32] });
    let negative = BlockRow { block_number: -1, block_hash: row.block_hash.clone(), parent_hash: String::new() };
    assert!(matches!(BlockQuery::try_from(&negative), Err(AppError::Conversion(_))));
    assert!(BlockDomain::new(0, String::new(), String::new(), 0, 0, 0, 0).is_empty());
}

#[test]
fn api_keys_are_split_and_trimmed() {
    assert_eq!(api_key_list(" k1 , ,k2,,\tk3\n"), vec!["k1".to_string(), "k2".to_string(), "k3".to_string()]);
    assert!(api_key_list(" , ").is_empty());
    assert!(api_key_list("").is_empty());
}

#[test]
fn endpoint_urls_from_keys() {
    assert_eq!(endpoint_url("https://eth.example.com/v2/", "abc").unwrap(), "https://eth.example.com/v2/abc");
    assert_eq!(endpoint_url("https://eth.example.com/v3", "abc").unwrap(), "https://eth.example.com/v3/abc");
    assert!(matches!(endpoint_url("not a url", "abc"), Err(AppError::InvalidUrl(_))));
    let urls = endpoint_urls(&eth_config("https://eth.example.com/v2/", "a, b")).unwrap();
    assert_eq!(urls, vec!["https://eth.example.com/v2/a".to_string(), "https://eth.example.com/v2/b".to_string()]);
    assert!(matches!(endpoint_urls(&eth_config("https://eth.example.com/", " , ")), Err(AppError::Validation(_))));
}

#[test]
fn pool_hands_out_round_robin() {
    let mut p = EthereumProvider::new(vec!["a", "b", "c"]).unwrap();
    let picks: Vec<usize> = (0..7).map(|_| p.pick()).collect();
    assert_eq!(picks, vec![0, 1, 2, 0, 1, 2, 0]);
    assert_eq!(*p.get_provider(), "b");
    assert_eq!(p.len(), 3);
    assert!(matches!(EthereumProvider::<u8>::new(vec![]), Err(AppError::Validation(_))));
    let mut last = EthereumProvider { providers: vec![1, 2, 3], index: 2 };
    assert_eq!(last.pick(), 2);
    assert_eq!(last.index, 0);
    assert_eq!(last.pick(), 0);
}

#[test]
fn backoff_waits_and_their_total() {
    let p = RetryAdapter::new(20, 100);
    assert_eq!(p.backoff_delay(1), 100);
    assert_eq!(p.backoff_delay(2), 200);
    assert_eq!(p.backoff_delay(11), 102_400);
    assert_eq!(p.backoff_delay(15), 102_400);
    assert_eq!(p.delay_with_jitter(3, 40), 440);
    let mut total = 0u64;
    for k in 1..=5 {
        match p.next_step(k) {
            RetryStep::Attempt { wait_ms } => total += wait_ms,
            RetryStep::GiveUp => panic!("gave up early"),
        }
    }
    assert!(total >= 100 * 31 && total <= 110 * 31);
    assert_eq!(p.next_step(0), RetryStep::Attempt { wait_ms: 0 });
    assert_eq!(p.next_step(20), RetryStep::GiveUp);
    assert_eq!(RetryAdapter::new(0, 100).next_step(0), RetryStep::GiveUp);
}

#[test]
fn filter_snapshot_holds_exactly_the_listed_addresses() {
    let contracts = vec![format!("0x{}", "cc".repeat(20)), "garbage".to_string()];
    let users = vec![format!("0x{}", "11".repeat(20)), format!("0x{}", "22".repeat(20)), format!("0x{}", "11".repeat(20)), String::new()];
    let f = FilterConfig::from_lines(&contracts, &users);
    assert_eq!(f.contracts, vec![Address { bytes: [0xcc; 20] }]);
    assert_eq!(f.addresses.len(), 3);
    assert!(f.watches_contract(&Address { bytes: [0xcc; 20] }));
    assert!(!f.watches_contract(&Address { bytes: [0x11; 20] }));
    assert!(f.watches_address(&Address { bytes: [0x22; 20] }));
    assert!(!f.watches_address(&Address { bytes: [0x33; 20] }));
}

#[test]
fn transfer_rows_are_written_in_chunks() {
    assert!(transfer_chunks(0).is_empty());
    assert_eq!(transfer_chunks(2500), vec![(0, 1000), (1000, 2000), (2000, 2500)]);
    assert_eq!(transfer_chunks(1000), vec![(0, 1000)]);
    assert_eq!(TransactionRepository::new().batch_ranges(3), vec![(0, 3)]);
    let _ = BlockRepository::new();
}

#[test]
fn fee_policy() {
    assert_eq!(TxPriority::Low.tip_multiplier_percent(), 80);
    assert_eq!(TxPriority::Urgent.tip_multiplier_percent(), 300);
    assert_eq!(TxPriority::High.max_fee_cap_multiplier_percent(), 200);
    assert_eq!(TxPriority::Normal.max_fee_cap_multiplier_percent(), 150);
    assert_eq!(GasService::default().base_tip_percent, 100);
    assert_eq!(GasService::new(110).tip_percent_for(TxPriority::High), Some(165));
    assert_eq!(GasService::new(u128::MAX).tip_percent_for(TxPriority::High), None);
    let o = TxOptions::default();
    assert_eq!(o.priority, TxPriority::Normal);
    assert_eq!((o.gas_limit_buffer, o.confirmations, o.timeout_secs), (120, 1, 300));
}

#[test]
fn supervisor_decisions() {
    assert_eq!(next_action(PassOutcome::Succeeded), SupervisorAction::RunPass);
    assert_eq!(next_action(PassOutcome::Failed), SupervisorAction::SleepThenRun { wait_ms: 1000 });
    assert_eq!(RETRY_INTERVAL_MS, 1000);
    assert_eq!(next_action(PassOutcome::ShutdownRequested), SupervisorAction::Exit);
}

#[test]
fn watcher_events_that_reload() {
    assert!(reloads_on(WatchEvent::Modified));
    assert!(reloads_on(WatchEvent::Created));
    assert!(!reloads_on(WatchEvent::Other));
    assert!(!reloads_on(WatchEvent::Failed));
}
