//! Transfer extraction: which transactions are worth a receipt, and which
//! transfers a transaction with its receipt yields against a watchlist.

use vstd::prelude::*;
use crate::bytes::{bytes_equal, lemma_hex_round_trip, Address, Hash32};
use crate::chain::{Block, Log, Receipt, Transaction};
use crate::error::AppError;
use crate::filter::FilterConfig;
use crate::hex::hex_text;
use crate::transfer::{erc20_view, native_view, status_code, topic_address, views, Transfer, TransferView};
use crate::uint::{be_value, Uint256};

verus! {

/// The selector of `transfer(address,uint256)`.
pub open spec fn transfer_selector() -> Seq<u8> {
    seq![0xa9u8, 0x05u8, 0x9cu8, 0xbbu8]
}

/// The topic of `Transfer(address,address,uint256)`.
pub open spec fn transfer_topic() -> Seq<u8> {
    seq![
        0xddu8, 0xf2u8, 0x52u8, 0xadu8, 0x1bu8, 0xe2u8, 0xc8u8, 0x9bu8,
        0x69u8, 0xc2u8, 0xb0u8, 0x68u8, 0xfcu8, 0x37u8, 0x8du8, 0xaau8,
        0x95u8, 0x2bu8, 0xa7u8, 0xf1u8, 0x63u8, 0xc4u8, 0xa1u8, 0x16u8,
        0x28u8, 0xf5u8, 0x5au8, 0x4du8, 0xf5u8, 0x23u8, 0xb3u8, 0xefu8,
    ]
}

/// A plain ETH payment (no input, some value) or a call of the ERC-20
/// `transfer` method (its selector first, no value), to some address.
pub open spec fn is_target(tx: Transaction) -> bool {
    &&& tx.to is Some
    &&& if tx.input@.len() == 0 {
        tx.value@ > 0
    } else {
        tx.input@.len() >= 4 && tx.input@.subrange(0, 4) == transfer_selector() && tx.value@ == 0
    }
}

/// The sender or the receiver is a watched user, or the receiver a watched contract.
pub open spec fn touches_watchlist(tx: Transaction, f: FilterConfig) -> bool {
    f.address_set().contains(tx.from@) || (tx.to matches Some(t) && (f.address_set().contains(t@)
        || f.contract_set().contains(t@)))
}

/// The transactions whose receipt is fetched.
pub open spec fn needs_receipt(tx: Transaction, f: FilterConfig) -> bool {
    is_target(tx) && touches_watchlist(tx, f)
}

/// A receipt that was obtained and reports success.
pub open spec fn receipt_accepted(r: Option<Receipt>) -> bool {
    r matches Some(rc) && rc.status == Some(1u64)
}

pub open spec fn native_selected(tx: Transaction, f: FilterConfig) -> bool {
    &&& tx.to is Some
    &&& tx.value@ != 0
    &&& f.address_set().contains(tx.from@) || f.address_set().contains(tx.to->0@)
}

/// An ERC-20 `Transfer` log in shape: three topics, the event's topic first,
/// and a 32-byte amount.
pub open spec fn is_transfer_log(log: Log) -> bool {
    log.topics@.len() == 3 && log.topics@[0]@ == transfer_topic() && log.data@.len() == 32
}

pub open spec fn log_selected(log: Log, f: FilterConfig) -> bool {
    &&& is_transfer_log(log)
    &&& f.contract_set().contains(log.address@)
    &&& f.address_set().contains(topic_address(log, 1)) || f.address_set().contains(
        topic_address(log, 2),
    )
}

/// The log's index, zero when absent.
pub open spec fn log_index_of(log: Log) -> int {
    match log.log_index {
        Some(v) => v@ as int,
        None => 0,
    }
}

/// The log's index, if any, fits an `i64`.
pub open spec fn index_fits(log: Log) -> bool {
    log.log_index matches Some(v) ==> v@ <= i64::MAX
}

/// Every selected log of a list has an index that fits an `i64`.
pub open spec fn logs_fit(logs: Seq<Log>, f: FilterConfig) -> bool {
    forall|i: int| 0 <= i < logs.len() && log_selected(#[trigger] logs[i], f) ==> index_fits(logs[i])
}

/// Every processed transaction of a block has selected logs whose indexes
/// fit an `i64`; an index beyond it is fatal for the block.
pub open spec fn block_logs_fit(txs: Seq<Transaction>, rs: Seq<Option<Receipt>>, f: FilterConfig) -> bool {
    forall|k: int| 0 <= k < txs.len() && #[trigger] processed(txs, rs, k, f) ==> logs_fit(rs[k]->0.logs@, f)
}

/// The ERC-20 transfers of the selected logs, in log order.
pub open spec fn log_transfers(
    tx: Transaction,
    logs: Seq<Log>,
    r: Receipt,
    bn: int,
    ts: int,
    f: FilterConfig,
) -> Seq<TransferView>
    decreases logs.len(),
{
    if logs.len() == 0 {
        Seq::empty()
    } else {
        let prev = log_transfers(tx, logs.drop_last(), r, bn, ts, f);
        let log = logs.last();
        if log_selected(log, f) {
            prev.push(erc20_view(tx, log, r, bn, hex_text(tx.hash@), ts, be_value(log.data@), log_index_of(log)))
        } else {
            prev
        }
    }
}

/// The transfers of one transaction: its native transfer, if selected, then
/// the ERC-20 transfers of its receipt.
pub open spec fn transaction_transfers(tx: Transaction, r: Receipt, bn: int, ts: int, f: FilterConfig) -> Seq<TransferView> {
    let native = if native_selected(tx, f) {
        seq![native_view(tx, r, bn, ts, 0)]
    } else {
        Seq::empty()
    };
    native + log_transfers(tx, r.logs@, r, bn, ts, f)
}

/// Whether transaction `k` is processed: it needs a receipt and its receipt
/// was obtained with success.
pub open spec fn processed(txs: Seq<Transaction>, rs: Seq<Option<Receipt>>, k: int, f: FilterConfig) -> bool {
    needs_receipt(txs[k], f) && receipt_accepted(rs[k])
}

/// The transfers of the first `n` transactions of a block, in order.
pub open spec fn block_transfers(
    txs: Seq<Transaction>,
    rs: Seq<Option<Receipt>>,
    n: nat,
    bn: int,
    ts: int,
    f: FilterConfig,
) -> Seq<TransferView>
    decreases n,
{
    if n == 0 {
        Seq::empty()
    } else {
        let k = n - 1;
        let prev = block_transfers(txs, rs, k as nat, bn, ts, f);
        if processed(txs, rs, k, f) {
            prev + transaction_transfers(txs[k], rs[k]->0, bn, ts, f)
        } else {
            prev
        }
    }
}

/// How many of the first `n` transactions were skipped.
pub open spec fn skipped_count(txs: Seq<Transaction>, rs: Seq<Option<Receipt>>, n: nat, f: FilterConfig) -> nat
    decreases n,
{
    if n == 0 {
        0
    } else {
        let k = n - 1;
        skipped_count(txs, rs, k as nat, f) + if processed(txs, rs, k, f) { 0nat } else { 1nat }
    }
}

proof fn lemma_skipped_bound(txs: Seq<Transaction>, rs: Seq<Option<Receipt>>, n: nat, f: FilterConfig)
    ensures
        skipped_count(txs, rs, n, f) <= n,
    decreases n,
{
    if n > 0 {
        lemma_skipped_bound(txs, rs, (n - 1) as nat, f);
    }
}

proof fn lemma_views_push(v: Seq<Transfer>, t: Transfer)
    ensures
        views(v.push(t)) == views(v).push(t@),
{
    assert(views(v.push(t)) =~= views(v).push(t@));
}

proof fn lemma_views_concat(a: Seq<Transfer>, b: Seq<Transfer>)
    ensures
        views(a + b) == views(a) + views(b),
{
    assert(views(a + b) =~= views(a) + views(b));
}

proof fn lemma_log_step(tx: Transaction, logs: Seq<Log>, i: int, r: Receipt, bn: int, ts: int, f: FilterConfig)
    requires
        0 <= i < logs.len(),
    ensures
        log_transfers(tx, logs.subrange(0, i + 1), r, bn, ts, f) == (if log_selected(logs[i], f) {
            log_transfers(tx, logs.subrange(0, i), r, bn, ts, f).push(
                erc20_view(tx, logs[i], r, bn, hex_text(tx.hash@), ts, be_value(logs[i].data@), log_index_of(logs[i])),
            )
        } else {
            log_transfers(tx, logs.subrange(0, i), r, bn, ts, f)
        }),
{
    assert(logs.subrange(0, i + 1).drop_last() =~= logs.subrange(0, i));
}

proof fn lemma_log_transfers_rows(tx: Transaction, logs: Seq<Log>, r: Receipt, bn: int, ts: int, f: FilterConfig)
    ensures
        forall|k: int| 0 <= k < log_transfers(tx, logs, r, bn, ts, f).len() ==> (#[trigger] log_transfers(tx, logs, r, bn, ts, f)[k]).block_number == bn
            && log_transfers(tx, logs, r, bn, ts, f)[k].status == status_code(r),
    decreases logs.len(),
{
    if logs.len() > 0 {
        lemma_log_transfers_rows(tx, logs.drop_last(), r, bn, ts, f);
    }
}

proof fn lemma_block_transfers_rows_upto(txs: Seq<Transaction>, rs: Seq<Option<Receipt>>, n: nat, bn: int, ts: int, f: FilterConfig)
    ensures
        forall|k: int| 0 <= k < block_transfers(txs, rs, n, bn, ts, f).len() ==> (#[trigger] block_transfers(txs, rs, n, bn, ts, f)[k]).block_number == bn
            && block_transfers(txs, rs, n, bn, ts, f)[k].status == 1,
    decreases n,
{
    if n > 0 {
        let k0 = n - 1;
        lemma_block_transfers_rows_upto(txs, rs, k0 as nat, bn, ts, f);
        if processed(txs, rs, k0, f) {
            let r = rs[k0]->0;
            let tx = txs[k0];
            lemma_log_transfers_rows(tx, r.logs@, r, bn, ts, f);
            assert(status_code(r) == 1);
            let prev = block_transfers(txs, rs, k0 as nat, bn, ts, f);
            let tt = transaction_transfers(tx, r, bn, ts, f);
            let lt = log_transfers(tx, r.logs@, r, bn, ts, f);
            let native = if native_selected(tx, f) { seq![native_view(tx, r, bn, ts, 0)] } else { Seq::<TransferView>::empty() };
            assert(tt == native + lt);
            assert forall|k: int| 0 <= k < tt.len() implies (#[trigger] tt[k]).block_number == bn && tt[k].status == 1 by {
                if k >= native.len() {
                    assert(tt[k] == lt[k - native.len()]);
                }
            }
            let all = prev + tt;
            assert forall|k: int| 0 <= k < all.len() implies (#[trigger] all[k]).block_number == bn && all[k].status == 1 by {
                if k < prev.len() {
                    assert(all[k] == prev[k]);
                } else {
                    assert(all[k] == tt[k - prev.len()]);
                }
            }
        }
    }
}

/// Every transfer extracted from a block carries the block's number and the
/// success status.
pub proof fn lemma_block_transfers_rows(txs: Seq<Transaction>, rs: Seq<Option<Receipt>>, bn: int, ts: int, f: FilterConfig)
    ensures
        forall|k: int| 0 <= k < block_transfers(txs, rs, txs.len(), bn, ts, f).len() ==> (#[trigger] block_transfers(txs, rs, txs.len(), bn, ts, f)[k]).block_number == bn
            && block_transfers(txs, rs, txs.len(), bn, ts, f)[k].status == 1,
{
    lemma_block_transfers_rows_upto(txs, rs, txs.len(), bn, ts, f);
}

proof fn lemma_log_transfers_hash(tx: Transaction, logs: Seq<Log>, r: Receipt, bn: int, ts: int, f: FilterConfig)
    ensures
        forall|k: int| 0 <= k < log_transfers(tx, logs, r, bn, ts, f).len() ==> (#[trigger] log_transfers(tx, logs, r, bn, ts, f)[k]).tx_hash == hex_text(tx.hash@),
    decreases logs.len(),
{
    if logs.len() > 0 {
        lemma_log_transfers_hash(tx, logs.drop_last(), r, bn, ts, f);
    }
}

proof fn lemma_block_transfers_hash(txs: Seq<Transaction>, rs: Seq<Option<Receipt>>, n: nat, bn: int, ts: int, f: FilterConfig)
    ensures
        forall|e: int| 0 <= e < block_transfers(txs, rs, n, bn, ts, f).len() ==> exists|j: int| 0 <= j < n && processed(txs, rs, j, f)
            && (#[trigger] block_transfers(txs, rs, n, bn, ts, f)[e]).tx_hash == hex_text(txs[j].hash@),
    decreases n,
{
    if n > 0 {
        let k0 = n - 1;
        lemma_block_transfers_hash(txs, rs, k0 as nat, bn, ts, f);
        let prev = block_transfers(txs, rs, k0 as nat, bn, ts, f);
        let all = block_transfers(txs, rs, n, bn, ts, f);
        if processed(txs, rs, k0, f) {
            let r = rs[k0]->0;
            let tx = txs[k0];
            lemma_log_transfers_hash(tx, r.logs@, r, bn, ts, f);
            let tt = transaction_transfers(tx, r, bn, ts, f);
            let lt = log_transfers(tx, r.logs@, r, bn, ts, f);
            let native = if native_selected(tx, f) { seq![native_view(tx, r, bn, ts, 0)] } else { Seq::<TransferView>::empty() };
            assert(tt == native + lt);
            assert forall|e: int| 0 <= e < all.len() implies exists|j: int| 0 <= j < n && processed(txs, rs, j, f)
                && (#[trigger] all[e]).tx_hash == hex_text(txs[j].hash@) by {
                if e < prev.len() {
                    assert(all[e] == prev[e]);
                    let j = choose|j: int| 0 <= j < k0 && processed(txs, rs, j, f) && prev[e].tx_hash == hex_text(txs[j].hash@);
                } else {
                    assert(all[e] == tt[e - prev.len()]);
                    if e - prev.len() >= native.len() {
                        assert(tt[e - prev.len()] == lt[e - prev.len() - native.len()]);
                    }
                    assert(all[e].tx_hash == hex_text(txs[k0].hash@));
                }
            }
        } else {
            assert forall|e: int| 0 <= e < all.len() implies exists|j: int| 0 <= j < n && processed(txs, rs, j, f)
                && (#[trigger] all[e]).tx_hash == hex_text(txs[j].hash@) by {
                let j = choose|j: int| 0 <= j < k0 && processed(txs, rs, j, f) && prev[e].tx_hash == hex_text(txs[j].hash@);
            }
        }
    }
}

/// A transaction that is skipped (no receipt needed, none obtained, or a
/// failed one) leaves no transfer carrying its hash, when no other
/// transaction of the block has the same hash.
pub proof fn lemma_skipped_transaction_leaves_no_transfer(
    txs: Seq<Transaction>,
    rs: Seq<Option<Receipt>>,
    bn: int,
    ts: int,
    f: FilterConfig,
    k: int,
)
    requires
        0 <= k < txs.len(),
        !processed(txs, rs, k, f),
        forall|j: int| 0 <= j < txs.len() && j != k ==> (#[trigger] txs[j]).hash@ != txs[k].hash@,
    ensures
        forall|e: int| 0 <= e < block_transfers(txs, rs, txs.len(), bn, ts, f).len() ==> (#[trigger] block_transfers(
            txs, rs, txs.len(), bn, ts, f)[e]).tx_hash != hex_text(txs[k].hash@),
{
    lemma_block_transfers_hash(txs, rs, txs.len(), bn, ts, f);
    let all = block_transfers(txs, rs, txs.len(), bn, ts, f);
    assert forall|e: int| 0 <= e < all.len() implies (#[trigger] all[e]).tx_hash != hex_text(txs[k].hash@) by {
        let j = choose|j: int| 0 <= j < txs.len() && processed(txs, rs, j, f) && all[e].tx_hash == hex_text(txs[j].hash@);
        lemma_hex_round_trip(txs[j].hash@);
        lemma_hex_round_trip(txs[k].hash@);
        assert(txs[j].hash@ != txs[k].hash@);
    }
}

proof fn lemma_unwatched_upto(txs: Seq<Transaction>, rs: Seq<Option<Receipt>>, n: nat, bn: int, ts: int, f: FilterConfig)
    requires
        n <= txs.len(),
        forall|k: int| 0 <= k < txs.len() ==> !needs_receipt(#[trigger] txs[k], f),
    ensures
        block_transfers(txs, rs, n, bn, ts, f).len() == 0,
        skipped_count(txs, rs, n, f) == n,
    decreases n,
{
    if n > 0 {
        lemma_unwatched_upto(txs, rs, (n - 1) as nat, bn, ts, f);
        assert(!needs_receipt(txs[n - 1], f));
    }
}

/// A block none of whose transactions needs a receipt (among them, a block
/// with no transaction) yields no transfer, skips every transaction, and
/// has nothing that could fail it.
pub proof fn lemma_unwatched_block(txs: Seq<Transaction>, rs: Seq<Option<Receipt>>, bn: int, ts: int, f: FilterConfig)
    requires
        forall|k: int| 0 <= k < txs.len() ==> !needs_receipt(#[trigger] txs[k], f),
    ensures
        block_transfers(txs, rs, txs.len(), bn, ts, f).len() == 0,
        skipped_count(txs, rs, txs.len(), f) == txs.len(),
        block_logs_fit(txs, rs, f),
{
    lemma_unwatched_upto(txs, rs, txs.len(), bn, ts, f);
}

proof fn lemma_unwatched_logs(tx: Transaction, logs: Seq<Log>, r: Receipt, bn: int, ts: int, f: FilterConfig)
    requires
        forall|i: int| 0 <= i < logs.len() ==> !f.contract_set().contains((#[trigger] logs[i]).address@),
    ensures
        log_transfers(tx, logs, r, bn, ts, f).len() == 0,
    decreases logs.len(),
{
    if logs.len() > 0 {
        let l = logs.drop_last();
        assert forall|i: int| 0 <= i < l.len() implies !f.contract_set().contains((#[trigger] l[i]).address@) by {
            assert(l[i] == logs[i]);
        }
        lemma_unwatched_logs(tx, l, r, bn, ts, f);
        assert(!f.contract_set().contains(logs[logs.len() - 1].address@));
    }
}

/// A token call (no value) whose receipt's logs all come from unwatched
/// contracts yields no transfer, whoever sent it.
pub proof fn lemma_unwatched_contract_yields_nothing(tx: Transaction, r: Receipt, bn: int, ts: int, f: FilterConfig)
    requires
        tx.value@ == 0,
        forall|i: int| 0 <= i < r.logs@.len() ==> !f.contract_set().contains((#[trigger] r.logs@[i]).address@),
    ensures
        transaction_transfers(tx, r, bn, ts, f).len() == 0,
        logs_fit(r.logs@, f),
{
    lemma_unwatched_logs(tx, r.logs@, r, bn, ts, f);
}

fn is_transfer_topic(t: &Hash32) -> (r: bool)
    ensures
        r == (t@ == transfer_topic()),
{
    let k: [u8; 32] = [
        0xdd, 0xf2, 0x52, 0xad, 0x1b, 0xe2, 0xc8, 0x9b,
        0x69, 0xc2, 0xb0, 0x68, 0xfc, 0x37, 0x8d, 0xaa,
        0x95, 0x2b, 0xa7, 0xf1, 0x63, 0xc4, 0xa1, 0x16,
        0x28, 0xf5, 0x5a, 0x4d, 0xf5, 0x23, 0xb3, 0xef,
    ];
    proof { assert(k@ =~= transfer_topic()); }
    bytes_equal(t.bytes.as_slice(), k.as_slice())
}

/// Whether a transaction is a plain ETH payment or an ERC-20 `transfer` call.
pub fn is_target_transaction(tx: &Transaction) -> (r: bool)
    ensures
        r == is_target(*tx),
{
    if tx.to.is_none() {
        return false;
    }
    if tx.input.len() == 0 {
        return !tx.value.is_zero();
    }
    if tx.input.len() >= 4 {
        let s = tx.input[0] == 0xa9 && tx.input[1] == 0x05 && tx.input[2] == 0x9c && tx.input[3] == 0xbb;
        proof {
            assert(s == (tx.input@.subrange(0, 4) =~= transfer_selector()));
        }
        if s {
            return tx.value.is_zero();
        }
    }
    false
}

/// Whether a transaction touches the watchlist.
pub fn is_potential_target(tx: &Transaction, filter: &FilterConfig) -> (r: bool)
    ensures
        r == touches_watchlist(*tx, *filter),
{
    if filter.watches_address(&tx.from) {
        return true;
    }
    match &tx.to {
        Some(to) => filter.watches_address(to) || filter.watches_contract(to),
        None => false,
    }
}

/// Whether the receipt of a transaction is to be fetched.
pub fn needs_receipt_of(tx: &Transaction, filter: &FilterConfig) -> (r: bool)
    ensures
        r == needs_receipt(*tx, *filter),
{
    is_target_transaction(tx) && is_potential_target(tx, filter)
}

fn log_is_selected(log: &Log, filter: &FilterConfig) -> (r: bool)
    ensures
        r == log_selected(*log, *filter),
{
    if !(log.topics.len() == 3 && is_transfer_topic(&log.topics[0]) && log.data.len() == 32) {
        return false;
    }
    let from = Address::from_topic(&log.topics[1]);
    let to = Address::from_topic(&log.topics[2]);
    filter.watches_contract(&log.address) && (filter.watches_address(&from)
        || filter.watches_address(&to))
}

fn log_index_value(log: &Log) -> (r: Option<i64>)
    ensures
        r is Some <==> index_fits(*log),
        r matches Some(i) ==> i == log_index_of(*log),
{
    match &log.log_index {
        Some(v) => v.to_i64(),
        None => Some(0),
    }
}

/// Appends the ERC-20 transfer of a log, when the log is selected.
fn push_log_transfer(
    transfers: &mut Vec<Transfer>,
    tx: &Transaction,
    log: &Log,
    receipt: &Receipt,
    block_number: i64,
    block_timestamp: i64,
    filter: &FilterConfig,
) -> (ok: bool)
    ensures
        ok == (log_selected(*log, *filter) ==> index_fits(*log)),
        ok ==> views(final(transfers)@) == (if log_selected(*log, *filter) {
            views(old(transfers)@).push(erc20_view(*tx, *log, *receipt, block_number as int,
                hex_text(tx.hash@), block_timestamp as int, be_value(log.data@), log_index_of(*log)))
        } else {
            views(old(transfers)@)
        }),
{
    if log_is_selected(log, filter) {
        let index = match log_index_value(log) {
            Some(i) => i,
            None => return false,
        };
        let value = Uint256::from_big_endian(log.data.as_slice());
        let t = Transfer::from_erc20_log(
            tx,
            log,
            receipt,
            block_number,
            tx.hash.to_hex(),
            block_timestamp,
            value,
            index,
        );
        let ghost before = transfers@;
        transfers.push(t);
        proof {
            lemma_views_push(before, t);
        }
    }
    true
}

/// Appends the ERC-20 transfers of every selected log of a receipt; false
/// when a selected log's index does not fit an `i64`.
fn push_receipt_transfers(
    transfers: &mut Vec<Transfer>,
    tx: &Transaction,
    receipt: &Receipt,
    block_number: i64,
    block_timestamp: i64,
    filter: &FilterConfig,
) -> (ok: bool)
    ensures
        ok == logs_fit(receipt.logs@, *filter),
        ok ==> views(final(transfers)@) == views(old(transfers)@) + log_transfers(*tx, receipt.logs@, *receipt,
            block_number as int, block_timestamp as int, *filter),
{
    let ghost start = views(transfers@);
    let ghost bn = block_number as int;
    let ghost ts = block_timestamp as int;
    let mut i: usize = 0;
    while i < receipt.logs.len()
        invariant
            0 <= i <= receipt.logs@.len(),
            bn == block_number as int,
            ts == block_timestamp as int,
            views(transfers@) == start + log_transfers(*tx, receipt.logs@.subrange(0, i as int), *receipt, bn, ts, *filter),
            forall|j: int| 0 <= j < i && log_selected(#[trigger] receipt.logs@[j], *filter) ==> index_fits(receipt.logs@[j]),
        decreases receipt.logs.len() - i,
    {
        proof {
            lemma_log_step(*tx, receipt.logs@, i as int, *receipt, bn, ts, *filter);
        }
        let ghost lt = log_transfers(*tx, receipt.logs@.subrange(0, i as int), *receipt, bn, ts, *filter);
        if !push_log_transfer(transfers, tx, &receipt.logs[i], receipt, block_number, block_timestamp, filter) {
            return false;
        }
        proof {
            let log = receipt.logs@[i as int];
            if log_selected(log, *filter) {
                let x = erc20_view(*tx, log, *receipt, bn, hex_text(tx.hash@), ts, be_value(log.data@), log_index_of(log));
                assert((start + lt).push(x) =~= start + lt.push(x));
            }
        }
        i = i + 1;
    }
    proof {
        assert(receipt.logs@.subrange(0, receipt.logs@.len() as int) =~= receipt.logs@);
    }
    true
}

impl Transfer {
    /// The transfers of one transaction, given its receipt. A selected log
    /// whose index does not fit an `i64` is a `ConversionError`.
    pub fn process_transaction(
        tx: &Transaction,
        receipt: &Receipt,
        block_number: i64,
        block_timestamp: i64,
        filter: &FilterConfig,
    ) -> (r: Result<Vec<Transfer>, AppError>)
        ensures
            r is Ok <==> logs_fit(receipt.logs@, *filter),
            r matches Err(e) ==> e is ConversionError,
            r matches Ok(v) ==> views(v@) == transaction_transfers(*tx, *receipt, block_number as int, block_timestamp as int, *filter),
    {
        let mut transfers: Vec<Transfer> = Vec::new();
        if let Some(to_addr) = &tx.to {
            if !tx.value.is_zero() && (filter.watches_address(&tx.from) || filter.watches_address(to_addr)) {
                transfers.push(Transfer::from_eth_tx(tx, receipt, block_number, block_timestamp, 0));
            }
        }
        proof {
            assert(views(transfers@) =~= (if native_selected(*tx, *filter) {
                seq![native_view(*tx, *receipt, block_number as int, block_timestamp as int, 0)]
            } else {
                Seq::<TransferView>::empty()
            }));
        }
        if push_receipt_transfers(&mut transfers, tx, receipt, block_number, block_timestamp, filter) {
            Ok(transfers)
        } else {
            Err(AppError::ConversionError("log index does not fit i64".to_string()))
        }
    }
}

/// Extracts the transfers of a block.
pub struct EventParser {}

impl EventParser {
    pub fn new() -> (r: EventParser) {
        EventParser {}
    }

    /// The transfers of a block and the number of skipped transactions.
    /// `receipts[k]` is what fetching the receipt of transaction `k` gave:
    /// absent when the node had none or every attempt failed. A receipt is
    /// only read for a transaction that `needs_receipt_of` selects. A
    /// processed log whose index does not fit an `i64` fails the block with
    /// `ConversionError`.
    pub fn parse_transfers_from_block(
        &self,
        block: &Block,
        block_number: i64,
        block_timestamp: i64,
        filter: &FilterConfig,
        receipts: &Vec<Option<Receipt>>,
    ) -> (r: Result<(Vec<Transfer>, usize), AppError>)
        requires
            receipts@.len() == block.transactions@.len(),
        ensures
            r is Ok <==> block_logs_fit(block.transactions@, receipts@, *filter),
            r matches Err(e) ==> e is ConversionError,
            r matches Ok(p) ==> views(p.0@) == block_transfers(
                block.transactions@,
                receipts@,
                block.transactions@.len(),
                block_number as int,
                block_timestamp as int,
                *filter,
            ),
            r matches Ok(p) ==> p.1 == skipped_count(block.transactions@, receipts@, block.transactions@.len(), *filter),
    {
        let txs = &block.transactions;
        let ghost bn = block_number as int;
        let ghost ts = block_timestamp as int;
        let mut transfers: Vec<Transfer> = Vec::new();
        let mut skipped: usize = 0;
        let mut i: usize = 0;
        while i < txs.len()
            invariant
                0 <= i <= txs@.len(),
                bn == block_number as int,
                ts == block_timestamp as int,
                txs@ == block.transactions@,
                receipts@.len() == txs@.len(),
                views(transfers@) == block_transfers(txs@, receipts@, i as nat, bn, ts, *filter),
                skipped == skipped_count(txs@, receipts@, i as nat, *filter),
                forall|k: int| 0 <= k < i && #[trigger] processed(txs@, receipts@, k, *filter) ==> logs_fit(receipts@[k]->0.logs@, *filter),
            decreases txs.len() - i,
        {
            proof { lemma_skipped_bound(txs@, receipts@, i as nat, *filter); }
            let tx = &txs[i];
            let ghost before_all = transfers@;
            let mut accepted = false;
            if needs_receipt_of(tx, filter) {
                match &receipts[i] {
                    Some(rc) => {
                        let ok = match rc.status {
                            Some(s) => s == 1,
                            None => false,
                        };
                        if ok {
                            accepted = true;
                            let mut found = match Transfer::process_transaction(tx, rc, block_number, block_timestamp, filter) {
                                Ok(v) => v,
                                Err(e) => {
                                    proof {
                                        assert(processed(txs@, receipts@, i as int, *filter));
                                    }
                                    return Err(e);
                                },
                            };
                            let ghost added = found@;
                            transfers.append(&mut found);
                            proof {
                                lemma_views_concat(before_all, added);
                                assert(*tx == txs@[i as int]);
                                assert(*rc == receipts@[i as int]->0);
                            }
                        }
                    },
                    None => {},
                }
            }
            proof {
                assert(accepted == processed(txs@, receipts@, i as int, *filter));
                assert(block_transfers(txs@, receipts@, (i + 1) as nat, bn, ts, *filter) == (if processed(txs@, receipts@, i as int, *filter) {
                    block_transfers(txs@, receipts@, i as nat, bn, ts, *filter) + transaction_transfers(txs@[i as int], receipts@[i as int]->0, bn, ts, *filter)
                } else {
                    block_transfers(txs@, receipts@, i as nat, bn, ts, *filter)
                }));
            }
            if !accepted {
                skipped = skipped + 1;
            }
            i = i + 1;
        }
        Ok((transfers, skipped))
    }
}

} // verus!
