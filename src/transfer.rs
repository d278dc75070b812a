//! A transfer row: one native ETH movement or one ERC-20 `Transfer` event that
//! touches the watchlist.

use vstd::prelude::*;
use crate::bytes::Address;
use crate::chain::{Log, Receipt, Transaction};
use crate::hex::hex_text;
use crate::uint::Uint256;

verus! {

#[derive(Clone, Debug, PartialEq, Eq)]
pub struct Transfer {
    pub block_number: i64,
    pub tx_hash: String,
    pub from_address: String,
    pub to_address: String,
    pub amount: Uint256,
    /// Present for an ERC-20 transfer, absent for native ETH.
    pub contract_address: Option<String>,
    pub timestamp: i64,
    pub gas: Uint256,
    pub max_fee_per_gas: Uint256,
    pub status: i16,
    pub log_index: i64,
}

/// The mathematical content of a transfer.
pub struct TransferView {
    pub block_number: int,
    pub tx_hash: Seq<char>,
    pub from_address: Seq<char>,
    pub to_address: Seq<char>,
    pub amount: nat,
    pub contract_address: Option<Seq<char>>,
    pub timestamp: int,
    pub gas: nat,
    pub max_fee_per_gas: nat,
    pub status: int,
    pub log_index: int,
}

impl View for Transfer {
    type V = TransferView;

    open spec fn view(&self) -> TransferView {
        TransferView {
            block_number: self.block_number as int,
            tx_hash: self.tx_hash@,
            from_address: self.from_address@,
            to_address: self.to_address@,
            amount: self.amount@,
            contract_address: match self.contract_address {
                Some(c) => Some(c@),
                None => None,
            },
            timestamp: self.timestamp as int,
            gas: self.gas@,
            max_fee_per_gas: self.max_fee_per_gas@,
            status: self.status as int,
            log_index: self.log_index as int,
        }
    }
}

/// The views of a sequence of transfers.
pub open spec fn views(v: Seq<Transfer>) -> Seq<TransferView> {
    v.map_values(|t: Transfer| t@)
}

/// The fee cap of a transaction, zero when it has none.
pub open spec fn fee_cap(tx: Transaction) -> nat {
    match tx.max_fee_per_gas {
        Some(f) => f@,
        None => 0,
    }
}

/// The receipt's status as a 16-bit code, zero when absent.
pub open spec fn status_code(r: Receipt) -> int {
    match r.status {
        Some(s) => (s as i16) as int,
        None => 0,
    }
}

/// The gas that a receipt reports, zero when absent.
pub open spec fn gas_used_or_zero(r: Receipt) -> nat {
    match r.gas_used {
        Some(g) => g@,
        None => 0,
    }
}

/// The address that topic `k` of a log carries.
pub open spec fn topic_address(log: Log, k: int) -> Seq<u8> {
    log.topics@[k]@.subrange(12, 32)
}

pub open spec fn native_view(tx: Transaction, r: Receipt, bn: int, ts: int, log_index: int) -> TransferView {
    TransferView {
        block_number: bn,
        tx_hash: hex_text(tx.hash@),
        from_address: hex_text(tx.from@),
        to_address: match tx.to {
            Some(t) => hex_text(t@),
            None => Seq::empty(),
        },
        amount: tx.value@,
        contract_address: None,
        timestamp: ts,
        gas: tx.gas@,
        max_fee_per_gas: fee_cap(tx),
        status: status_code(r),
        log_index,
    }
}

pub open spec fn erc20_view(
    tx: Transaction,
    log: Log,
    r: Receipt,
    bn: int,
    tx_hash: Seq<char>,
    ts: int,
    amount: nat,
    log_index: int,
) -> TransferView {
    TransferView {
        block_number: bn,
        tx_hash,
        from_address: hex_text(topic_address(log, 1)),
        to_address: hex_text(topic_address(log, 2)),
        amount,
        contract_address: Some(hex_text(log.address@)),
        timestamp: ts,
        gas: gas_used_or_zero(r),
        max_fee_per_gas: fee_cap(tx),
        status: status_code(r),
        log_index,
    }
}

fn fee_cap_of(tx: &Transaction) -> (r: Uint256)
    ensures
        r@ == fee_cap(*tx),
{
    match &tx.max_fee_per_gas {
        Some(f) => *f,
        None => Uint256::zero(),
    }
}

fn status_of(r: &Receipt) -> (s: i16)
    ensures
        s == status_code(*r),
{
    match r.status {
        Some(v) => {
            #[verifier::truncate]
            let c = v as i16;
            c
        },
        None => 0,
    }
}

impl Transfer {
    pub fn new(
        block_number: i64,
        tx_hash: String,
        from_address: String,
        to_address: String,
        amount: Uint256,
        contract_address: Option<String>,
        timestamp: i64,
        gas: Uint256,
        max_fee_per_gas: Uint256,
        status: i16,
        log_index: i64,
    ) -> (r: Transfer)
        ensures
            r.block_number == block_number,
            r.tx_hash == tx_hash,
            r.from_address == from_address,
            r.to_address == to_address,
            r.amount == amount,
            r.contract_address == contract_address,
            r.timestamp == timestamp,
            r.gas == gas,
            r.max_fee_per_gas == max_fee_per_gas,
            r.status == status,
            r.log_index == log_index,
    {
        Transfer {
            block_number,
            tx_hash,
            from_address,
            to_address,
            amount,
            contract_address,
            timestamp,
            gas,
            max_fee_per_gas,
            status,
            log_index,
        }
    }

    /// The native ETH transfer of a transaction.
    pub fn from_eth_tx(
        tx: &Transaction,
        receipt: &Receipt,
        block_number: i64,
        timestamp: i64,
        log_index: i64,
    ) -> (r: Transfer)
        ensures
            r@ == native_view(*tx, *receipt, block_number as int, timestamp as int, log_index as int),
    {
        let to_address = match &tx.to {
            Some(t) => t.to_hex(),
            None => String::new(),
        };
        Transfer {
            block_number,
            tx_hash: tx.hash.to_hex(),
            from_address: tx.from.to_hex(),
            to_address,
            amount: tx.value,
            contract_address: None,
            timestamp,
            gas: tx.gas,
            max_fee_per_gas: fee_cap_of(tx),
            status: status_of(receipt),
            log_index,
        }
    }

    /// The ERC-20 transfer that a `Transfer` log records: sender and receiver
    /// come from topics 1 and 2.
    pub fn from_erc20_log(
        tx: &Transaction,
        log: &Log,
        receipt: &Receipt,
        block_number: i64,
        tx_hash: String,
        timestamp: i64,
        amount: Uint256,
        log_index: i64,
    ) -> (r: Transfer)
        requires
            log.topics@.len() >= 3,
        ensures
            r@ == erc20_view(
                *tx,
                *log,
                *receipt,
                block_number as int,
                tx_hash@,
                timestamp as int,
                amount@,
                log_index as int,
            ),
    {
        let gas = match &receipt.gas_used {
            Some(g) => *g,
            None => Uint256::zero(),
        };
        Transfer {
            block_number,
            tx_hash,
            from_address: Address::from_topic(&log.topics[1]).to_hex(),
            to_address: Address::from_topic(&log.topics[2]).to_hex(),
            amount,
            contract_address: Some(log.address.to_hex()),
            timestamp,
            gas,
            max_fee_per_gas: fee_cap_of(tx),
            status: status_of(receipt),
            log_index,
        }
    }
}

} // verus!
