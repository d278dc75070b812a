//! Blocks, transactions, receipts and logs as the node reports them, reduced
//! to the fields that indexing reads.

use vstd::prelude::*;
use crate::bytes::{Address, Hash32};
use crate::uint::Uint256;

verus! {

#[derive(Clone, Debug, PartialEq, Eq)]
pub struct Transaction {
    pub hash: Hash32,
    pub from: Address,
    /// Absent for a contract creation.
    pub to: Option<Address>,
    pub value: Uint256,
    pub input: Vec<u8>,
    pub gas: Uint256,
    pub max_fee_per_gas: Option<Uint256>,
}

#[derive(Clone, Debug, PartialEq, Eq)]
pub struct Log {
    /// The contract that emitted the log.
    pub address: Address,
    pub topics: Vec<Hash32>,
    pub data: Vec<u8>,
    pub log_index: Option<Uint256>,
}

#[derive(Clone, Debug, PartialEq, Eq)]
pub struct Receipt {
    /// `1` for success, `0` for failure; absent on old nodes.
    pub status: Option<u64>,
    pub gas_used: Option<Uint256>,
    pub logs: Vec<Log>,
}

#[derive(Clone, Debug, PartialEq, Eq)]
pub struct Block {
    pub number: Option<u64>,
    pub hash: Option<Hash32>,
    pub parent_hash: Hash32,
    pub gas_used: Uint256,
    pub base_fee_per_gas: Option<Uint256>,
    pub timestamp: Uint256,
    pub transactions: Vec<Transaction>,
}

} // verus!
