//! The indexed block: the row written for a block, the row read back, and the
//! cursor that the synchronisation keeps.

use vstd::prelude::*;
use crate::bytes::{hex_decoding, Hash32};
use crate::chain::Block;
use crate::convert::{h256_opt_to_string, h256_to_string, opt_u256_to_i64_loose, option_u64_to_i64, u256_to_i64};
use crate::error::AppError;
use crate::hex::hex_text;

verus! {

/// The row stored for a block.
#[derive(Clone, Debug, PartialEq, Eq)]
pub struct BlockDomain {
    pub block_number: i64,
    pub block_hash: String,
    pub parent_hash: String,
    pub gas_used: i64,
    pub base_fee_per_gas: i64,
    pub timestamp: i64,
    /// The number of transactions.
    pub size: i32,
}

/// The columns of a stored block that the synchronisation reads back.
#[derive(Clone, Debug, PartialEq, Eq)]
pub struct BlockRow {
    pub block_number: i64,
    pub block_hash: String,
    pub parent_hash: String,
}

/// The last indexed block: its height and hash.
#[derive(Clone, Copy, Debug, PartialEq, Eq)]
pub struct BlockQuery {
    pub block_number: u64,
    pub block_hash: Hash32,
}

/// The hex text of an optional hash, empty when absent.
pub open spec fn opt_hash_text(h: Option<Hash32>) -> Seq<char> {
    match h {
        Some(x) => hex_text(x@),
        None => Seq::empty(),
    }
}

/// Whether every number of a block fits its column.
pub open spec fn block_fits(b: Block) -> bool {
    &&& b.number is Some && b.number->0 <= i64::MAX
    &&& b.gas_used@ <= i64::MAX
    &&& b.base_fee_per_gas matches Some(f) ==> f@ <= i64::MAX
    &&& b.timestamp@ <= i64::MAX
    &&& b.transactions@.len() <= i32::MAX
}

/// The row that a block whose numbers fit is stored as.
pub open spec fn is_row_of(d: BlockDomain, b: Block) -> bool {
    &&& d.block_number == b.number->0
    &&& d.block_hash@ == opt_hash_text(b.hash)
    &&& d.parent_hash@ == hex_text(b.parent_hash@)
    &&& d.gas_used == b.gas_used@
    &&& d.base_fee_per_gas == (match b.base_fee_per_gas {
        Some(f) => f@,
        None => 0,
    })
    &&& d.timestamp == b.timestamp@
    &&& d.size == b.transactions@.len()
}

/// The error for a block whose numbers do not fit: `InvalidNumber` for a
/// missing number or too many transactions, `ConversionError` for a value
/// above `i64::MAX`.
pub open spec fn is_fit_error(e: AppError, b: Block) -> bool {
    let values_fit = b.number->0 <= i64::MAX && b.gas_used@ <= i64::MAX && (b.base_fee_per_gas matches Some(f)
        ==> f@ <= i64::MAX) && b.timestamp@ <= i64::MAX;
    if b.number is None || values_fit {
        e is InvalidNumber
    } else {
        e is ConversionError
    }
}

impl BlockDomain {
    pub fn new(
        block_number: i64,
        block_hash: String,
        parent_hash: String,
        gas_used: i64,
        base_fee_per_gas: i64,
        timestamp: i64,
        size: i32,
    ) -> (r: BlockDomain)
        ensures
            r.block_number == block_number,
            r.block_hash == block_hash,
            r.parent_hash == parent_hash,
            r.gas_used == gas_used,
            r.base_fee_per_gas == base_fee_per_gas,
            r.timestamp == timestamp,
            r.size == size,
    {
        BlockDomain { block_number, block_hash, parent_hash, gas_used, base_fee_per_gas, timestamp, size }
    }

    /// The row of a block. The number must be present; every number must fit
    /// its column (a missing number or too many transactions is
    /// `InvalidNumber`, any other overflow `ConversionError`).
    pub fn from_ethers(block: &Block) -> (r: Result<BlockDomain, AppError>)
        ensures
            r is Ok <==> block_fits(*block),
            r matches Ok(d) ==> is_row_of(d, *block),
            r matches Err(e) ==> is_fit_error(e, *block),
    {
        let block_number = match option_u64_to_i64(block.number) {
            Ok(n) => n,
            Err(e) => return Err(e),
        };
        let block_hash = h256_opt_to_string(block.hash);
        let parent_hash = h256_to_string(block.parent_hash);
        let gas_used = match u256_to_i64(block.gas_used) {
            Ok(g) => g,
            Err(e) => return Err(e),
        };
        let base_fee_per_gas = match opt_u256_to_i64_loose(block.base_fee_per_gas) {
            Ok(f) => f,
            Err(e) => return Err(e),
        };
        let timestamp = match u256_to_i64(block.timestamp) {
            Ok(t) => t,
            Err(e) => return Err(e),
        };
        if block.transactions.len() > 0x7fff_ffff {
            return Err(AppError::InvalidNumber("transactions count overflow".to_string()));
        }
        let size = block.transactions.len() as i32;
        Ok(BlockDomain::new(block_number, block_hash, parent_hash, gas_used, base_fee_per_gas, timestamp, size))
    }

    pub fn is_empty(&self) -> (r: bool)
        ensures
            r == (self.block_number == 0 && self.block_hash@.len() == 0 && self.parent_hash@.len() == 0),
    {
        self.block_number == 0 && self.block_hash.as_str().is_empty() && self.parent_hash.as_str().is_empty()
    }

    /// The columns that the synchronisation reads back.
    pub fn to_row(&self) -> (r: BlockRow)
        ensures
            r.block_number == self.block_number,
            r.block_hash@ == self.block_hash@,
            r.parent_hash@ == self.parent_hash@,
    {
        BlockRow {
            block_number: self.block_number,
            block_hash: self.block_hash.clone(),
            parent_hash: self.parent_hash.clone(),
        }
    }
}

impl BlockQuery {
    /// The cursor of a stored row: its height must not be negative and its
    /// hash must read as a 32-byte hash, else `Conversion`.
    pub fn try_from(row: &BlockRow) -> (r: Result<BlockQuery, AppError>)
        ensures
            r is Ok <==> row.block_number >= 0 && hex_decoding(row.block_hash@, 32) is Some,
            r matches Err(e) ==> e is Conversion,
            r matches Ok(q) ==> q.block_number == row.block_number && q.block_hash@ == hex_decoding(
                row.block_hash@,
                32,
            )->0,
    {
        let block_hash = match Hash32::parse(row.block_hash.as_str()) {
            Some(h) => h,
            None => return Err(AppError::Conversion("invalid block hash".to_string())),
        };
        if row.block_number < 0 {
            return Err(AppError::Conversion("negative block number".to_string()));
        }
        Ok(BlockQuery { block_number: row.block_number as u64, block_hash })
    }
}

} // verus!
