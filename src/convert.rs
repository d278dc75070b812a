//! Checked conversions of chain values to the column types of the store.

use vstd::prelude::*;
use crate::bytes::Hash32;
use crate::error::AppError;
use crate::hex::hex_text;
use crate::uint::Uint256;

verus! {

/// A block number that must be present and fit an `i64`.
pub fn option_u64_to_i64(v: Option<u64>) -> (r: Result<i64, AppError>)
    ensures
        v is None ==> r matches Err(AppError::InvalidNumber(_)),
        v is Some && v->0 > i64::MAX ==> r matches Err(AppError::ConversionError(_)),
        v is Some && v->0 <= i64::MAX ==> r == Ok::<i64, AppError>(v->0 as i64),
{
    match v {
        None => Err(AppError::InvalidNumber("block number is absent".to_string())),
        Some(n) => if n > 0x7fff_ffff_ffff_ffff {
            Err(AppError::ConversionError("u64 does not fit i64".to_string()))
        } else {
            Ok(n as i64)
        },
    }
}

/// The hex text of a hash, or the empty text when there is none.
pub fn h256_opt_to_string(data: Option<Hash32>) -> (r: String)
    ensures
        data matches Some(h) ==> r@ == hex_text(h@),
        data is None ==> r@ == Seq::<char>::empty(),
{
    match data {
        Some(h) => h.to_hex(),
        None => String::new(),
    }
}

pub fn h256_to_string(data: Hash32) -> (r: String)
    ensures
        r@ == hex_text(data@),
{
    data.to_hex()
}

/// A 256-bit value as an `i64`, refused when above `i64::MAX`.
pub fn u256_to_i64(v: Uint256) -> (r: Result<i64, AppError>)
    ensures
        v@ <= i64::MAX ==> r == Ok::<i64, AppError>(v@ as i64),
        v@ > i64::MAX ==> r matches Err(AppError::ConversionError(_)),
{
    match v.to_i64() {
        Some(x) => Ok(x),
        None => Err(AppError::ConversionError("U256 does not fit i64".to_string())),
    }
}

/// As `u256_to_i64`, reading an absent value as zero.
pub fn opt_u256_to_i64_loose(v: Option<Uint256>) -> (r: Result<i64, AppError>)
    ensures
        v is None ==> r == Ok::<i64, AppError>(0),
        v is Some && v->0@ <= i64::MAX ==> r == Ok::<i64, AppError>(v->0@ as i64),
        v is Some && v->0@ > i64::MAX ==> r matches Err(AppError::ConversionError(_)),
{
    let x = match v {
        Some(x) => x,
        None => Uint256::zero(),
    };
    u256_to_i64(x)
}

} // verus!
