//! Errors of the indexer.

use vstd::prelude::*;

verus! {

#[derive(Clone, Debug, PartialEq, Eq)]
pub enum AppError {
    Validation(String),
    InvalidRequest(String),
    /// A number that does not fit the type it is stored in.
    ConversionError(String),
    /// A database failure: connection, query or write.
    DatabaseError(String),
    /// A stored value that does not read back.
    Conversion(String),
    Conflict(String),
    NotFound(String),
    Internal(String),
    /// An RPC call that failed on every attempt.
    ProviderError(String),
    InvalidBlockNumber(String),
    /// A value that the node reported out of shape or not at all.
    InvalidNumber(String),
    InvalidUrl(String),
    InvalidAddress(String),
    /// The fetched block does not extend the last indexed one.
    ChainReorg { block: u64, local: String, network: String },
}

impl AppError {
    pub fn new(message: &str) -> (r: AppError)
        ensures
            r matches AppError::Internal(m) && m@ == message@,
    {
        AppError::Internal(message.to_string())
    }
}

/// Conditions that stop a synchronisation run.
#[derive(Clone, Debug, PartialEq, Eq)]
pub enum SyncError {
    Interrupted(String),
    TooFarBehind { local: u64, network: u64 },
    TooManyFailures { count: u32 },
}

} // verus!
