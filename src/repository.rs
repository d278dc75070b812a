//! Handles of the two tables. The statements themselves run in the
//! application; what they must do is `store`'s semantics.

use vstd::prelude::*;
use crate::store::{transfer_chunks, CHUNK_ROWS};

verus! {

/// The block table: insert-or-ignore by height, and the highest row.
#[derive(Clone, Copy, Debug)]
pub struct BlockRepository {}

/// The transfer table: insert-or-ignore by transaction hash and log index,
/// in statements of at most `CHUNK_ROWS` rows.
#[derive(Clone, Copy, Debug)]
pub struct TransactionRepository {}

impl BlockRepository {
    pub fn new() -> (r: BlockRepository) {
        BlockRepository {}
    }
}

impl TransactionRepository {
    pub fn new() -> (r: TransactionRepository) {
        TransactionRepository {}
    }

    /// The row ranges of the insert statements for `len` rows.
    pub fn batch_ranges(&self, len: usize) -> (r: Vec<(usize, usize)>)
        ensures
            len == 0 ==> r@.len() == 0,
            len > 0 ==> r@.len() > 0 && r@[0].0 == 0 && r@.last().1 == len,
            forall|k: int| 0 <= k < r@.len() ==> #[trigger] r@[k].0 < r@[k].1 && r@[k].1 - r@[k].0 <= CHUNK_ROWS,
            forall|k: int| 0 <= k < r@.len() - 1 ==> #[trigger] r@[k].1 == r@[k + 1].0,
    {
        transfer_chunks(len)
    }
}

} // verus!
