//! The block-synchronisation pass as a state machine. The driver performs
//! each requested fetch or write and hands back what came of it; the pass
//! decides what follows: which height to fetch, whether a block extends the
//! last indexed one, what to write, and when the pass is over.

use vstd::prelude::*;
use crate::block::{block_fits, is_fit_error, is_row_of, BlockDomain, BlockQuery, BlockRow};
use crate::bytes::{hex_decoding, lemma_hex_round_trip, Hash32};
use crate::chain::{Block, Receipt};
use crate::error::AppError;
use crate::extract::{block_logs_fit, block_transfers, lemma_block_transfers_rows, needs_receipt, needs_receipt_of, skipped_count, EventParser};
use crate::filter::FilterConfig;
use crate::hex::hex_text;
use crate::store::{is_top, lemma_commit_preserves_invariants, store_invariants, upsert_block, upsert_transfers};
use crate::transfer::{views, Transfer};

verus! {

/// The highest height that is `delay` blocks below the head, or zero.
pub open spec fn safe_height_of(head: u64, delay: int) -> u64 {
    if head >= delay { (head - delay) as u64 } else { 0 }
}

/// The first height to index: one past the last indexed block, or the
/// configured start on an empty index.
pub open spec fn start_height_of(prev: Option<BlockQuery>, init_height: u64) -> int {
    match prev {
        Some(p) => p.block_number + 1,
        None => init_height as int,
    }
}

/// What came of fetching a block.
#[derive(Clone, Debug)]
pub enum BlockFetch {
    Found(Block),
    /// The node does not have the block yet.
    Absent,
    /// Every attempt failed.
    Failed,
}

#[derive(Clone, Copy, Debug, PartialEq, Eq)]
pub enum SyncState {
    /// Waiting for the block at `next`.
    Fetching,
    /// A validated block awaits its receipts.
    Extracting,
    /// The rows of the block await their write.
    Committing,
    /// The pass is over without error.
    Done,
    /// The pass stopped on an error.
    Halted,
}

/// The rows to write for one block, in one transaction.
#[derive(Clone, Debug)]
pub struct CommitPlan {
    pub block: BlockDomain,
    pub transfers: Vec<Transfer>,
    pub skipped: usize,
}

/// Hash text as blocks are stored with it: `0x` and the 64 lower-case
/// digits of 32 bytes.
pub open spec fn is_hash_text(s: Seq<char>) -> bool {
    exists|h: Seq<u8>| h.len() == 32 && s == hex_text(h)
}

/// The persisted blocks and transfers keep their invariants (unique heights
/// and keys, parent hashes that chain, no height gap, transfers of stored
/// blocks, only successful transfers) under every write that a pass makes:
/// the pass began from the highest stored block (`last_indexed_block`, then
/// `begin`) or from an empty store, `on_block` accepted the block, and the
/// rows are those of `prepare_commit`.
pub proof fn lemma_sync_commit_keeps_invariants(
    blocks: Seq<BlockDomain>,
    ts: Seq<Transfer>,
    top: int,
    prev: Option<BlockQuery>,
    b: Block,
    receipts: Seq<Option<Receipt>>,
    f: FilterConfig,
    d: BlockDomain,
    rows: Seq<Transfer>,
)
    requires
        store_invariants(blocks, ts),
        forall|i: int| 0 <= i < blocks.len() ==> is_hash_text(#[trigger] blocks[i].block_hash@),
        blocks.len() == 0 ==> prev is None,
        blocks.len() > 0 ==> is_top(blocks, top) && prev is Some && prev->0.block_number == blocks[top].block_number
            && prev->0.block_hash@ == hex_decoding(blocks[top].block_hash@, 32)->0,
        prev is Some ==> b.parent_hash@ == prev->0.block_hash@ && b.number == Some((prev->0.block_number + 1) as u64),
        b.hash is Some,
        is_row_of(d, b),
        views(rows) == block_transfers(b.transactions@, receipts, b.transactions@.len(), d.block_number as int,
            d.timestamp as int, f),
    ensures
        store_invariants(upsert_block(blocks, d), upsert_transfers(ts, rows)),
        forall|i: int| 0 <= i < upsert_block(blocks, d).len() ==> is_hash_text(#[trigger] upsert_block(blocks, d)[i].block_hash@),
{
    let h = b.hash->0;
    assert(d.block_hash@ == hex_text(h@));
    assert(is_hash_text(d.block_hash@));
    if blocks.len() > 0 {
        let q = prev->0;
        let x = choose|x: Seq<u8>| x.len() == 32 && blocks[top].block_hash@ == hex_text(x);
        lemma_hex_round_trip(x);
        assert(q.block_hash@ == x);
        assert(d.parent_hash@ == blocks[top].block_hash@);
        assert(d.block_number == blocks[top].block_number + 1);
        assert(is_top(blocks, top) && d.block_number == blocks[top].block_number + 1
            && d.parent_hash@ == blocks[top].block_hash@);
    }
    lemma_block_transfers_rows(b.transactions@, receipts, d.block_number as int, d.timestamp as int, f);
    assert forall|k: int| 0 <= k < rows.len() implies (#[trigger] rows[k]).block_number == d.block_number && rows[k].status == 1 by {
        assert(views(rows)[k] == rows[k]@);
    }
    lemma_commit_preserves_invariants(blocks, ts, d, rows);
    let nb = upsert_block(blocks, d);
    assert forall|i: int| 0 <= i < nb.len() implies is_hash_text(#[trigger] nb[i].block_hash@) by {
        if i < blocks.len() {
            assert(nb[i] == blocks[i]);
        }
    }
}

/// One synchronisation pass.
#[derive(Clone, Debug)]
pub struct SyncPass {
    /// The highest height this pass indexes.
    pub safe: u64,
    /// The height to index next.
    pub next: u64,
    /// The last indexed block.
    pub prev: Option<BlockQuery>,
    pub state: SyncState,
    /// The validated block at `next`, while it is extracted and written.
    pub pending: Option<Block>,
}

pub fn safe_height(head: u64, delay: i16) -> (r: u64)
    requires
        delay >= 0,
    ensures
        r == safe_height_of(head, delay as int),
{
    let d = delay as u64;
    if head >= d { head - d } else { 0 }
}

impl SyncPass {
    pub open spec fn wf(&self) -> bool {
        &&& self.prev matches Some(p) ==> p.block_number + 1 == self.next && p.block_number <= i64::MAX
        &&& self.state == SyncState::Fetching ==> self.next <= self.safe
        &&& self.state == SyncState::Extracting || self.state == SyncState::Committing ==> {
            &&& self.next <= self.safe
            &&& self.pending matches Some(b) && b.hash is Some && b.number == Some(self.next)
        }
        &&& self.state == SyncState::Committing ==> self.next <= i64::MAX
    }

    /// Starts a pass from the head height, the confirmation depth, the last
    /// stored block and the configured start height. A stored row that does
    /// not read back is `Conversion`. Nothing is to be done when the start
    /// height is above the safe height.
    pub fn begin(head: u64, delay: i16, last: Option<BlockRow>, init_height: u64) -> (r: Result<SyncPass, AppError>)
        requires
            delay >= 0,
        ensures
            r is Err <==> (last matches Some(row) && !(row.block_number >= 0 && hex_decoding(row.block_hash@, 32) is Some)),
            r matches Err(e) ==> e is Conversion,
            r matches Ok(p) ==> {
                &&& p.wf()
                &&& p.safe == safe_height_of(head, delay as int)
                &&& p.next == start_height_of(p.prev, init_height)
                &&& last is None ==> p.prev is None
                &&& last matches Some(row) ==> (p.prev matches Some(q) && q.block_number == row.block_number
                    && q.block_hash@ == hex_decoding(row.block_hash@, 32)->0)
                &&& p.state == (if p.next <= p.safe { SyncState::Fetching } else { SyncState::Done })
            },
    {
        let safe = safe_height(head, delay);
        let prev = match last {
            Some(row) => match BlockQuery::try_from(&row) {
                Ok(q) => Some(q),
                Err(e) => return Err(e),
            },
            None => None,
        };
        let next = match prev {
            Some(q) => q.block_number + 1,
            None => init_height,
        };
        let state = if next <= safe { SyncState::Fetching } else { SyncState::Done };
        Ok(SyncPass { safe, next, prev, state, pending: None })
    }

    /// The height to fetch, while the pass is fetching.
    pub fn next_height(&self) -> (r: Option<u64>)
        ensures
            r is Some <==> self.state == SyncState::Fetching,
            r matches Some(h) ==> h == self.next,
    {
        match self.state {
            SyncState::Fetching => Some(self.next),
            _ => None,
        }
    }

    /// Takes the fetched block at `next`. An absent block or a failed fetch
    /// ends the pass without error. A block whose parent is not the last
    /// indexed block halts the pass with `ChainReorg`; one without a hash or
    /// with another number than the height asked for halts it with
    /// `ProviderError`. Otherwise the block awaits its receipts.
    pub fn on_block(&mut self, fetched: BlockFetch) -> (r: Result<bool, AppError>)
        requires
            old(self).wf(),
            old(self).state == SyncState::Fetching,
        ensures
            final(self).wf(),
            final(self).safe == old(self).safe,
            final(self).next == old(self).next,
            final(self).prev == old(self).prev,
            !(fetched is Found) ==> r == Ok::<bool, AppError>(false) && final(self).state == SyncState::Done,
            !(r == Ok::<bool, AppError>(true)) ==> final(self).pending == old(self).pending,
            fetched matches BlockFetch::Found(b) ==> {
                let reorg = old(self).prev matches Some(p) && b.parent_hash@ != p.block_hash@;
                let malformed = b.hash is None || b.number != Some(old(self).next);
                &&& reorg ==> (r matches Err(AppError::ChainReorg { block, local, network })
                    && block == old(self).next && local@ == hex_text(old(self).prev->0.block_hash@)
                    && network@ == hex_text(b.parent_hash@))
                &&& !reorg && malformed ==> (r matches Err(AppError::ProviderError(_)))
                &&& r is Err ==> final(self).state == SyncState::Halted
                &&& !reorg && !malformed ==> r == Ok::<bool, AppError>(true)
                    && final(self).state == SyncState::Extracting && final(self).pending == Some(b)
            },
    {
        match fetched {
            BlockFetch::Found(b) => {
                if let Some(p) = &self.prev {
                    if !b.parent_hash.same(&p.block_hash) {
                        self.state = SyncState::Halted;
                        return Err(AppError::ChainReorg {
                            block: self.next,
                            local: p.block_hash.to_hex(),
                            network: b.parent_hash.to_hex(),
                        });
                    }
                }
                let numbered = match b.number {
                    Some(n) => n == self.next,
                    None => false,
                };
                if b.hash.is_none() {
                    self.state = SyncState::Halted;
                    return Err(AppError::ProviderError("block without hash".to_string()));
                }
                if !numbered {
                    self.state = SyncState::Halted;
                    return Err(AppError::ProviderError("block number differs from the height asked for".to_string()));
                }
                self.pending = Some(b);
                self.state = SyncState::Extracting;
                Ok(true)
            },
            _ => {
                self.state = SyncState::Done;
                Ok(false)
            },
        }
    }

    /// For each transaction of the pending block, whether its receipt is to
    /// be fetched.
    pub fn receipt_requests(&self, filter: &FilterConfig) -> (r: Vec<bool>)
        requires
            self.wf(),
            self.state == SyncState::Extracting,
        ensures
            r@.len() == self.pending->0.transactions@.len(),
            forall|k: int| 0 <= k < r@.len() ==> r@[k] == needs_receipt(self.pending->0.transactions@[k], *filter),
    {
        let mut r: Vec<bool> = Vec::new();
        match &self.pending {
            Some(b) => {
                let mut i: usize = 0;
                while i < b.transactions.len()
                    invariant
                        0 <= i <= b.transactions@.len(),
                        r@.len() == i,
                        forall|k: int| 0 <= k < i ==> r@[k] == needs_receipt(b.transactions@[k], *filter),
                    decreases b.transactions.len() - i,
                {
                    r.push(needs_receipt_of(&b.transactions[i], filter));
                    i = i + 1;
                }
            },
            None => {},
        }
        r
    }

    /// The rows of the pending block: the block row and the transfers that
    /// its transactions yield with the given receipts (`receipts[k]` is what
    /// fetching receipt `k` gave, absent when not fetched, missing or failed).
    /// A block whose numbers do not fit, or a processed log whose index does
    /// not fit an `i64`, halts the pass.
    pub fn prepare_commit(&mut self, filter: &FilterConfig, receipts: &Vec<Option<Receipt>>) -> (r: Result<CommitPlan, AppError>)
        requires
            old(self).wf(),
            old(self).state == SyncState::Extracting,
            receipts@.len() == old(self).pending->0.transactions@.len(),
        ensures
            final(self).wf(),
            final(self).safe == old(self).safe,
            final(self).next == old(self).next,
            final(self).prev == old(self).prev,
            final(self).pending == old(self).pending,
            ({
                let b = old(self).pending->0;
                &&& r is Ok <==> block_fits(b) && block_logs_fit(b.transactions@, receipts@, *filter)
                &&& r is Err ==> final(self).state == SyncState::Halted
                &&& !block_fits(b) ==> (r matches Err(e) && is_fit_error(e, b))
                &&& block_fits(b) && !block_logs_fit(b.transactions@, receipts@, *filter) ==> (r matches Err(AppError::ConversionError(_)))
                &&& r matches Ok(plan) ==> {
                    &&& final(self).state == SyncState::Committing
                    &&& is_row_of(plan.block, b)
                    &&& views(plan.transfers@) == block_transfers(b.transactions@, receipts@, b.transactions@.len(),
                        plan.block.block_number as int, plan.block.timestamp as int, *filter)
                    &&& plan.skipped == skipped_count(b.transactions@, receipts@, b.transactions@.len(), *filter)
                }
            }),
    {
        let parser = EventParser::new();
        let r = match &self.pending {
            Some(b) => match BlockDomain::from_ethers(b) {
                Ok(d) => {
                    match parser.parse_transfers_from_block(b, d.block_number, d.timestamp, filter, receipts) {
                        Ok((transfers, skipped)) => Ok(CommitPlan { block: d, transfers, skipped }),
                        Err(e) => Err(e),
                    }
                },
                Err(e) => Err(e),
            },
            None => Err(AppError::Internal("no pending block".to_string())),
        };
        match r {
            Ok(_) => { self.state = SyncState::Committing; },
            Err(_) => { self.state = SyncState::Halted; },
        }
        r
    }

    /// The rows of the pending block were written: it becomes the last
    /// indexed block and the pass moves on to the next height.
    pub fn on_committed(&mut self)
        requires
            old(self).wf(),
            old(self).state == SyncState::Committing,
        ensures
            final(self).wf(),
            final(self).safe == old(self).safe,
            final(self).prev == Some(BlockQuery { block_number: old(self).next, block_hash: old(self).pending->0.hash->0 }),
            final(self).next == old(self).next + 1,
            final(self).pending is None,
            final(self).state == (if old(self).next + 1 <= old(self).safe { SyncState::Fetching } else { SyncState::Done }),
    {
        let hash = match &self.pending {
            Some(b) => match b.hash {
                Some(h) => h,
                None => Hash32 { bytes: [0u8; 32] },
            },
            None => Hash32 { bytes: [0u8; 32] },
        };
        self.prev = Some(BlockQuery { block_number: self.next, block_hash: hash });
        self.next = self.next + 1;
        self.pending = None;
        self.state = if self.next <= self.safe { SyncState::Fetching } else { SyncState::Done };
    }

    /// The write of the pending block failed: the pass halts.
    pub fn on_commit_failed(&mut self)
        requires
            old(self).wf(),
        ensures
            final(self).wf(),
            final(self).state == SyncState::Halted,
            final(self).safe == old(self).safe,
            final(self).next == old(self).next,
            final(self).prev == old(self).prev,
    {
        self.state = SyncState::Halted;
    }
}

} // verus!
