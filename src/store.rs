//! The persistence semantics: block rows unique by height, transfer rows
//! unique by transaction hash and log index, both written with
//! insert-or-ignore, and the cursor read as the highest stored block.
//! `MemoryStore` holds the relation in memory with exactly these rules.

use vstd::prelude::*;
use crate::block::{BlockDomain, BlockRow};
use crate::sync::CommitPlan;
use crate::transfer::Transfer;

verus! {

/// The most rows that one insert statement carries.
pub const CHUNK_ROWS: usize = 1000;

pub open spec fn has_height(blocks: Seq<BlockDomain>, n: int) -> bool {
    exists|i: int| 0 <= i < blocks.len() && #[trigger] blocks[i].block_number == n
}

/// Two transfers with the same transaction hash and log index.
pub open spec fn same_key(a: Transfer, b: Transfer) -> bool {
    a.tx_hash@ == b.tx_hash@ && a.log_index == b.log_index
}

pub open spec fn has_key(ts: Seq<Transfer>, t: Transfer) -> bool {
    exists|i: int| 0 <= i < ts.len() && same_key(#[trigger] ts[i], t)
}

/// The blocks after inserting `b`, ignored when its height is present.
pub open spec fn upsert_block(blocks: Seq<BlockDomain>, b: BlockDomain) -> Seq<BlockDomain> {
    if has_height(blocks, b.block_number as int) {
        blocks
    } else {
        blocks.push(b)
    }
}

/// The transfers after inserting `rows` in order, each ignored when its key
/// is present.
pub open spec fn upsert_transfers(ts: Seq<Transfer>, rows: Seq<Transfer>) -> Seq<Transfer>
    decreases rows.len(),
{
    if rows.len() == 0 {
        ts
    } else {
        let prev = upsert_transfers(ts, rows.drop_last());
        if has_key(prev, rows.last()) {
            prev
        } else {
            prev.push(rows.last())
        }
    }
}

/// The store's invariants: block heights and transfer keys are unique; a
/// block's parent hash is the hash of the block one below it; the heights
/// have no gap; every transfer belongs to a stored block; every transfer
/// succeeded.
pub open spec fn store_invariants(blocks: Seq<BlockDomain>, ts: Seq<Transfer>) -> bool {
    &&& forall|i: int, j: int|
        0 <= i < j < blocks.len() ==> #[trigger] blocks[i].block_number != #[trigger] blocks[j].block_number
    &&& forall|i: int, j: int|
        0 <= i < j < ts.len() ==> !same_key(#[trigger] ts[i], #[trigger] ts[j])
    &&& forall|i: int, j: int|
        0 <= i < blocks.len() && 0 <= j < blocks.len() && #[trigger] blocks[j].block_number
            == #[trigger] blocks[i].block_number + 1 ==> blocks[j].parent_hash@ == blocks[i].block_hash@
    &&& forall|i: int, j: int, h: int|
        0 <= i < blocks.len() && 0 <= j < blocks.len() && #[trigger] blocks[i].block_number <= h
            <= #[trigger] blocks[j].block_number ==> #[trigger] has_height(blocks, h)
    &&& forall|k: int| 0 <= k < ts.len() ==> has_height(blocks, #[trigger] ts[k].block_number as int)
    &&& forall|k: int| 0 <= k < ts.len() ==> #[trigger] ts[k].status == 1
}

/// The highest stored height, if any block is stored.
pub open spec fn is_top(blocks: Seq<BlockDomain>, i: int) -> bool {
    0 <= i < blocks.len() && forall|j: int| 0 <= j < blocks.len() ==> #[trigger] blocks[j].block_number
        <= blocks[i].block_number
}

proof fn lemma_upsert_prefix(ts: Seq<Transfer>, rows: Seq<Transfer>)
    ensures
        upsert_transfers(ts, rows).len() >= ts.len(),
        upsert_transfers(ts, rows).subrange(0, ts.len() as int) == ts,
        forall|k: int| 0 <= k < upsert_transfers(ts, rows).len() ==> (k < ts.len() && #[trigger] upsert_transfers(ts, rows)[k] == ts[k])
            || exists|m: int| 0 <= m < rows.len() && upsert_transfers(ts, rows)[k] == #[trigger] rows[m],
    decreases rows.len(),
{
    if rows.len() == 0 {
        assert(ts.subrange(0, ts.len() as int) =~= ts);
    } else {
        let rs = rows.drop_last();
        lemma_upsert_prefix(ts, rs);
        let prev = upsert_transfers(ts, rs);
        let cur = upsert_transfers(ts, rows);
        assert forall|k: int| 0 <= k < cur.len() implies (k < ts.len() && #[trigger] cur[k] == ts[k])
            || exists|m: int| 0 <= m < rows.len() && cur[k] == #[trigger] rows[m] by {
            if k < prev.len() {
                assert(cur[k] == prev[k]);
                if !(k < ts.len() && prev[k] == ts[k]) {
                    let m = choose|m: int| 0 <= m < rs.len() && prev[k] == #[trigger] rs[m];
                    assert(rows[m] == rs[m]);
                }
            } else {
                assert(cur[k] == rows[rows.len() - 1]);
            }
        }
        assert(cur.subrange(0, ts.len() as int) =~= prev.subrange(0, ts.len() as int));
    }
}

proof fn lemma_rows_present(ts: Seq<Transfer>, rows: Seq<Transfer>)
    ensures
        forall|k: int| 0 <= k < rows.len() ==> has_key(upsert_transfers(ts, rows), #[trigger] rows[k]),
    decreases rows.len(),
{
    if rows.len() > 0 {
        let rs = rows.drop_last();
        lemma_rows_present(ts, rs);
        let prev = upsert_transfers(ts, rs);
        let cur = upsert_transfers(ts, rows);
        assert forall|k: int| 0 <= k < rows.len() implies has_key(cur, #[trigger] rows[k]) by {
            if k < rs.len() {
                assert(rows[k] == rs[k]);
                assert(has_key(prev, rs[k]));
                let i = choose|i: int| 0 <= i < prev.len() && same_key(#[trigger] prev[i], rs[k]);
                assert(cur[i] == prev[i]);
            } else if !has_key(prev, rows.last()) {
                assert(same_key(cur[prev.len() as int], rows[k]));
            }
        }
    }
}

proof fn lemma_upsert_noop(x: Seq<Transfer>, rows: Seq<Transfer>)
    requires
        forall|k: int| 0 <= k < rows.len() ==> has_key(x, #[trigger] rows[k]),
    ensures
        upsert_transfers(x, rows) == x,
    decreases rows.len(),
{
    if rows.len() > 0 {
        let rs = rows.drop_last();
        assert forall|k: int| 0 <= k < rs.len() implies has_key(x, #[trigger] rs[k]) by {
            assert(rs[k] == rows[k]);
        }
        lemma_upsert_noop(x, rs);
        assert(has_key(x, rows[rows.len() - 1]));
    }
}

/// Parent hashes chain: the block one above a stored block names its hash.
pub open spec fn chained(blocks: Seq<BlockDomain>) -> bool {
    forall|i: int, j: int|
        0 <= i < blocks.len() && 0 <= j < blocks.len() && #[trigger] blocks[j].block_number
            == #[trigger] blocks[i].block_number + 1 ==> blocks[j].parent_hash@ == blocks[i].block_hash@
}

/// Block heights are unique.
pub open spec fn unique_heights(blocks: Seq<BlockDomain>) -> bool {
    forall|i: int, j: int|
        0 <= i < j < blocks.len() ==> #[trigger] blocks[i].block_number != #[trigger] blocks[j].block_number
}

/// Parent hashes keep chaining (with heights unique) under a write of a
/// block one above the highest stored block whose parent hash is that
/// block's hash, or of any block into an empty store.
pub proof fn lemma_commit_keeps_chain(blocks: Seq<BlockDomain>, b: BlockDomain, t: int)
    requires
        chained(blocks),
        unique_heights(blocks),
        blocks.len() > 0 ==> is_top(blocks, t) && b.block_number == blocks[t].block_number + 1
            && b.parent_hash@ == blocks[t].block_hash@,
    ensures
        chained(upsert_block(blocks, b)),
        unique_heights(upsert_block(blocks, b)),
{
    let nb = upsert_block(blocks, b);
    let n = blocks.len() as int;
    if !has_height(blocks, b.block_number as int) {
        assert forall|i: int, j: int| 0 <= i < j < nb.len() implies #[trigger] nb[i].block_number != #[trigger] nb[j].block_number by {
            if j == n {
                assert(nb[i] == blocks[i]);
            } else {
                assert(nb[i] == blocks[i] && nb[j] == blocks[j]);
            }
        }
        assert forall|i: int, j: int| 0 <= i < nb.len() && 0 <= j < nb.len() && #[trigger] nb[j].block_number
            == #[trigger] nb[i].block_number + 1 implies nb[j].parent_hash@ == nb[i].block_hash@ by {
            if i == n {
                if j < n {
                    assert(nb[j] == blocks[j]);
                    assert(blocks[j].block_number <= blocks[t].block_number);
                }
            } else if j == n {
                assert(nb[i] == blocks[i]);
                if i != t {
                    if i < t {
                        assert(blocks[i].block_number != blocks[t].block_number);
                    } else {
                        assert(blocks[t].block_number != blocks[i].block_number);
                    }
                }
            } else {
                assert(nb[i] == blocks[i] && nb[j] == blocks[j]);
            }
        }
    } else {
        let k = choose|k: int| 0 <= k < blocks.len() && #[trigger] blocks[k].block_number == b.block_number;
        if blocks.len() > 0 {
            assert(blocks[k].block_number <= blocks[t].block_number);
        }
    }
}

/// Replaying the rows of a block changes nothing: after writing the same
/// block row and transfer rows twice, the stored relation is the one after
/// the first write.
pub proof fn lemma_commit_idempotent(blocks: Seq<BlockDomain>, ts: Seq<Transfer>, b: BlockDomain, rows: Seq<Transfer>)
    ensures
        upsert_block(upsert_block(blocks, b), b) == upsert_block(blocks, b),
        upsert_transfers(upsert_transfers(ts, rows), rows) == upsert_transfers(ts, rows),
{
    if !has_height(blocks, b.block_number as int) {
        let nb = blocks.push(b);
        assert(nb[blocks.len() as int].block_number == b.block_number);
    }
    lemma_rows_present(ts, rows);
    lemma_upsert_noop(upsert_transfers(ts, rows), rows);
}

proof fn lemma_upsert_unique(ts: Seq<Transfer>, rows: Seq<Transfer>)
    requires
        forall|i: int, j: int| 0 <= i < j < ts.len() ==> !same_key(#[trigger] ts[i], #[trigger] ts[j]),
    ensures
        forall|i: int, j: int|
            0 <= i < j < upsert_transfers(ts, rows).len() ==> !same_key(
                #[trigger] upsert_transfers(ts, rows)[i],
                #[trigger] upsert_transfers(ts, rows)[j],
            ),
    decreases rows.len(),
{
    if rows.len() > 0 {
        let rs = rows.drop_last();
        lemma_upsert_unique(ts, rs);
        let prev = upsert_transfers(ts, rs);
        let cur = upsert_transfers(ts, rows);
        if !has_key(prev, rows.last()) {
            assert forall|i: int, j: int| 0 <= i < j < cur.len() implies !same_key(#[trigger] cur[i], #[trigger] cur[j]) by {
                if j == prev.len() {
                    assert(cur[i] == prev[i]);
                    if same_key(cur[i], cur[j]) {
                        assert(same_key(prev[i], rows.last()));
                    }
                } else {
                    assert(cur[i] == prev[i] && cur[j] == prev[j]);
                }
            }
        }
    }
}

/// Every write that the synchronisation makes keeps the store's invariants:
/// the block is new and one above the highest stored block, whose hash is its
/// parent hash, or the store is empty, or the block is already stored; and
/// each transfer row belongs to the block and succeeded.
pub proof fn lemma_commit_preserves_invariants(blocks: Seq<BlockDomain>, ts: Seq<Transfer>, b: BlockDomain, rows: Seq<Transfer>)
    requires
        store_invariants(blocks, ts),
        blocks.len() == 0 || has_height(blocks, b.block_number as int) || exists|t: int| #[trigger] is_top(blocks, t)
            && b.block_number == blocks[t].block_number + 1 && b.parent_hash@ == blocks[t].block_hash@,
        forall|k: int| 0 <= k < rows.len() ==> (#[trigger] rows[k]).block_number == b.block_number && rows[k].status == 1,
    ensures
        store_invariants(upsert_block(blocks, b), upsert_transfers(ts, rows)),
{
    let nb = upsert_block(blocks, b);
    let nt = upsert_transfers(ts, rows);
    assert(has_height(nb, b.block_number as int)) by {
        if !has_height(blocks, b.block_number as int) {
            assert(nb[blocks.len() as int] == b);
        }
    }
    assert forall|h: int| has_height(blocks, h) implies #[trigger] has_height(nb, h) by {
        let i = choose|i: int| 0 <= i < blocks.len() && #[trigger] blocks[i].block_number == h;
        assert(nb[i] == blocks[i]);
    }
    if !has_height(blocks, b.block_number as int) && blocks.len() > 0 {
        let t = choose|t: int| #[trigger] is_top(blocks, t) && b.block_number == blocks[t].block_number + 1
            && b.parent_hash@ == blocks[t].block_hash@;
        let n = blocks.len() as int;
        assert forall|i: int, j: int| 0 <= i < j < nb.len() implies #[trigger] nb[i].block_number != #[trigger] nb[j].block_number by {
            if j == n {
                assert(nb[i] == blocks[i]);
            } else {
                assert(nb[i] == blocks[i] && nb[j] == blocks[j]);
            }
        }
        assert forall|i: int, j: int| 0 <= i < nb.len() && 0 <= j < nb.len() && #[trigger] nb[j].block_number
            == #[trigger] nb[i].block_number + 1 implies nb[j].parent_hash@ == nb[i].block_hash@ by {
            if i == n {
                if j < n {
                    assert(nb[j] == blocks[j]);
                    assert(blocks[j].block_number <= blocks[t].block_number);
                }
            } else if j == n {
                assert(nb[i] == blocks[i]);
                if i != t {
                    assert(blocks[i].block_number == blocks[t].block_number);
                    if i < t {
                        assert(blocks[i].block_number != blocks[t].block_number);
                    } else {
                        assert(blocks[t].block_number != blocks[i].block_number);
                    }
                }
            } else {
                assert(nb[i] == blocks[i] && nb[j] == blocks[j]);
            }
        }
        assert forall|i: int, j: int, h: int| 0 <= i < nb.len() && 0 <= j < nb.len() && #[trigger] nb[i].block_number <= h
            <= #[trigger] nb[j].block_number implies #[trigger] has_height(nb, h) by {
            if h == b.block_number {
            } else if i == n {
                if j < n {
                    assert(nb[j] == blocks[j]);
                    assert(blocks[j].block_number <= blocks[t].block_number);
                }
            } else if j == n {
                assert(nb[i] == blocks[i]);
                assert(blocks[i].block_number <= h <= blocks[t].block_number);
                assert(has_height(blocks, h));
            } else {
                assert(nb[i] == blocks[i] && nb[j] == blocks[j]);
                assert(has_height(blocks, h));
            }
        }
    } else if !has_height(blocks, b.block_number as int) {
        assert forall|i: int, j: int, h: int| 0 <= i < nb.len() && 0 <= j < nb.len() && #[trigger] nb[i].block_number <= h
            <= #[trigger] nb[j].block_number implies #[trigger] has_height(nb, h) by {
            assert(nb[i] == b && nb[j] == b);
        }
    }
    lemma_upsert_prefix(ts, rows);
    lemma_upsert_unique(ts, rows);
    assert forall|k: int| 0 <= k < nt.len() implies has_height(nb, #[trigger] nt[k].block_number as int) && nt[k].status == 1 by {
        if !(k < ts.len() && nt[k] == ts[k]) {
            let m = choose|m: int| 0 <= m < rows.len() && nt[k] == #[trigger] rows[m];
        } else {
            assert(has_height(blocks, ts[k].block_number as int));
        }
    }
}

/// The block rows and transfer rows of the index.
#[derive(Debug)]
pub struct MemoryStore {
    pub blocks: Vec<BlockDomain>,
    pub transfers: Vec<Transfer>,
}

/// A field-by-field copy, equal to its source.
pub fn copy_transfer(t: &Transfer) -> (r: Transfer)
    ensures
        r == *t,
{
    let contract_address = match &t.contract_address {
        Some(c) => Some(c.clone()),
        None => None,
    };
    Transfer {
        block_number: t.block_number,
        tx_hash: t.tx_hash.clone(),
        from_address: t.from_address.clone(),
        to_address: t.to_address.clone(),
        amount: t.amount,
        contract_address,
        timestamp: t.timestamp,
        gas: t.gas,
        max_fee_per_gas: t.max_fee_per_gas,
        status: t.status,
        log_index: t.log_index,
    }
}

/// A field-by-field copy, equal to its source.
pub fn copy_block(b: &BlockDomain) -> (r: BlockDomain)
    ensures
        r == *b,
{
    BlockDomain {
        block_number: b.block_number,
        block_hash: b.block_hash.clone(),
        parent_hash: b.parent_hash.clone(),
        gas_used: b.gas_used,
        base_fee_per_gas: b.base_fee_per_gas,
        timestamp: b.timestamp,
        size: b.size,
    }
}

/// The ranges `[start, end)` that split `len` rows into inserts of at most
/// `CHUNK_ROWS` rows, in order.
pub fn transfer_chunks(len: usize) -> (r: Vec<(usize, usize)>)
    ensures
        len == 0 ==> r@.len() == 0,
        len > 0 ==> r@.len() > 0 && r@[0].0 == 0 && r@.last().1 == len,
        forall|k: int| 0 <= k < r@.len() ==> #[trigger] r@[k].0 < r@[k].1 && r@[k].1 - r@[k].0 <= CHUNK_ROWS,
        forall|k: int| 0 <= k < r@.len() - 1 ==> #[trigger] r@[k].1 == r@[k + 1].0,
{
    let mut r: Vec<(usize, usize)> = Vec::new();
    let mut start: usize = 0;
    while start < len
        invariant
            start <= len,
            r@.len() == 0 <==> start == 0,
            r@.len() > 0 ==> r@[0].0 == 0 && r@.last().1 == start,
            forall|k: int| 0 <= k < r@.len() ==> #[trigger] r@[k].0 < r@[k].1 && r@[k].1 - r@[k].0 <= CHUNK_ROWS,
            forall|k: int| 0 <= k < r@.len() - 1 ==> #[trigger] r@[k].1 == r@[k + 1].0,
        decreases len - start,
    {
        let end = if len - start > CHUNK_ROWS { start + CHUNK_ROWS } else { len };
        let ghost before = r@;
        r.push((start, end));
        proof {
            assert forall|k: int| 0 <= k < r@.len() - 1 implies #[trigger] r@[k].1 == r@[k + 1].0 by {
                if k < before.len() - 1 {
                    assert(r@[k] == before[k] && r@[k + 1] == before[k + 1]);
                } else {
                    assert(r@[k] == before.last());
                }
            }
        }
        start = end;
    }
    r
}

impl MemoryStore {
    pub fn new() -> (r: MemoryStore)
        ensures
            r.blocks@.len() == 0,
            r.transfers@.len() == 0,
    {
        MemoryStore { blocks: Vec::new(), transfers: Vec::new() }
    }

    fn find_height(&self, n: i64) -> (r: bool)
        ensures
            r == has_height(self.blocks@, n as int),
    {
        let mut i: usize = 0;
        while i < self.blocks.len()
            invariant
                0 <= i <= self.blocks@.len(),
                forall|j: int| 0 <= j < i ==> #[trigger] self.blocks@[j].block_number != n,
            decreases self.blocks.len() - i,
        {
            if self.blocks[i].block_number == n {
                return true;
            }
            i = i + 1;
        }
        false
    }

    fn find_key(&self, t: &Transfer) -> (r: bool)
        ensures
            r == has_key(self.transfers@, *t),
    {
        let mut i: usize = 0;
        while i < self.transfers.len()
            invariant
                0 <= i <= self.transfers@.len(),
                forall|j: int| 0 <= j < i ==> !same_key(#[trigger] self.transfers@[j], *t),
            decreases self.transfers.len() - i,
        {
            if self.transfers[i].log_index == t.log_index && self.transfers[i].tx_hash == t.tx_hash {
                return true;
            }
            i = i + 1;
        }
        false
    }

    /// Inserts a block row unless one of its height is stored.
    pub fn insert_block(&mut self, b: &BlockDomain)
        ensures
            final(self).blocks@ == upsert_block(old(self).blocks@, *b),
            final(self).transfers@ == old(self).transfers@,
    {
        if !self.find_height(b.block_number) {
            self.blocks.push(copy_block(b));
        }
    }

    /// Inserts transfer rows in order, each unless its key is stored.
    pub fn batch_insert_transfers(&mut self, rows: &Vec<Transfer>)
        ensures
            final(self).transfers@ == upsert_transfers(old(self).transfers@, rows@),
            final(self).blocks@ == old(self).blocks@,
    {
        let ghost start = self.transfers@;
        let mut i: usize = 0;
        while i < rows.len()
            invariant
                0 <= i <= rows@.len(),
                self.blocks@ == old(self).blocks@,
                start == old(self).transfers@,
                self.transfers@ == upsert_transfers(start, rows@.subrange(0, i as int)),
            decreases rows.len() - i,
        {
            proof {
                let pre1 = rows@.subrange(0, i + 1);
                assert(pre1.drop_last() =~= rows@.subrange(0, i as int));
                assert(pre1.last() == rows@[i as int]);
            }
            if !self.find_key(&rows[i]) {
                self.transfers.push(copy_transfer(&rows[i]));
            }
            i = i + 1;
        }
        proof { assert(rows@.subrange(0, rows@.len() as int) =~= rows@); }
    }

    /// The stored block with the highest height.
    pub fn last_indexed_block(&self) -> (r: Option<BlockRow>)
        ensures
            r is None <==> self.blocks@.len() == 0,
            r matches Some(row) ==> exists|i: int| #[trigger] is_top(self.blocks@, i) && row.block_number
                == self.blocks@[i].block_number && row.block_hash@ == self.blocks@[i].block_hash@
                && row.parent_hash@ == self.blocks@[i].parent_hash@,
    {
        if self.blocks.len() == 0 {
            return None;
        }
        let mut best: usize = 0;
        let mut i: usize = 1;
        while i < self.blocks.len()
            invariant
                1 <= i <= self.blocks@.len(),
                0 <= best < self.blocks@.len(),
                forall|j: int| 0 <= j < i ==> #[trigger] self.blocks@[j].block_number <= self.blocks@[best as int].block_number,
            decreases self.blocks.len() - i,
        {
            if self.blocks[i].block_number > self.blocks[best].block_number {
                best = i;
            }
            i = i + 1;
        }
        let row = self.blocks[best].to_row();
        proof { assert(is_top(self.blocks@, best as int)); }
        Some(row)
    }

    /// Writes the rows of one block: the block row, then its transfers.
    pub fn execute_commit(&mut self, plan: &CommitPlan)
        ensures
            final(self).blocks@ == upsert_block(old(self).blocks@, plan.block),
            final(self).transfers@ == upsert_transfers(old(self).transfers@, plan.transfers@),
    {
        self.insert_block(&plan.block);
        if plan.transfers.len() > 0 {
            self.batch_insert_transfers(&plan.transfers);
        }
    }
}

} // verus!
