//! The endpoint pool: a fixed, non-empty set of RPC client handles handed
//! out in strict round-robin order.

use vstd::prelude::*;
use crate::error::AppError;

verus! {

/// RPC client handles, one per API key, and the position of the next pick.
#[derive(Debug)]
pub struct EthereumProvider<H> {
    pub providers: Vec<H>,
    pub index: usize,
}

impl<H> EthereumProvider<H> {
    pub open spec fn wf(&self) -> bool {
        self.providers@.len() > 0 && self.index < self.providers@.len()
    }

    /// The position of the handle that the next pick returns.
    pub open spec fn selected(&self) -> int {
        self.index as int
    }

    /// A pool over the given handles; an empty set of handles is refused.
    pub fn new(providers: Vec<H>) -> (r: Result<EthereumProvider<H>, AppError>)
        ensures
            providers@.len() == 0 <==> r is Err,
            r matches Err(e) ==> e is Validation,
            r matches Ok(p) ==> p.wf() && p.providers@ == providers@ && p.index == 0,
    {
        if providers.len() == 0 {
            return Err(AppError::Validation("no valid api keys provided".to_string()));
        }
        Ok(EthereumProvider { providers, index: 0 })
    }

    pub fn len(&self) -> (r: usize)
        ensures
            r == self.providers@.len(),
    {
        self.providers.len()
    }

    /// The position of the next handle, advancing it by one modulo the
    /// number of handles.
    pub fn pick(&mut self) -> (r: usize)
        requires
            old(self).wf(),
        ensures
            final(self).wf(),
            r == old(self).selected(),
            r < old(self).providers@.len(),
            final(self).providers@ == old(self).providers@,
            final(self).index == (old(self).index + 1) % (old(self).providers@.len() as int),
    {
        let i = self.index;
        let n = self.providers.len();
        proof {
            if i + 1 < n {
                vstd::arithmetic::div_mod::lemma_small_mod((i + 1) as nat, n as nat);
            } else {
                vstd::arithmetic::div_mod::lemma_mod_self_0(n as int);
            }
        }
        self.index = if self.index < n - 1 { self.index + 1 } else { 0 };
        i
    }

    /// The next handle in round-robin order.
    pub fn get_provider(&mut self) -> (r: &H)
        requires
            old(self).wf(),
        ensures
            final(self).wf(),
            *r == old(self).providers@[old(self).selected()],
            final(self).providers@ == old(self).providers@,
            final(self).index == (old(self).index + 1) % (old(self).providers@.len() as int),
    {
        let i = self.pick();
        &self.providers[i]
    }
}

/// The position after `k` picks from position `i` of `n`, each pick
/// moving one on modulo `n` (as `pick` does).
pub open spec fn position_after(i: int, n: int, k: nat) -> int
    decreases k,
{
    if k == 0 { i } else { (position_after(i, n, (k - 1) as nat) + 1) % n }
}

/// Round-robin order: from position `i` of a pool of `n` handles, the picks
/// return `i, i + 1, ...` modulo `n`; the `k`-th pick after the first
/// returns `(i + k) mod n`.
pub proof fn lemma_round_robin<H>(p: EthereumProvider<H>, k: nat)
    requires
        p.wf(),
    ensures
        position_after(p.selected(), p.providers@.len() as int, k) == (p.selected() + k) % (p.providers@.len() as int),
    decreases k,
{
    let n = p.providers@.len() as int;
    if k == 0 {
        vstd::arithmetic::div_mod::lemma_small_mod(p.index as nat, n as nat);
    } else {
        lemma_round_robin(p, (k - 1) as nat);
        vstd::arithmetic::div_mod::lemma_add_mod_noop_right(1, p.selected() + k - 1, n);
        assert((p.selected() + (k - 1)) % n + 1 == 1 + (p.selected() + k - 1) % n);
    }
}

} // verus!
