//! Connection distribution: strict round-robin over a fixed pool of worker
//! shards, independent of shard load. Fairness over balance is deliberate:
//! a saturated shard's full mailbox stalls the whole accept loop.

use vstd::prelude::*;

verus! {

/// The round-robin shard selector. The ghost `accepted` counter numbers
/// the admitted connections from zero; the `k`-th one goes to shard
/// `k % shard_count`.
pub struct RoundRobin {
    shard_count: usize,
    next: usize,
    accepted: Ghost<nat>,
}

impl RoundRobin {
    pub closed spec fn shard_count(&self) -> int {
        self.shard_count as int
    }

    pub closed spec fn accepted(&self) -> nat {
        self.accepted@
    }

    pub closed spec fn wf(&self) -> bool {
        &&& self.shard_count > 0
        &&& self.next < self.shard_count
        &&& self.next as int == self.accepted@ as int % self.shard_count as int
    }

    pub fn new(shard_count: usize) -> (r: Self)
        requires
            shard_count > 0,
        ensures
            r.wf(),
            r.shard_count() == shard_count,
            r.accepted() == 0,
    {
        proof {
            vstd::arithmetic::div_mod::lemma_small_mod(0, shard_count as nat);
        }
        RoundRobin { shard_count, next: 0, accepted: Ghost(0) }
    }

    /// Assigns the next accepted connection: the `accepted()`-th
    /// connection (0-indexed) is routed to shard
    /// `accepted() % shard_count()`, always in range.
    pub fn pick(&mut self) -> (shard: usize)
        requires
            old(self).wf(),
        ensures
            final(self).wf(),
            final(self).shard_count() == old(self).shard_count(),
            final(self).accepted() == old(self).accepted() + 1,
            shard as int == old(self).accepted() as int % old(self).shard_count(),
            shard < old(self).shard_count(),
    {
        let shard = self.next;
        self.next = if self.next + 1 == self.shard_count {
            0
        } else {
            self.next + 1
        };
        proof {
            self.accepted@ = self.accepted@ + 1;
            let a = (old(self).accepted@) as int;
            let n = old(self).shard_count as int;
            vstd::arithmetic::div_mod::lemma_fundamental_div_mod(a, n);
            let q = a / n;
            assert(a == q * n + (a % n));
            if shard + 1 == n {
                assert(a + 1 == (q + 1) * n) by (nonlinear_arith)
                    requires
                        a == q * n + shard,
                        shard + 1 == n,
                {}
                vstd::arithmetic::div_mod::lemma_mod_multiples_basic(q + 1, n);
            } else {
                vstd::arithmetic::div_mod::lemma_fundamental_div_mod_converse(
                    a + 1,
                    n,
                    q,
                    shard + 1,
                );
            }
        }
        shard
    }
}

} // verus!
