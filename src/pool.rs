//! The reserves a pool operation works on, held in memory for the whole operation.
use crate::address::Address;
use crate::errors::PoolError;
use crate::reserve::{PoolConfig, Reserve};
use vstd::prelude::*;

verus! {

/// A pool's configuration and its reserves, the reserve with index `i` at position `i`.
///
/// An operation mutates the reserves in memory; the caller persists them once it
/// succeeded and discards them otherwise.
#[derive(Clone, Debug)]
pub struct Pool {
    pub config: PoolConfig,
    pub reserves: Vec<Reserve>,
}

/// The first position at or after `i` of a reserve of `asset`, or -1.
pub open spec fn first_pos(s: Seq<Reserve>, asset: Address, i: int) -> int
    decreases s.len() - i,
{
    if i < 0 || i >= s.len() {
        -1
    } else if s[i].asset == asset {
        i
    } else {
        first_pos(s, asset, i + 1)
    }
}

proof fn lemma_first_pos_bounds(s: Seq<Reserve>, asset: Address, i: int)
    requires
        0 <= i,
    ensures
        first_pos(s, asset, i) == -1 || (i <= first_pos(s, asset, i) < s.len() && s[first_pos(s, asset, i)].asset == asset),
    decreases s.len() - i,
{
    if i < s.len() && s[i].asset != asset {
        lemma_first_pos_bounds(s, asset, i + 1);
    }
}

impl Pool {
    /// Each reserve stands at the position of its index.
    pub open spec fn wf(&self) -> bool {
        forall|i: int| 0 <= i < self.reserves@.len() ==> (#[trigger] self.reserves@[i]).index == i
    }

    /// A pool of `reserves`; fails with `InternalReserveNotFound` unless each reserve
    /// stands at the position of its index.
    pub fn new(config: PoolConfig, reserves: Vec<Reserve>) -> (r: Result<Pool, PoolError>)
        ensures
            r matches Ok(p) ==> p.config == config && p.reserves@ == reserves@ && p.wf(),
            r is Err <==> !(Pool { config, reserves }).wf(),
            r is Err ==> r == Err::<Pool, PoolError>(PoolError::InternalReserveNotFound),
    {
        let mut i: usize = 0;
        while i < reserves.len()
            invariant
                i <= reserves@.len(),
                forall|j: int| 0 <= j < i ==> (#[trigger] reserves@[j]).index == j,
            decreases reserves@.len() - i,
        {
            if reserves[i].index as usize != i {
                assert(!(Pool { config, reserves }).wf()) by {
                    assert((Pool { config, reserves }).reserves@[i as int].index != i);
                }
                return Err(PoolError::InternalReserveNotFound);
            }
            i = i + 1;
        }
        Ok(Pool { config, reserves })
    }

    /// The position of the reserve of `asset`, if the pool has one.
    pub fn find_reserve(&self, asset: Address) -> (r: Option<usize>)
        ensures
            r matches Some(i) ==> i < self.reserves@.len() && self.reserves@[i as int].asset == asset
                && i == first_pos(self.reserves@, asset, 0),
            r is None <==> first_pos(self.reserves@, asset, 0) == -1,
    {
        proof { lemma_first_pos_bounds(self.reserves@, asset, 0); }
        let mut i: usize = 0;
        while i < self.reserves.len()
            invariant
                i <= self.reserves@.len(),
                first_pos(self.reserves@, asset, 0) == first_pos(self.reserves@, asset, i as int),
            decreases self.reserves@.len() - i,
        {
            if self.reserves[i].asset == asset {
                return Some(i);
            }
            i = i + 1;
        }
        None
    }
}

} // verus!
