//! A user's collateral, liability and supply balances, keyed by reserve index.
use crate::address::Address;
use crate::errors::PoolError;
use crate::fixed_point::is_i128;
use crate::reserve::Reserve;
use vstd::prelude::*;

verus! {

/// Balances keyed by reserve index; an index without a balance holds zero.
#[derive(Clone, Debug)]
pub struct PositionMap {
    balances: Vec<i128>,
}

pub open spec fn count_nonzero(s: Seq<i128>) -> nat
    decreases s.len(),
{
    if s.len() == 0 {
        0
    } else {
        count_nonzero(s.drop_last()) + if s.last() != 0 {
            1nat
        } else {
            0nat
        }
    }
}

impl View for PositionMap {
    type V = Seq<i128>;

    closed spec fn view(&self) -> Seq<i128> {
        self.balances@
    }
}

impl PositionMap {
    /// The balance at reserve index `k`.
    pub open spec fn bal(&self, k: int) -> int {
        if 0 <= k < self@.len() {
            self@[k] as int
        } else {
            0
        }
    }

    /// Whether every balance is zero.
    pub open spec fn spec_is_empty(&self) -> bool {
        forall|k: int| #[trigger] self.bal(k) == 0
    }

    /// A map with no balances.
    pub fn new() -> (r: PositionMap)
        ensures
            r@.len() == 0,
            r.spec_is_empty(),
    {
        PositionMap { balances: Vec::new() }
    }

    /// The balance at reserve index `k`, zero when there is none.
    pub fn get(&self, k: u32) -> (r: i128)
        ensures
            r == self.bal(k as int),
    {
        let i = k as usize;
        if i < self.balances.len() {
            self.balances[i]
        } else {
            0
        }
    }

    /// The balance at position `i` of the underlying slots, zero past them.
    pub fn get_at(&self, i: usize) -> (r: i128)
        ensures
            r == self.bal(i as int),
    {
        if i < self.balances.len() {
            self.balances[i]
        } else {
            0
        }
    }

    /// Set the balance at reserve index `k`; a zero balance removes the position.
    pub fn set(&mut self, k: u32, v: i128)
        ensures
            forall|j: int| #[trigger] final(self).bal(j) == if j == k {
                v as int
            } else {
                old(self).bal(j)
            },
    {
        let i = k as usize;
        if i < self.balances.len() {
            self.balances.set(i, v);
            assert forall|j: int| #[trigger] self.bal(j) == if j == k {
                v as int
            } else {
                old(self).bal(j)
            } by {
                if 0 <= j < self@.len() {
                    assert(self@[j] == old(self)@.update(i as int, v)[j]);
                }
            }
        } else if v != 0 {
            while self.balances.len() < i
                invariant
                    self.balances@.len() <= i,
                    forall|j: int| #[trigger] self.bal(j) == old(self).bal(j),
                decreases i - self.balances@.len(),
            {
                let ghost prev = *self;
                self.balances.push(0);
                assert forall|j: int| #[trigger] self.bal(j) == old(self).bal(j) by {
                    assert(prev.bal(j) == old(self).bal(j));
                    if 0 <= j < prev@.len() {
                        assert(self@[j] == prev@[j]);
                    }
                }
            }
            let ghost prev = *self;
            self.balances.push(v);
            assert forall|j: int| #[trigger] self.bal(j) == if j == k {
                v as int
            } else {
                old(self).bal(j)
            } by {
                assert(prev.bal(j) == old(self).bal(j));
                if 0 <= j < prev@.len() {
                    assert(self@[j] == prev@[j]);
                }
            }
        } else {
            assert forall|j: int| #[trigger] self.bal(j) == if j == k {
                v as int
            } else {
                old(self).bal(j)
            } by {}
        }
    }

    /// The number of reserve indices that hold a nonzero balance.
    pub fn len(&self) -> (r: u32)
        ensures
            r as nat == count_nonzero(self@) || (r == u32::MAX && count_nonzero(self@) >= u32::MAX),
    {
        let mut n: u32 = 0;
        let mut i: usize = 0;
        while i < self.balances.len()
            invariant
                i <= self.balances@.len(),
                n as nat == count_nonzero(self@.take(i as int)),
            decreases self.balances@.len() - i,
        {
            assert(self@.take(i as int + 1).drop_last() == self@.take(i as int));
            if self.balances[i] != 0 {
                if n == u32::MAX {
                    proof { lemma_count_prefix(self@, i as int + 1); }
                    return u32::MAX;
                }
                n = n + 1;
            }
            i = i + 1;
        }
        assert(self@.take(i as int) == self@);
        n
    }

    /// Whether no reserve index holds a nonzero balance.
    pub fn is_empty(&self) -> (r: bool)
        ensures
            r == self.spec_is_empty(),
    {
        let mut i: usize = 0;
        while i < self.balances.len()
            invariant
                i <= self.balances@.len(),
                forall|j: int| 0 <= j < i ==> self@[j] == 0,
            decreases self.balances@.len() - i,
        {
            if self.balances[i] != 0 {
                assert(self.bal(i as int) != 0);
                return false;
            }
            i = i + 1;
        }
        assert forall|k: int| #[trigger] self.bal(k) == 0 by {
            if 0 <= k < self@.len() {
                assert(self@[k] == 0);
            }
        }
        true
    }

    /// One past the highest reserve index that may hold a balance.
    pub fn slots(&self) -> (r: usize)
        ensures
            r == self@.len(),
            forall|k: int| k >= r ==> #[trigger] self.bal(k) == 0,
    {
        self.balances.len()
    }
}

proof fn lemma_count_prefix(s: Seq<i128>, i: int)
    requires
        0 <= i <= s.len(),
    ensures
        count_nonzero(s.take(i)) <= count_nonzero(s),
    decreases s.len(),
{
    if i < s.len() {
        assert(s.drop_last().take(i) == s.take(i));
        lemma_count_prefix(s.drop_last(), i);
    } else {
        assert(s.take(i) == s);
    }
}

/// A user's balances across reserves: collateral and supply in b_tokens, liabilities in
/// d_tokens.
#[derive(Clone, Debug)]
pub struct Positions {
    pub liabilities: PositionMap,
    pub collateral: PositionMap,
    pub supply: PositionMap,
}

impl Positions {
    /// Positions without any balance.
    pub fn new() -> (r: Positions)
        ensures
            r.liabilities.spec_is_empty(),
            r.collateral.spec_is_empty(),
            r.supply.spec_is_empty(),
    {
        Positions { liabilities: PositionMap::new(), collateral: PositionMap::new(), supply: PositionMap::new() }
    }
}

/// A user and their positions.
#[derive(Clone, Debug)]
pub struct User {
    pub address: Address,
    pub positions: Positions,
}

/// `m` is `o` with the balance at `k` set to `v`.
pub open spec fn updated(m: PositionMap, o: PositionMap, k: int, v: int) -> bool {
    forall|j: int| #[trigger] m.bal(j) == if j == k {
        v
    } else {
        o.bal(j)
    }
}

/// `m` and `o` hold the same balances.
pub open spec fn same_balances(m: PositionMap, o: PositionMap) -> bool {
    forall|j: int| #[trigger] m.bal(j) == o.bal(j)
}

impl User {
    /// Whether the user holds any liability.
    pub fn has_liabilities(&self) -> (r: bool)
        ensures
            r == !self.positions.liabilities.spec_is_empty(),
    {
        !self.positions.liabilities.is_empty()
    }

    /// The user's d_tokens of the reserve with index `k`.
    pub fn get_liabilities(&self, k: u32) -> (r: i128)
        ensures
            r == self.positions.liabilities.bal(k as int),
    {
        self.positions.liabilities.get(k)
    }

    /// The user's collateral b_tokens of the reserve with index `k`.
    pub fn get_collateral(&self, k: u32) -> (r: i128)
        ensures
            r == self.positions.collateral.bal(k as int),
    {
        self.positions.collateral.get(k)
    }

    /// The user's uncollateralized b_tokens of the reserve with index `k`.
    pub fn get_supply(&self, k: u32) -> (r: i128)
        ensures
            r == self.positions.supply.bal(k as int),
    {
        self.positions.supply.get(k)
    }

    /// Add `amount` d_tokens to the user's liabilities and to the reserve's d_supply.
    /// Fails with `OverflowError`, changing nothing, when either sum overflows.
    pub fn add_liabilities(&mut self, reserve: &mut Reserve, amount: i128) -> (r: Result<(), PoolError>)
        ensures
            ({
                let bal = old(self).positions.liabilities.bal(old(reserve).index as int);
                if is_i128(bal + amount) && is_i128(old(reserve).d_supply + amount) {
                    &&& r is Ok
                    &&& updated(final(self).positions.liabilities, old(self).positions.liabilities, old(reserve).index as int, bal + amount)
                    &&& *final(reserve) == Reserve { d_supply: (old(reserve).d_supply + amount) as i128, ..*old(reserve) }
                } else {
                    &&& r == Err::<(), PoolError>(PoolError::OverflowError)
                    &&& same_balances(final(self).positions.liabilities, old(self).positions.liabilities)
                    &&& *final(reserve) == *old(reserve)
                }
            }),
            final(self).address == old(self).address,
            same_balances(final(self).positions.collateral, old(self).positions.collateral),
            same_balances(final(self).positions.supply, old(self).positions.supply),
    {
        let balance = self.positions.liabilities.get(reserve.index);
        let new_balance = match balance.checked_add(amount) {
            Some(v) => v,
            None => {
                return Err(PoolError::OverflowError);
            },
        };
        let d_supply = match reserve.d_supply.checked_add(amount) {
            Some(v) => v,
            None => {
                return Err(PoolError::OverflowError);
            },
        };
        self.positions.liabilities.set(reserve.index, new_balance);
        reserve.d_supply = d_supply;
        Ok(())
    }

    /// Remove `amount` d_tokens from the user's liabilities and from the reserve's d_supply.
    /// Fails with `NegativeAmountError` when the user holds fewer, and with
    /// `OverflowError` when the reserve's d_supply underflows; either way nothing changes.
    pub fn remove_liabilities(&mut self, reserve: &mut Reserve, amount: i128) -> (r: Result<(), PoolError>)
        ensures
            ({
                let bal = old(self).positions.liabilities.bal(old(reserve).index as int);
                if !is_i128(bal - amount) {
                    &&& r == Err::<(), PoolError>(PoolError::OverflowError)
                    &&& same_balances(final(self).positions.liabilities, old(self).positions.liabilities)
                    &&& *final(reserve) == *old(reserve)
                } else if bal - amount < 0 {
                    &&& r == Err::<(), PoolError>(PoolError::NegativeAmountError)
                    &&& same_balances(final(self).positions.liabilities, old(self).positions.liabilities)
                    &&& *final(reserve) == *old(reserve)
                } else if !is_i128(old(reserve).d_supply - amount) {
                    &&& r == Err::<(), PoolError>(PoolError::OverflowError)
                    &&& same_balances(final(self).positions.liabilities, old(self).positions.liabilities)
                    &&& *final(reserve) == *old(reserve)
                } else {
                    &&& r is Ok
                    &&& updated(final(self).positions.liabilities, old(self).positions.liabilities, old(reserve).index as int, bal - amount)
                    &&& *final(reserve) == Reserve { d_supply: (old(reserve).d_supply - amount) as i128, ..*old(reserve) }
                }
            }),
            final(self).address == old(self).address,
            same_balances(final(self).positions.collateral, old(self).positions.collateral),
            same_balances(final(self).positions.supply, old(self).positions.supply),
    {
        let balance = self.positions.liabilities.get(reserve.index);
        let new_balance = match balance.checked_sub(amount) {
            Some(v) => v,
            None => {
                return Err(PoolError::OverflowError);
            },
        };
        if new_balance < 0 {
            return Err(PoolError::NegativeAmountError);
        }
        let d_supply = match reserve.d_supply.checked_sub(amount) {
            Some(v) => v,
            None => {
                return Err(PoolError::OverflowError);
            },
        };
        self.positions.liabilities.set(reserve.index, new_balance);
        reserve.d_supply = d_supply;
        Ok(())
    }

    /// Add `amount` b_tokens to the user's collateral and to the reserve's b_supply.
    /// Fails with `OverflowError`, changing nothing, when either sum overflows.
    pub fn add_collateral(&mut self, reserve: &mut Reserve, amount: i128) -> (r: Result<(), PoolError>)
        ensures
            ({
                let bal = old(self).positions.collateral.bal(old(reserve).index as int);
                if is_i128(bal + amount) && is_i128(old(reserve).b_supply + amount) {
                    &&& r is Ok
                    &&& updated(final(self).positions.collateral, old(self).positions.collateral, old(reserve).index as int, bal + amount)
                    &&& *final(reserve) == Reserve { b_supply: (old(reserve).b_supply + amount) as i128, ..*old(reserve) }
                } else {
                    &&& r == Err::<(), PoolError>(PoolError::OverflowError)
                    &&& same_balances(final(self).positions.collateral, old(self).positions.collateral)
                    &&& *final(reserve) == *old(reserve)
                }
            }),
            final(self).address == old(self).address,
            same_balances(final(self).positions.liabilities, old(self).positions.liabilities),
            same_balances(final(self).positions.supply, old(self).positions.supply),
    {
        let balance = self.positions.collateral.get(reserve.index);
        let new_balance = match balance.checked_add(amount) {
            Some(v) => v,
            None => {
                return Err(PoolError::OverflowError);
            },
        };
        let b_supply = match reserve.b_supply.checked_add(amount) {
            Some(v) => v,
            None => {
                return Err(PoolError::OverflowError);
            },
        };
        self.positions.collateral.set(reserve.index, new_balance);
        reserve.b_supply = b_supply;
        Ok(())
    }

    /// Remove `amount` b_tokens from the user's collateral and from the reserve's b_supply.
    /// Fails with `NegativeAmountError` when the user holds fewer, and with
    /// `OverflowError` when a difference overflows; either way nothing changes.
    pub fn remove_collateral(&mut self, reserve: &mut Reserve, amount: i128) -> (r: Result<(), PoolError>)
        ensures
            ({
                let bal = old(self).positions.collateral.bal(old(reserve).index as int);
                if !is_i128(bal - amount) || (bal - amount >= 0 && !is_i128(old(reserve).b_supply - amount)) {
                    &&& r == Err::<(), PoolError>(PoolError::OverflowError)
                    &&& same_balances(final(self).positions.collateral, old(self).positions.collateral)
                    &&& *final(reserve) == *old(reserve)
                } else if bal - amount < 0 {
                    &&& r == Err::<(), PoolError>(PoolError::NegativeAmountError)
                    &&& same_balances(final(self).positions.collateral, old(self).positions.collateral)
                    &&& *final(reserve) == *old(reserve)
                } else {
                    &&& r is Ok
                    &&& updated(final(self).positions.collateral, old(self).positions.collateral, old(reserve).index as int, bal - amount)
                    &&& *final(reserve) == Reserve { b_supply: (old(reserve).b_supply - amount) as i128, ..*old(reserve) }
                }
            }),
            final(self).address == old(self).address,
            same_balances(final(self).positions.liabilities, old(self).positions.liabilities),
            same_balances(final(self).positions.supply, old(self).positions.supply),
    {
        let balance = self.positions.collateral.get(reserve.index);
        let new_balance = match balance.checked_sub(amount) {
            Some(v) => v,
            None => {
                return Err(PoolError::OverflowError);
            },
        };
        if new_balance < 0 {
            return Err(PoolError::NegativeAmountError);
        }
        let b_supply = match reserve.b_supply.checked_sub(amount) {
            Some(v) => v,
            None => {
                return Err(PoolError::OverflowError);
            },
        };
        self.positions.collateral.set(reserve.index, new_balance);
        reserve.b_supply = b_supply;
        Ok(())
    }

    /// Add `amount` b_tokens to the user's uncollateralized supply and to the reserve's
    /// b_supply. Fails with `OverflowError`, changing nothing, when either sum overflows.
    pub fn add_supply(&mut self, reserve: &mut Reserve, amount: i128) -> (r: Result<(), PoolError>)
        ensures
            ({
                let bal = old(self).positions.supply.bal(old(reserve).index as int);
                if is_i128(bal + amount) && is_i128(old(reserve).b_supply + amount) {
                    &&& r is Ok
                    &&& updated(final(self).positions.supply, old(self).positions.supply, old(reserve).index as int, bal + amount)
                    &&& *final(reserve) == Reserve { b_supply: (old(reserve).b_supply + amount) as i128, ..*old(reserve) }
                } else {
                    &&& r == Err::<(), PoolError>(PoolError::OverflowError)
                    &&& same_balances(final(self).positions.supply, old(self).positions.supply)
                    &&& *final(reserve) == *old(reserve)
                }
            }),
            final(self).address == old(self).address,
            same_balances(final(self).positions.liabilities, old(self).positions.liabilities),
            same_balances(final(self).positions.collateral, old(self).positions.collateral),
    {
        let balance = self.positions.supply.get(reserve.index);
        let new_balance = match balance.checked_add(amount) {
            Some(v) => v,
            None => {
                return Err(PoolError::OverflowError);
            },
        };
        let b_supply = match reserve.b_supply.checked_add(amount) {
            Some(v) => v,
            None => {
                return Err(PoolError::OverflowError);
            },
        };
        self.positions.supply.set(reserve.index, new_balance);
        reserve.b_supply = b_supply;
        Ok(())
    }

    /// Remove `amount` b_tokens from the user's uncollateralized supply and from the
    /// reserve's b_supply. Fails with `NegativeAmountError` when the user holds fewer, and
    /// with `OverflowError` when a difference overflows; either way nothing changes.
    pub fn remove_supply(&mut self, reserve: &mut Reserve, amount: i128) -> (r: Result<(), PoolError>)
        ensures
            ({
                let bal = old(self).positions.supply.bal(old(reserve).index as int);
                if !is_i128(bal - amount) || (bal - amount >= 0 && !is_i128(old(reserve).b_supply - amount)) {
                    &&& r == Err::<(), PoolError>(PoolError::OverflowError)
                    &&& same_balances(final(self).positions.supply, old(self).positions.supply)
                    &&& *final(reserve) == *old(reserve)
                } else if bal - amount < 0 {
                    &&& r == Err::<(), PoolError>(PoolError::NegativeAmountError)
                    &&& same_balances(final(self).positions.supply, old(self).positions.supply)
                    &&& *final(reserve) == *old(reserve)
                } else {
                    &&& r is Ok
                    &&& updated(final(self).positions.supply, old(self).positions.supply, old(reserve).index as int, bal - amount)
                    &&& *final(reserve) == Reserve { b_supply: (old(reserve).b_supply - amount) as i128, ..*old(reserve) }
                }
            }),
            final(self).address == old(self).address,
            same_balances(final(self).positions.liabilities, old(self).positions.liabilities),
            same_balances(final(self).positions.collateral, old(self).positions.collateral),
    {
        let balance = self.positions.supply.get(reserve.index);
        let new_balance = match balance.checked_sub(amount) {
            Some(v) => v,
            None => {
                return Err(PoolError::OverflowError);
            },
        };
        if new_balance < 0 {
            return Err(PoolError::NegativeAmountError);
        }
        let b_supply = match reserve.b_supply.checked_sub(amount) {
            Some(v) => v,
            None => {
                return Err(PoolError::OverflowError);
            },
        };
        self.positions.supply.set(reserve.index, new_balance);
        reserve.b_supply = b_supply;
        Ok(())
    }
}

} // verus!
