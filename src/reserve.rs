//! Per-asset interest-bearing reserve: accrual and b/d token conversions.
use crate::address::Address;
use crate::errors::PoolError;
use crate::fixed_point::{
    fixed_div_ceil, fixed_div_floor, fixed_mul_ceil, fixed_mul_floor, is_i128, mul_div_ceil,
    mul_div_floor, SCALAR_7, SCALAR_9,
};
use crate::request::{REQUEST_BORROW, REQUEST_SUPPLY, REQUEST_SUPPLY_COLLATERAL};
use vstd::prelude::*;

verus! {

/// Persisted configuration of a reserve.
#[derive(Clone, Copy, Debug, PartialEq, Eq, Structural)]
pub struct ReserveConfig {
    pub index: u32,
    pub decimals: u32,
    pub c_factor: u32,
    pub l_factor: u32,
    pub util: u32,
    pub max_util: u32,
    pub r_base: u32,
    pub r_one: u32,
    pub r_two: u32,
    pub r_three: u32,
    pub reactivity: u32,
    pub collateral_cap: i128,
    pub enabled: bool,
}

/// Persisted, time-dependent state of a reserve.
#[derive(Clone, Copy, Debug, PartialEq, Eq, Structural)]
pub struct ReserveData {
    pub d_rate: i128,
    pub b_rate: i128,
    pub ir_mod: i128,
    pub b_supply: i128,
    pub d_supply: i128,
    pub backstop_credit: i128,
    pub last_time: u64,
}

/// Pool-wide configuration.
#[derive(Clone, Copy, Debug, PartialEq, Eq, Structural)]
pub struct PoolConfig {
    pub oracle: Address,
    pub bstop_rate: u32,
    pub status: u32,
    pub max_positions: u32,
}

/// A reserve loaded into memory and brought up to date.
#[derive(Clone, Copy, Debug, PartialEq, Eq, Structural)]
pub struct Reserve {
    pub asset: Address,
    pub index: u32,
    pub l_factor: u32,
    pub c_factor: u32,
    pub max_util: u32,
    pub last_time: u64,
    pub scalar: i128,
    pub d_rate: i128,
    pub b_rate: i128,
    pub ir_mod: i128,
    pub b_supply: i128,
    pub d_supply: i128,
    pub backstop_credit: i128,
    pub collateral_cap: i128,
    pub enabled: bool,
}

/// An optional amount as the result of a pool computation: no amount is an overflow.
pub open spec fn res_of(o: Option<int>) -> Result<i128, PoolError> {
    match o {
        Some(v) => Ok(v as i128),
        None => Err(PoolError::OverflowError),
    }
}

pub open spec fn then_ceil(o: Option<int>, y: int, z: int) -> Option<int> {
    match o {
        Some(v) => mul_div_ceil(v, y, z),
        None => None,
    }
}

pub open spec fn then_floor(o: Option<int>, y: int, z: int) -> Option<int> {
    match o {
        Some(v) => mul_div_floor(v, y, z),
        None => None,
    }
}

pub open spec fn pow10(n: nat) -> int
    decreases n,
{
    if n == 0 {
        1
    } else {
        10 * pow10((n - 1) as nat)
    }
}

/// Ten to the power `decimals`, or `None` when it exceeds `i128`.
pub fn scalar_of(decimals: u32) -> (r: Option<i128>)
    ensures
        r matches Some(v) ==> v == pow10(decimals as nat) && is_i128(pow10(decimals as nat)),
        r is None ==> !is_i128(pow10(decimals as nat)),
{
    let mut acc: i128 = 1;
    let mut i: u32 = 0;
    while i < decimals
        invariant
            i <= decimals,
            acc == pow10(i as nat),
            acc >= 1,
        decreases decimals - i,
    {
        match acc.checked_mul(10) {
            Some(v) => {
                acc = v;
            },
            None => {
                proof { lemma_pow10_grows((i + 1) as nat, decimals as nat); }
                return None;
            },
        }
        i = i + 1;
    }
    Some(acc)
}

proof fn lemma_pow10_grows(a: nat, b: nat)
    requires
        a <= b,
    ensures
        pow10(a) <= pow10(b),
        pow10(a) >= 1,
    decreases b,
{
    if a < b {
        lemma_pow10_grows(a, (b - 1) as nat);
    } else if a > 0 {
        lemma_pow10_grows((a - 1) as nat, (a - 1) as nat);
    }
}

impl Reserve {
    /// The reserve built from its persisted parts, before any accrual.
    pub open spec fn spec_from_stored(config: ReserveConfig, data: ReserveData, asset: Address) -> Option<Reserve> {
        if is_i128(pow10(config.decimals as nat)) {
            Some(Reserve {
                asset,
                index: config.index,
                l_factor: config.l_factor,
                c_factor: config.c_factor,
                max_util: config.max_util,
                last_time: data.last_time,
                scalar: pow10(config.decimals as nat) as i128,
                d_rate: data.d_rate,
                b_rate: data.b_rate,
                ir_mod: data.ir_mod,
                b_supply: data.b_supply,
                d_supply: data.d_supply,
                backstop_credit: data.backstop_credit,
                collateral_cap: config.collateral_cap,
                enabled: config.enabled,
            })
        } else {
            None
        }
    }

    pub open spec fn spec_asset_from_d(&self, d_tokens: int) -> Option<int> {
        mul_div_ceil(d_tokens, self.d_rate as int, SCALAR_9 as int)
    }

    pub open spec fn spec_asset_from_b(&self, b_tokens: int) -> Option<int> {
        mul_div_floor(b_tokens, self.b_rate as int, SCALAR_9 as int)
    }

    pub open spec fn spec_effective_from_d(&self, d_tokens: int) -> Option<int> {
        then_ceil(self.spec_asset_from_d(d_tokens), SCALAR_7 as int, self.l_factor as int)
    }

    pub open spec fn spec_effective_from_b(&self, b_tokens: int) -> Option<int> {
        then_floor(self.spec_asset_from_b(b_tokens), self.c_factor as int, SCALAR_7 as int)
    }

    pub open spec fn spec_d_token_up(&self, amount: int) -> Option<int> {
        mul_div_ceil(amount, SCALAR_9 as int, self.d_rate as int)
    }

    pub open spec fn spec_d_token_down(&self, amount: int) -> Option<int> {
        mul_div_floor(amount, SCALAR_9 as int, self.d_rate as int)
    }

    pub open spec fn spec_b_token_up(&self, amount: int) -> Option<int> {
        mul_div_ceil(amount, SCALAR_9 as int, self.b_rate as int)
    }

    pub open spec fn spec_b_token_down(&self, amount: int) -> Option<int> {
        mul_div_floor(amount, SCALAR_9 as int, self.b_rate as int)
    }

    pub open spec fn spec_total_liabilities(&self) -> Option<int> {
        self.spec_asset_from_d(self.d_supply as int)
    }

    pub open spec fn spec_total_supply(&self) -> Option<int> {
        self.spec_asset_from_b(self.b_supply as int)
    }

    pub open spec fn spec_utilization(&self) -> Option<int> {
        match (self.spec_total_liabilities(), self.spec_total_supply()) {
            (Some(l), Some(s)) => mul_div_ceil(l, SCALAR_7 as int, s),
            _ => None,
        }
    }

    /// The reserve after `accrued` underlying tokens of interest are added to its supply.
    pub open spec fn spec_gulp(self, bstop_rate: u32, accrued: int) -> Option<Reserve> {
        match self.spec_total_supply() {
            None => None,
            Some(pre) => if accrued <= 0 {
                Some(self)
            } else {
                let credit = if bstop_rate > 0 {
                    mul_div_floor(accrued, bstop_rate as int, SCALAR_7 as int)
                } else {
                    Some(0int)
                };
                match credit {
                    None => None,
                    Some(c) => {
                        let new_credit = self.backstop_credit + c;
                        let net = pre + accrued - c;
                        if !is_i128(new_credit) || !is_i128(pre + accrued) || !is_i128(net) {
                            None
                        } else {
                            match mul_div_floor(net, SCALAR_9 as int, self.b_supply as int) {
                                None => None,
                                Some(b_rate) => Some(
                                    Reserve {
                                        backstop_credit: new_credit as i128,
                                        b_rate: b_rate as i128,
                                        ..self
                                    },
                                ),
                            }
                        }
                    },
                }
            },
        }
    }

    /// The reserve after an interest accrual factor and a new rate modifier are applied at `now`.
    pub open spec fn spec_accrue(
        self,
        bstop_rate: u32,
        loan_accrual: i128,
        new_ir_mod: i128,
        now: u64,
    ) -> Option<Reserve> {
        let r1 = Reserve { ir_mod: new_ir_mod, ..self };
        match r1.spec_total_liabilities() {
            None => None,
            Some(pre) => match mul_div_ceil(loan_accrual as int, self.d_rate as int, SCALAR_9 as int) {
                None => None,
                Some(d_rate) => {
                    let r2 = Reserve { d_rate: d_rate as i128, ..r1 };
                    match r2.spec_total_liabilities() {
                        None => None,
                        Some(post) => if !is_i128(post - pre) {
                            None
                        } else {
                            match r2.spec_gulp(bstop_rate, post - pre) {
                                None => None,
                                Some(r3) => Some(Reserve { last_time: now, ..r3 }),
                            }
                        },
                    }
                },
            },
        }
    }

    /// Whether loading at `now` calls the interest curve.
    pub open spec fn accrual_due(&self, now: u64) -> bool {
        now != self.last_time && self.b_supply != 0 && (self.spec_utilization() matches Some(u) && u != 0)
    }

    /// The outcome of bringing `self` up to `now`, given what the interest curve returned
    /// (ignored where no accrual is due).
    pub open spec fn spec_load(self, bstop_rate: u32, now: u64, accrual: (i128, i128)) -> Option<Reserve> {
        if now == self.last_time {
            Some(self)
        } else if self.b_supply == 0 {
            Some(Reserve { last_time: now, ..self })
        } else {
            match self.spec_utilization() {
                None => None,
                Some(util) => if util == 0 {
                    Some(Reserve { last_time: now, ..self })
                } else {
                    self.spec_accrue(bstop_rate, accrual.0, accrual.1, now)
                },
            }
        }
    }

    pub open spec fn reserve_res(o: Option<Reserve>) -> Result<Reserve, PoolError> {
        match o {
            Some(r) => Ok(r),
            None => Err(PoolError::OverflowError),
        }
    }

    /// Load a reserve from its persisted parts and bring it up to `now`.
    ///
    /// `calc_accrual` is the interest-rate curve: from the current utilization, the rate
    /// modifier and the time of the last update it returns the accrual factor and the new
    /// rate modifier. It is called only when interest is due.
    pub fn load<F: Fn(i128, i128, u64) -> (i128, i128)>(
        config: &ReserveConfig,
        data: &ReserveData,
        asset: Address,
        bstop_rate: u32,
        now: u64,
        calc_accrual: &F,
    ) -> (r: Result<Reserve, PoolError>)
        requires
            forall|u: i128, m: i128, t: u64| calc_accrual.requires((u, m, t)),
        ensures
            match Reserve::spec_from_stored(*config, *data, asset) {
                None => r == Err::<Reserve, PoolError>(PoolError::OverflowError),
                Some(base) => {
                    &&& !base.accrual_due(now) ==> r == Reserve::reserve_res(
                        base.spec_load(bstop_rate, now, (0i128, 0i128)),
                    )
                    &&& base.accrual_due(now) ==> exists|acc: (i128, i128)|
                        {
                            &&& #[trigger] calc_accrual.ensures(
                                (base.spec_utilization().unwrap() as i128, base.ir_mod, base.last_time),
                                acc,
                            )
                            &&& r == Reserve::reserve_res(base.spec_load(bstop_rate, now, acc))
                        }
                },
            },
    {
        let scalar = match scalar_of(config.decimals) {
            Some(s) => s,
            None => {
                return Err(PoolError::OverflowError);
            },
        };
        let mut reserve = Reserve {
            asset,
            index: config.index,
            l_factor: config.l_factor,
            c_factor: config.c_factor,
            max_util: config.max_util,
            last_time: data.last_time,
            scalar,
            d_rate: data.d_rate,
            b_rate: data.b_rate,
            ir_mod: data.ir_mod,
            b_supply: data.b_supply,
            d_supply: data.d_supply,
            backstop_credit: data.backstop_credit,
            collateral_cap: config.collateral_cap,
            enabled: config.enabled,
        };
        let ghost base = reserve;
        assert(Reserve::spec_from_stored(*config, *data, asset) == Some(base));
        // already brought up to date at this instant
        if now == reserve.last_time {
            return Ok(reserve);
        }
        if reserve.b_supply == 0 {
            reserve.last_time = now;
            return Ok(reserve);
        }
        let cur_util = reserve.utilization()?;
        if cur_util == 0 {
            // nothing is borrowed, so no interest accrues
            reserve.last_time = now;
            return Ok(reserve);
        }
        let acc = calc_accrual(cur_util, reserve.ir_mod, reserve.last_time);
        reserve.accrue(bstop_rate, acc.0, acc.1, now)?;
        Ok(reserve)
    }

    /// Apply an interest accrual factor and a new rate modifier, as returned by the
    /// interest-rate curve, and mark the reserve updated at `now`.
    ///
    /// On error the reserve is left unchanged.
    pub fn accrue(&mut self, bstop_rate: u32, loan_accrual: i128, new_ir_mod: i128, now: u64) -> (r: Result<(), PoolError>)
        ensures
            match old(self).spec_accrue(bstop_rate, loan_accrual, new_ir_mod, now) {
                Some(n) => r is Ok && *final(self) == n,
                None => r == Err::<(), PoolError>(PoolError::OverflowError) && *final(self) == *old(self),
            },
    {
        let mut next = *self;
        next.ir_mod = new_ir_mod;
        let pre_update_liabilities = next.total_liabilities()?;
        let d_rate = match fixed_mul_ceil(loan_accrual, self.d_rate, SCALAR_9) {
            Some(v) => v,
            None => {
                return Err(PoolError::OverflowError);
            },
        };
        next.d_rate = d_rate;
        let post_update_liabilities = next.total_liabilities()?;
        let accrued_interest = match post_update_liabilities.checked_sub(pre_update_liabilities) {
            Some(v) => v,
            None => {
                return Err(PoolError::OverflowError);
            },
        };
        next.gulp(bstop_rate, accrued_interest)?;
        next.last_time = now;
        *self = next;
        Ok(())
    }

    /// The persisted state of this reserve.
    pub fn store(&self) -> (r: ReserveData)
        ensures
            r == self.spec_data(),
    {
        ReserveData {
            d_rate: self.d_rate,
            b_rate: self.b_rate,
            ir_mod: self.ir_mod,
            b_supply: self.b_supply,
            d_supply: self.d_supply,
            backstop_credit: self.backstop_credit,
            last_time: self.last_time,
        }
    }

    pub open spec fn spec_data(&self) -> ReserveData {
        ReserveData {
            d_rate: self.d_rate,
            b_rate: self.b_rate,
            ir_mod: self.ir_mod,
            b_supply: self.b_supply,
            d_supply: self.d_supply,
            backstop_credit: self.backstop_credit,
            last_time: self.last_time,
        }
    }

    /// Accrue `accrued` underlying tokens to the reserve supply: credit the backstop its
    /// share and raise the b_rate by the rest. Nothing changes when `accrued <= 0`.
    ///
    /// On error the reserve is left unchanged.
    pub fn gulp(&mut self, bstop_rate: u32, accrued: i128) -> (r: Result<(), PoolError>)
        ensures
            match old(self).spec_gulp(bstop_rate, accrued as int) {
                Some(n) => r is Ok && *final(self) == n,
                None => r == Err::<(), PoolError>(PoolError::OverflowError) && *final(self) == *old(self),
            },
    {
        let pre_update_supply = self.total_supply()?;
        if accrued > 0 {
            // the backstop takes its rate of the interest, the suppliers the rest
            let mut new_backstop_credit: i128 = 0;
            if bstop_rate > 0 {
                new_backstop_credit = match fixed_mul_floor(accrued, bstop_rate as i128, SCALAR_7) {
                    Some(v) => v,
                    None => {
                        return Err(PoolError::OverflowError);
                    },
                };
            }
            let backstop_credit = match self.backstop_credit.checked_add(new_backstop_credit) {
                Some(v) => v,
                None => {
                    return Err(PoolError::OverflowError);
                },
            };
            let grown = match pre_update_supply.checked_add(accrued) {
                Some(v) => v,
                None => {
                    return Err(PoolError::OverflowError);
                },
            };
            let net = match grown.checked_sub(new_backstop_credit) {
                Some(v) => v,
                None => {
                    return Err(PoolError::OverflowError);
                },
            };
            let b_rate = match fixed_div_floor(net, self.b_supply, SCALAR_9) {
                Some(v) => v,
                None => {
                    return Err(PoolError::OverflowError);
                },
            };
            self.backstop_credit = backstop_credit;
            self.b_rate = b_rate;
        }
        Ok(())
    }

    /// Utilization, total liabilities over total supply, rounded up to 7 decimals.
    pub fn utilization(&self) -> (r: Result<i128, PoolError>)
        ensures
            r == res_of(self.spec_utilization()),
    {
        let liabilities = self.total_liabilities()?;
        let supply = self.total_supply()?;
        match fixed_div_ceil(liabilities, supply, SCALAR_7) {
            Some(v) => Ok(v),
            None => Err(PoolError::OverflowError),
        }
    }

    /// Fails with `InvalidUtilRate` when utilization is above the reserve's maximum.
    pub fn require_utilization_below_max(&self) -> (r: Result<(), PoolError>)
        ensures
            match self.spec_utilization() {
                None => r == Err::<(), PoolError>(PoolError::OverflowError),
                Some(u) => if u > self.max_util {
                    r == Err::<(), PoolError>(PoolError::InvalidUtilRate)
                } else {
                    r is Ok
                },
            },
    {
        let util = self.utilization()?;
        if util > self.max_util as i128 {
            return Err(PoolError::InvalidUtilRate);
        }
        Ok(())
    }

    /// Fails with `ReserveDisabled` when the reserve is disabled and the action supplies or
    /// borrows; withdrawing and repaying stay allowed.
    pub fn require_action_allowed(&self, action_type: u32) -> (r: Result<(), PoolError>)
        ensures
            r is Err <==> !self.enabled && (action_type == REQUEST_SUPPLY || action_type
                == REQUEST_SUPPLY_COLLATERAL || action_type == REQUEST_BORROW),
            r is Err ==> r == Err::<(), PoolError>(PoolError::ReserveDisabled),
    {
        if !self.enabled {
            if action_type == REQUEST_SUPPLY || action_type == REQUEST_SUPPLY_COLLATERAL
                || action_type == REQUEST_BORROW {
                return Err(PoolError::ReserveDisabled);
            }
        }
        Ok(())
    }

    /// Total liabilities in underlying tokens.
    pub fn total_liabilities(&self) -> (r: Result<i128, PoolError>)
        ensures
            r == res_of(self.spec_total_liabilities()),
    {
        self.to_asset_from_d_token(self.d_supply)
    }

    /// Total supply in underlying tokens.
    pub fn total_supply(&self) -> (r: Result<i128, PoolError>)
        ensures
            r == res_of(self.spec_total_supply()),
    {
        self.to_asset_from_b_token(self.b_supply)
    }

    /// d_tokens to underlying, rounded up.
    pub fn to_asset_from_d_token(&self, d_tokens: i128) -> (r: Result<i128, PoolError>)
        ensures
            r == res_of(self.spec_asset_from_d(d_tokens as int)),
    {
        match fixed_mul_ceil(d_tokens, self.d_rate, SCALAR_9) {
            Some(v) => Ok(v),
            None => Err(PoolError::OverflowError),
        }
    }

    /// b_tokens to underlying, rounded down.
    pub fn to_asset_from_b_token(&self, b_tokens: i128) -> (r: Result<i128, PoolError>)
        ensures
            r == res_of(self.spec_asset_from_b(b_tokens as int)),
    {
        match fixed_mul_floor(b_tokens, self.b_rate, SCALAR_9) {
            Some(v) => Ok(v),
            None => Err(PoolError::OverflowError),
        }
    }

    /// d_tokens to their risk-weighted value: the underlying divided by the liability
    /// factor, rounded up.
    pub fn to_effective_asset_from_d_token(&self, d_tokens: i128) -> (r: Result<i128, PoolError>)
        ensures
            r == res_of(self.spec_effective_from_d(d_tokens as int)),
    {
        let assets = self.to_asset_from_d_token(d_tokens)?;
        match fixed_div_ceil(assets, self.l_factor as i128, SCALAR_7) {
            Some(v) => Ok(v),
            None => Err(PoolError::OverflowError),
        }
    }

    /// b_tokens to their risk-weighted value: the underlying times the collateral factor,
    /// rounded down.
    pub fn to_effective_asset_from_b_token(&self, b_tokens: i128) -> (r: Result<i128, PoolError>)
        ensures
            r == res_of(self.spec_effective_from_b(b_tokens as int)),
    {
        let assets = self.to_asset_from_b_token(b_tokens)?;
        match fixed_mul_floor(assets, self.c_factor as i128, SCALAR_7) {
            Some(v) => Ok(v),
            None => Err(PoolError::OverflowError),
        }
    }

    /// Underlying to d_tokens, rounded up.
    pub fn to_d_token_up(&self, amount: i128) -> (r: Result<i128, PoolError>)
        ensures
            r == res_of(self.spec_d_token_up(amount as int)),
    {
        match fixed_div_ceil(amount, self.d_rate, SCALAR_9) {
            Some(v) => Ok(v),
            None => Err(PoolError::OverflowError),
        }
    }

    /// Underlying to d_tokens, rounded down.
    pub fn to_d_token_down(&self, amount: i128) -> (r: Result<i128, PoolError>)
        ensures
            r == res_of(self.spec_d_token_down(amount as int)),
    {
        match fixed_div_floor(amount, self.d_rate, SCALAR_9) {
            Some(v) => Ok(v),
            None => Err(PoolError::OverflowError),
        }
    }

    /// Underlying to b_tokens, rounded up.
    pub fn to_b_token_up(&self, amount: i128) -> (r: Result<i128, PoolError>)
        ensures
            r == res_of(self.spec_b_token_up(amount as int)),
    {
        match fixed_div_ceil(amount, self.b_rate, SCALAR_9) {
            Some(v) => Ok(v),
            None => Err(PoolError::OverflowError),
        }
    }

    /// Underlying to b_tokens, rounded down.
    pub fn to_b_token_down(&self, amount: i128) -> (r: Result<i128, PoolError>)
        ensures
            r == res_of(self.spec_b_token_down(amount as int)),
    {
        match fixed_div_floor(amount, self.b_rate, SCALAR_9) {
            Some(v) => Ok(v),
            None => Err(PoolError::OverflowError),
        }
    }
}

} // verus!
