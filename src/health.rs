//! A user's risk-weighted collateral and liabilities in the oracle's base unit, and the
//! health factor they give.
use crate::errors::PoolError;
use crate::fixed_point::{ceil_div, fixed_mul_ceil, fixed_mul_floor, is_i128, mul_div_ceil, mul_div_floor, SCALAR_7};
use crate::pool::Pool;
use crate::positions::Positions;
use crate::reserve::Reserve;
use vstd::prelude::*;

verus! {

/// Sums, in the oracle's base unit, of a user's effective collateral and effective
/// liabilities.
#[derive(Clone, Copy, Debug, PartialEq, Eq, Structural)]
pub struct PositionData {
    pub collateral_base: i128,
    pub liability_base: i128,
}

/// The base value of `b_tokens` of collateral in `reserve` at `price`, rounded down.
pub open spec fn collateral_value(reserve: Reserve, b_tokens: int, price: int) -> Option<int> {
    if b_tokens == 0 {
        Some(0)
    } else {
        match reserve.spec_effective_from_b(b_tokens) {
            None => None,
            Some(e) => mul_div_floor(price, e, reserve.scalar as int),
        }
    }
}

/// The base value of `d_tokens` of liability in `reserve` at `price`, rounded up.
pub open spec fn liability_value(reserve: Reserve, d_tokens: int, price: int) -> Option<int> {
    if d_tokens == 0 {
        Some(0)
    } else {
        match reserve.spec_effective_from_d(d_tokens) {
            None => None,
            Some(e) => mul_div_ceil(price, e, reserve.scalar as int),
        }
    }
}

/// Effective collateral and liabilities over the first `n` reserves, with `prices[i]` the
/// price of reserve `i`; `None` when a step overflows.
pub open spec fn spec_bases(reserves: Seq<Reserve>, positions: Positions, prices: Seq<i128>, n: nat) -> Option<(int, int)>
    decreases n,
{
    if n == 0 {
        Some((0, 0))
    } else {
        let i = n - 1;
        match spec_bases(reserves, positions, prices, (n - 1) as nat) {
            None => None,
            Some((c, l)) => match (
                collateral_value(reserves[i], positions.collateral.bal(i), prices[i] as int),
                liability_value(reserves[i], positions.liabilities.bal(i), prices[i] as int),
            ) {
                (Some(dc), Some(dl)) => if is_i128(c + dc) && is_i128(l + dl) {
                    Some((c + dc, l + dl))
                } else {
                    None
                },
                _ => None,
            },
        }
    }
}

pub open spec fn data_res(o: Option<(int, int)>) -> Result<PositionData, PoolError> {
    match o {
        Some((c, l)) => Ok(PositionData { collateral_base: c as i128, liability_base: l as i128 }),
        None => Err(PoolError::OverflowError),
    }
}

/// `prices` holds, for each of its first reserves that the user has a position in, a
/// price that `price_of` may return for it.
pub open spec fn prices_from<F: Fn(u32) -> i128>(price_of: F, pool: Pool, positions: Positions, prices: Seq<i128>) -> bool {
    &&& prices.len() <= pool.reserves@.len()
    &&& forall|i: int|
        0 <= i < prices.len() && (positions.collateral.bal(i) != 0 || positions.liabilities.bal(i) != 0)
            ==> price_of.ensures((i as u32,), #[trigger] prices[i])
}

/// Whether `data` is below the health factor `min` (7 decimals): with liabilities, when
/// collateral over liabilities is below `min`.
pub open spec fn spec_hf_under(data: PositionData, min: int) -> bool {
    data.liability_base != 0 && data.collateral_base * SCALAR_7 < data.liability_base * min
}

/// The base values of `b_tokens` of collateral and `d_tokens` of liability in `reserve`
/// at `price`.
fn position_values(reserve: &Reserve, b_tokens: i128, d_tokens: i128, price: i128) -> (r: Result<(i128, i128), PoolError>)
    ensures
        match (
            collateral_value(*reserve, b_tokens as int, price as int),
            liability_value(*reserve, d_tokens as int, price as int),
        ) {
            (Some(c), Some(l)) => r == Ok::<(i128, i128), PoolError>((c as i128, l as i128)),
            _ => r is Err,
        },
{
    let mut collateral: i128 = 0;
    if b_tokens != 0 {
        let effective = reserve.to_effective_asset_from_b_token(b_tokens)?;
        collateral = match fixed_mul_floor(price, effective, reserve.scalar) {
            Some(v) => v,
            None => {
                return Err(PoolError::OverflowError);
            },
        };
    }
    let mut liability: i128 = 0;
    if d_tokens != 0 {
        let effective = reserve.to_effective_asset_from_d_token(d_tokens)?;
        liability = match fixed_mul_ceil(price, effective, reserve.scalar) {
            Some(v) => v,
            None => {
                return Err(PoolError::OverflowError);
            },
        };
    }
    Ok((collateral, liability))
}

impl PositionData {
    /// Value a user's positions in the oracle's base unit. `price_of` gives the price of the
    /// reserve with the given index, in the base unit per whole token; it is asked only for
    /// reserves the user holds a position in.
    pub fn calculate_from_positions<F: Fn(u32) -> i128>(pool: &Pool, positions: &Positions, price_of: &F) -> (r:
        Result<PositionData, PoolError>)
        requires
            pool.wf(),
            forall|i: u32| price_of.requires((i,)),
        ensures
            exists|prices: Seq<i128>|
                {
                    &&& #[trigger] prices_from(*price_of, *pool, *positions, prices)
                    &&& r is Ok ==> prices.len() == pool.reserves@.len()
                    &&& r == data_res(spec_bases(pool.reserves@, *positions, prices, pool.reserves@.len()))
                },
    {
        let mut collateral_base: i128 = 0;
        let mut liability_base: i128 = 0;
        let ghost mut prices: Seq<i128> = Seq::empty();
        let mut i: usize = 0;
        while i < pool.reserves.len()
            invariant
                pool.wf(),
                forall|j: u32| price_of.requires((j,)),
                i <= pool.reserves@.len(),
                prices.len() == i,
                forall|k: int|
                    0 <= k < i && (positions.collateral.bal(k) != 0 || positions.liabilities.bal(k) != 0)
                        ==> price_of.ensures((k as u32,), #[trigger] prices[k]),
                spec_bases(pool.reserves@, *positions, prices, i as nat) == Some((collateral_base as int, liability_base as int)),
            decreases pool.reserves@.len() - i,
        {
            let reserve = pool.reserves[i];
            let idx = reserve.index;
            let b_tokens = positions.collateral.get(idx);
            let d_tokens = positions.liabilities.get(idx);
            let mut price: i128 = 0;
            if b_tokens != 0 || d_tokens != 0 {
                price = price_of(idx);
            }
            let ghost next = prices.push(price);
            assert(spec_bases(pool.reserves@, *positions, next, i as nat) == spec_bases(pool.reserves@, *positions, prices, i as nat)) by {
                lemma_bases_prefix(pool.reserves@, *positions, prices, next, i as nat);
            }
            let step = match position_values(&reserve, b_tokens, d_tokens, price) {
                Ok((collateral, liability)) => match (
                    collateral_base.checked_add(collateral),
                    liability_base.checked_add(liability),
                ) {
                    (Some(c), Some(l)) => Some((c, l)),
                    _ => None,
                },
                Err(_) => None,
            };
            match step {
                Some((c, l)) => {
                    collateral_base = c;
                    liability_base = l;
                },
                None => {
                    proof {
                        assert(spec_bases(pool.reserves@, *positions, next, (i + 1) as nat) is None);
                        lemma_bases_stuck(pool.reserves@, *positions, next, (i + 1) as nat, pool.reserves@.len());
                        assert(prices_from(*price_of, *pool, *positions, next));
                    }
                    return Err(PoolError::OverflowError);
                },
            }
            proof {
                prices = next;
            }
            i = i + 1;
        }
        assert(prices_from(*price_of, *pool, *positions, prices));
        Ok(PositionData { collateral_base, liability_base })
    }

    /// Whether the health factor is below `min` (7 decimals). Without liabilities it never is.
    pub fn is_hf_under(&self, min: i128) -> (r: Result<bool, PoolError>)
        ensures
            self.liability_base == 0 ==> r == Ok::<bool, PoolError>(false),
            self.liability_base != 0 ==> match mul_div_ceil(self.liability_base as int, min as int, SCALAR_7 as int) {
                None => r == Err::<bool, PoolError>(PoolError::OverflowError),
                Some(_) => r == Ok::<bool, PoolError>(spec_hf_under(*self, min as int)),
            },
    {
        if self.liability_base == 0 {
            // no liabilities, no health factor
            return Ok(false);
        }
        let required = match fixed_mul_ceil(self.liability_base, min, SCALAR_7) {
            Some(v) => v,
            None => {
                return Err(PoolError::OverflowError);
            },
        };
        proof {
            let lm = self.liability_base * min;
            crate::arith::lemma_ceil_div_bounds(lm, SCALAR_7 as int);
            let q = ceil_div(lm, SCALAR_7 as int);
            let c = self.collateral_base as int;
            assert(required == q);
            if q > c {
                assert(c * SCALAR_7 < lm) by (nonlinear_arith)
                    requires
                        q > c,
                        q * SCALAR_7 < lm + SCALAR_7,
                ;
            } else {
                assert(c * SCALAR_7 >= lm) by (nonlinear_arith)
                    requires
                        q <= c,
                        lm <= q * SCALAR_7,
                ;
            }
        }
        Ok(required > self.collateral_base)
    }
}

proof fn lemma_bases_prefix(reserves: Seq<Reserve>, positions: Positions, a: Seq<i128>, b: Seq<i128>, n: nat)
    requires
        n <= a.len(),
        n <= b.len(),
        forall|k: int| 0 <= k < n ==> a[k] == b[k],
    ensures
        spec_bases(reserves, positions, a, n) == spec_bases(reserves, positions, b, n),
    decreases n,
{
    if n > 0 {
        lemma_bases_prefix(reserves, positions, a, b, (n - 1) as nat);
    }
}

proof fn lemma_bases_stuck(reserves: Seq<Reserve>, positions: Positions, prices: Seq<i128>, n: nat, m: nat)
    requires
        n <= m,
        spec_bases(reserves, positions, prices, n) is None,
    ensures
        spec_bases(reserves, positions, prices, m) is None,
    decreases m,
{
    if n < m {
        lemma_bases_stuck(reserves, positions, prices, n, (m - 1) as nat);
    }
}

} // verus!
