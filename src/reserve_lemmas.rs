//! What holds of reserve loading and of b/d token conversions.
use crate::arith::{
    lemma_ceil_div_at_least, lemma_ceil_div_bounds, lemma_floor_div_at_least,
    lemma_floor_div_at_most, lemma_floor_div_bounds,
};
use crate::fixed_point::{SCALAR_7, SCALAR_9};
use crate::address::Address;
use crate::reserve::{Reserve, ReserveConfig, ReserveData};
use vstd::prelude::*;

verus! {

/// Loading is idempotent within one timestamp: once a reserve is loaded at `now` and
/// stored, loading it again at `now` gives the same reserve, whatever the interest curve
/// would return.
pub proof fn lemma_load_idempotent(
    config: ReserveConfig,
    data: ReserveData,
    asset: Address,
    bstop_rate: u32,
    now: u64,
    first: (i128, i128),
    second: (i128, i128),
)
    requires
        Reserve::spec_from_stored(config, data, asset) matches Some(base) && base.spec_load(bstop_rate, now, first) is Some,
    ensures
        ({
            let loaded = Reserve::spec_from_stored(config, data, asset).unwrap().spec_load(bstop_rate, now, first).unwrap();
            &&& loaded.last_time == now
            &&& !loaded.accrual_due(now)
            &&& Reserve::spec_from_stored(config, loaded.spec_data(), asset) == Some(loaded)
            &&& loaded.spec_load(bstop_rate, now, second) == Some(loaded)
        }),
{
}

/// Loading never lowers the exchange rates: with non-negative rates and supplies, an
/// accrual factor of at least one and a backstop take rate below one, the d_rate and the
/// b_rate after a load are at least what they were.
pub proof fn lemma_load_rates_nondecreasing(
    reserve: Reserve,
    bstop_rate: u32,
    now: u64,
    accrual: (i128, i128),
)
    requires
        reserve.d_rate >= 0,
        reserve.b_rate >= 0,
        reserve.b_supply >= 0,
        accrual.0 >= SCALAR_9,
        bstop_rate < SCALAR_7,
        reserve.spec_load(bstop_rate, now, accrual) is Some,
    ensures
        reserve.spec_load(bstop_rate, now, accrual).unwrap().d_rate >= reserve.d_rate,
        reserve.spec_load(bstop_rate, now, accrual).unwrap().b_rate >= reserve.b_rate,
{
    if reserve.accrual_due(now) {
        let s9 = SCALAR_9 as int;
        let s7 = SCALAR_7 as int;
        let d = reserve.d_rate as int;
        let a = accrual.0 as int;
        // the d_rate grows by a factor of at least one
        lemma_ceil_div_bounds(a * d, s9);
        assert(d * s9 <= a * d) by (nonlinear_arith)
            requires
                a >= s9,
                d >= 0,
        ;
        lemma_ceil_div_at_least(a * d, s9, d);
        let r1 = Reserve { ir_mod: accrual.1, ..reserve };
        let pre = r1.spec_total_liabilities().unwrap();
        let new_d = crate::fixed_point::ceil_div(a * d, s9);
        let r2 = Reserve { d_rate: new_d as i128, ..r1 };
        let post = r2.spec_total_liabilities().unwrap();
        let accrued = post - pre;
        if accrued > 0 {
            // the suppliers keep at least one token of the interest
            let b = reserve.b_supply as int;
            let br = reserve.b_rate as int;
            let t = bstop_rate as int;
            let supply = r2.spec_total_supply().unwrap();
            lemma_floor_div_bounds(b * br, s9);
            let credit: int = if bstop_rate > 0 {
                crate::fixed_point::floor_div(accrued * t, s7)
            } else {
                0
            };
            if bstop_rate > 0 {
                assert(accrued * t < accrued * s7) by (nonlinear_arith)
                    requires
                        accrued > 0,
                        t < s7,
                ;
                lemma_floor_div_at_most(accrued * t, s7, accrued - 1);
            }
            let net = supply + accrued - credit;
            assert(net >= supply + 1);
            assert(supply * s9 + s9 > b * br);
            assert(br * b <= net * s9) by (nonlinear_arith)
                requires
                    net >= supply + 1,
                    supply * s9 + s9 > b * br,
                    s9 > 0,
            ;
            lemma_floor_div_at_least(net * s9, b, br);
        }
    }
}

/// Converting d_tokens to underlying and back brackets the amount: for a d_rate of at
/// least one, rounding back up gives no less than `x` and rounding back down no more.
pub proof fn lemma_d_token_round_trip(reserve: Reserve, x: i128)
    requires
        reserve.d_rate >= SCALAR_9,
    ensures
        reserve.spec_asset_from_d(x as int) matches Some(a) ==> {
            &&& reserve.spec_d_token_up(a) matches Some(up) ==> up >= x
            &&& reserve.spec_d_token_down(a) matches Some(down) ==> down <= x
        },
{
    if reserve.spec_asset_from_d(x as int) is Some {
        let a = reserve.spec_asset_from_d(x as int).unwrap();
        let r = reserve.d_rate as int;
        let s9 = SCALAR_9 as int;
        lemma_ceil_div_bounds(x * r, s9);
        assert(x * r <= a * s9);
        assert(a * s9 < x * r + s9);
        // back up: ceil(a * s9 / r) >= x because x * r <= a * s9
        lemma_ceil_div_at_least(a * s9, r, x as int);
        // back down: floor(a * s9 / r) <= x because a * s9 < (x + 1) * r
        assert(a * s9 < (x + 1) * r) by (nonlinear_arith)
            requires
                a * s9 < x * r + s9,
                r >= s9,
        ;
        lemma_floor_div_at_most(a * s9, r, x as int);
    }
}

} // verus!
