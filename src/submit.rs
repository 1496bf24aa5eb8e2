//! Submitting a batch of requests, with or without a flash loan ahead of it.
use crate::actions::{
    batch_succeeds, build_actions_from_request, built, fails_at, first_request_fails, moved, Actions,
};
use crate::address::Address;
use crate::errors::PoolError;
use crate::fixed_point::SCALAR_7;
use crate::fixed_point::{is_i128, mul_div_ceil};
use crate::health::{prices_from, spec_bases, spec_hf_under, PositionData};
use crate::pool::{first_pos, Pool};
use crate::positions::{same_balances, User};
use crate::request::Request;
use crate::reserve::Reserve;
use crate::transfers::{netted_settlement, settle_netted, settlement_fits, Settlement};
use vstd::prelude::*;

verus! {

/// The lowest health factor a submission may leave, 7 decimals: a little above one to
/// absorb rounding.
pub const MIN_HEALTH_FACTOR: i128 = 1_0000100;

/// A loan handed to `contract` and owed back, as liabilities, within the same submission.
#[derive(Clone, Copy, Debug, PartialEq, Eq, Structural)]
pub struct FlashLoan {
    pub contract: Address,
    pub asset: Address,
    pub amount: i128,
}

/// With prices `price_of` may return, the user's positions leave a health factor of at
/// least the minimum: effective collateral over effective liabilities is not below it.
pub open spec fn healthy<F: Fn(u32) -> i128>(price_of: F, pool: Pool, user: User) -> bool {
    exists|prices: Seq<i128>|
        {
            &&& #[trigger] prices_from(price_of, pool, user.positions, prices)
            &&& prices.len() == pool.reserves@.len()
            &&& spec_bases(pool.reserves@, user.positions, prices, pool.reserves@.len()) matches Some((c, l))
            &&& !(l != 0 && c * SCALAR_7 < l * MIN_HEALTH_FACTOR)
        }
}

/// At prices `price_of` may return, the user holds liabilities and their health factor is
/// below the minimum.
pub open spec fn unhealthy<F: Fn(u32) -> i128>(price_of: F, pool: Pool, user: User) -> bool {
    exists|prices: Seq<i128>|
        {
            &&& #[trigger] prices_from(price_of, pool, user.positions, prices)
            &&& prices.len() == pool.reserves@.len()
            &&& spec_bases(pool.reserves@, user.positions, prices, pool.reserves@.len()) matches Some((c, l))
            &&& l != 0 && c * SCALAR_7 < l * MIN_HEALTH_FACTOR
        }
}

/// The error a result carries, `None` for success.
pub open spec fn err_of<T>(r: Result<T, PoolError>) -> Option<PoolError> {
    match r {
        Ok(_) => None,
        Err(e) => Some(e),
    }
}

/// What the health check gives for a valuation of the positions: `OverflowError` when
/// the valuation or the required collateral overflows, `InvalidHf` when the user holds
/// liabilities and collateral over liabilities is below the minimum, success otherwise.
pub open spec fn health_verdict(bases: Option<(int, int)>) -> Option<PoolError> {
    match bases {
        None => Some(PoolError::OverflowError),
        Some((c, l)) => if l == 0 {
            None
        } else if mul_div_ceil(l, MIN_HEALTH_FACTOR as int, SCALAR_7 as int) is None {
            Some(PoolError::OverflowError)
        } else if c * SCALAR_7 < l * MIN_HEALTH_FACTOR {
            Some(PoolError::InvalidHf)
        } else {
            None
        },
    }
}

/// At prices `price_of` may return, the health check of the user's positions gives `err`.
pub open spec fn health_decides<F: Fn(u32) -> i128>(price_of: F, pool: Pool, user: User, err: Option<PoolError>) -> bool {
    exists|prices: Seq<i128>|
        {
            &&& #[trigger] prices_from(price_of, pool, user.positions, prices)
            &&& spec_bases(pool.reserves@, user.positions, prices, pool.reserves@.len()) is Some ==> prices.len()
                == pool.reserves@.len()
            &&& err == health_verdict(spec_bases(pool.reserves@, user.positions, prices, pool.reserves@.len()))
        }
}

/// Fails with `InvalidHf` unless the user's positions are healthy.
fn require_healthy<F: Fn(u32) -> i128>(pool: &Pool, user: &User, price_of: &F) -> (r: Result<(), PoolError>)
    requires
        pool.wf(),
        forall|i: u32| price_of.requires((i,)),
    ensures
        health_decides(*price_of, *pool, *user, err_of(r)),
        r is Ok ==> healthy(*price_of, *pool, *user),
        r == Err::<(), PoolError>(PoolError::InvalidHf) ==> unhealthy(*price_of, *pool, *user),
{
    let valued = PositionData::calculate_from_positions(pool, &user.positions, price_of);
    let ghost prices = choose|prices: Seq<i128>|
        {
            &&& #[trigger] prices_from(*price_of, *pool, user.positions, prices)
            &&& valued is Ok ==> prices.len() == pool.reserves@.len()
            &&& valued == crate::health::data_res(spec_bases(pool.reserves@, user.positions, prices, pool.reserves@.len()))
        };
    assert(prices_from(*price_of, *pool, user.positions, prices));
    let data = match valued {
        Ok(d) => d,
        Err(e) => {
            return Err(e);
        },
    };
    let under = match data.is_hf_under(MIN_HEALTH_FACTOR) {
        Ok(b) => b,
        Err(e) => {
            return Err(e);
        },
    };
    if under {
        assert(spec_hf_under(data, MIN_HEALTH_FACTOR as int));
        return Err(PoolError::InvalidHf);
    }
    Ok(())
}

/// Every outcome of the batch records transfers whose per-asset totals fit an `i128` and
/// leaves no health check due: either no request may have lowered health, or the user ends
/// without liabilities.
pub open spec fn batch_settles_unchecked(pool0: Pool, user0: User, requests: Seq<Request>) -> bool {
    forall|pool1: Pool, user1: User, acts: Actions|
        #[trigger] built(pool0, user0, requests, pool1, user1, acts) ==> {
            &&& settlement_fits(acts.spender_transfer@, acts.pool_transfer@)
            &&& !(acts.check_health && !user1.positions.liabilities.spec_is_empty())
        }
}

/// The batch takes `pool0` and `user0` to `pool1` and `user1` with a request that may
/// have lowered the user's health.
pub open spec fn built_with_check(pool0: Pool, user0: User, requests: Seq<Request>, pool1: Pool, user1: User) -> bool {
    exists|acts: Actions| #[trigger] built(pool0, user0, requests, pool1, user1, acts) && acts.check_health
}

/// `s` settles a batch that takes `pool0` and `user0` to `pool1` and `user1`, netted per
/// asset; when the batch may have lowered the user's health and they hold liabilities,
/// the health factor at the prices read is at least the minimum.
pub open spec fn submitted<F: Fn(u32) -> i128>(
    price_of: F,
    pool0: Pool,
    user0: User,
    requests: Seq<Request>,
    pool1: Pool,
    user1: User,
    s: Settlement,
) -> bool {
    exists|acts: Actions|
        {
            &&& #[trigger] built(pool0, user0, requests, pool1, user1, acts)
            &&& acts.check_health && !user1.positions.liabilities.spec_is_empty() ==> healthy(price_of, pool1, user1)
            &&& netted_settlement(acts.spender_transfer@, acts.pool_transfer@, s)
        }
}

/// Every outcome of the batch records transfers whose per-asset totals fit an `i128`.
pub open spec fn batch_fits(pool0: Pool, user0: User, requests: Seq<Request>) -> bool {
    forall|pool1: Pool, user1: User, acts: Actions|
        #[trigger] built(pool0, user0, requests, pool1, user1, acts) ==> settlement_fits(
            acts.spender_transfer@,
            acts.pool_transfer@,
        )
}

/// The batch takes `pool0` and `user0` to `pool1` and `user1`, and the submission ends
/// with `err`: the health check decides it when the batch may have lowered the user's
/// health and they hold liabilities, and it succeeds otherwise.
pub open spec fn submit_outcome<F: Fn(u32) -> i128>(
    price_of: F,
    pool0: Pool,
    user0: User,
    requests: Seq<Request>,
    pool1: Pool,
    user1: User,
    err: Option<PoolError>,
) -> bool {
    exists|acts: Actions|
        {
            &&& #[trigger] built(pool0, user0, requests, pool1, user1, acts)
            &&& acts.check_health && !user1.positions.liabilities.spec_is_empty() ==> health_decides(
                price_of,
                pool1,
                user1,
                err,
            )
            &&& !(acts.check_health && !user1.positions.liabilities.spec_is_empty()) ==> err is None
        }
}

/// Execute `requests` for the user whose positions they change, on behalf of `spender`,
/// who sends tokens to the pool, and `to`, who receives tokens from it.
///
/// Fails with `BadRequest` when the user, the spender or the recipient is the pool's own
/// contract, with the first failing request's error, and with `InvalidHf` when the batch
/// may have lowered the user's health (a collateral withdrawal or a borrow), the user holds
/// liabilities afterwards and the health factor is below the minimum. `price_of` gives the
/// oracle price of a reserve by index; it is asked only for that health check. On success
/// the pool and the user hold the state to persist and the result lists the token
/// transfers to perform, netted per asset. A caller discards the pool and the user after
/// an error.
pub fn execute_submit<F: Fn(u32) -> i128>(
    pool: &mut Pool,
    user: &mut User,
    current_contract: Address,
    spender: Address,
    to: Address,
    requests: &Vec<Request>,
    price_of: &F,
) -> (r: Result<Settlement, PoolError>)
    requires
        old(pool).wf(),
        forall|i: u32| price_of.requires((i,)),
    ensures
        final(pool).wf(),
        old(user).address == current_contract || spender == current_contract || to == current_contract
            ==> r == Err::<Settlement, PoolError>(PoolError::BadRequest),
        old(user).address != current_contract && spender != current_contract && to != current_contract ==> {
            &&& forall|e: PoolError| #[trigger] first_request_fails(*old(pool), requests@, e) ==> r == Err::<Settlement, PoolError>(e)
            &&& forall|i: int, e: PoolError| #[trigger] fails_at(*old(pool), *old(user), requests@, i, e) ==> r == Err::<
                Settlement,
                PoolError,
            >(e)
            &&& batch_succeeds(*old(pool), *old(user), requests@) && batch_settles_unchecked(*old(pool), *old(user), requests@)
                ==> r is Ok
            &&& batch_succeeds(*old(pool), *old(user), requests@) && batch_fits(*old(pool), *old(user), requests@)
                ==> submit_outcome(*price_of, *old(pool), *old(user), requests@, *final(pool), *final(user), err_of(r))
        },
        r == Err::<Settlement, PoolError>(PoolError::InvalidHf) ==> {
            &&& built_with_check(*old(pool), *old(user), requests@, *final(pool), *final(user))
            &&& !final(user).positions.liabilities.spec_is_empty()
            &&& unhealthy(*price_of, *final(pool), *final(user))
        },
        r matches Ok(s) ==> submitted(*price_of, *old(pool), *old(user), requests@, *final(pool), *final(user), s),
{
    if user.address == current_contract || spender == current_contract || to == current_contract {
        return Err(PoolError::BadRequest);
    }
    let actions = build_actions_from_request(pool, user, requests)?;
    // the health factor must stay above the minimum when the batch may have lowered it
    if actions.check_health && user.has_liabilities() {
        match require_healthy(pool, user, price_of) {
            Ok(()) => {},
            Err(e) => {
                assert(submit_outcome(*price_of, *old(pool), *old(user), requests@, *pool, *user, Some(e)));
                return Err(e);
            },
        }
    }
    let settlement = settle_netted(&actions.spender_transfer, &actions.pool_transfer)?;
    assert(submitted(*price_of, *old(pool), *old(user), requests@, *pool, *user, settlement));
    assert(submit_outcome(*price_of, *old(pool), *old(user), requests@, *pool, *user, None));
    Ok(settlement)
}

/// The reserve of the flash loan's asset after minting the loan as d_tokens, when every
/// step of the mint, and the utilization after it, fits an `i128`.
pub open spec fn reserve_after_mint(pool0: Pool, user0: User, flash_loan: FlashLoan) -> Option<Reserve> {
    let p = first_pos(pool0.reserves@, flash_loan.asset, 0);
    let r0 = pool0.reserves@[p];
    if 0 <= p < pool0.reserves@.len() && r0.spec_d_token_up(flash_loan.amount as int) is Some {
        let d = r0.spec_d_token_up(flash_loan.amount as int).unwrap();
        if is_i128(user0.positions.liabilities.bal(r0.index as int) + d) && is_i128(r0.d_supply + d) && (Reserve {
            d_supply: (r0.d_supply + d) as i128,
            ..r0
        }).spec_utilization() is Some {
            Some(Reserve { d_supply: (r0.d_supply + d) as i128, ..r0 })
        } else {
            None
        }
    } else {
        None
    }
}

/// The flash loan, minted as liabilities of the user, takes `pool0` and `user0` to `pool1`
/// and `user1`: `d_tokens` are added to the user's liabilities and the reserve's d_supply,
/// and the reserve's utilization stays within its maximum.
pub open spec fn flash_effect(pool0: Pool, user0: User, flash_loan: FlashLoan, pool1: Pool, user1: User, d_tokens: i128) -> bool {
    let p = first_pos(pool0.reserves@, flash_loan.asset, 0);
    let r0 = pool0.reserves@[p];
    let r1 = pool1.reserves@[p];
    &&& 0 <= p < pool0.reserves@.len()
    &&& r0.spec_d_token_up(flash_loan.amount as int) == Some(d_tokens as int)
    &&& r1 == Reserve { d_supply: (r0.d_supply + d_tokens) as i128, ..r0 }
    &&& r1.spec_utilization() matches Some(u) && u <= r1.max_util
    &&& pool1.config == pool0.config
    &&& pool1.reserves@.len() == pool0.reserves@.len()
    &&& forall|j: int| 0 <= j < pool0.reserves@.len() && j != p ==> #[trigger] pool1.reserves@[j] == pool0.reserves@[j]
    &&& user1.address == user0.address
    &&& moved(user1.positions.liabilities, user0.positions.liabilities, r0.index as int, d_tokens as int)
    &&& same_balances(user1.positions.collateral, user0.positions.collateral)
    &&& same_balances(user1.positions.supply, user0.positions.supply)
}

/// The flash loan followed by `requests` takes `pool0` and `user0` to `pool1` and `user1`
/// and records `acts`, minting `d_tokens` for the loan.
pub open spec fn flash_then_built(
    pool0: Pool,
    user0: User,
    flash_loan: FlashLoan,
    d_tokens: i128,
    requests: Seq<Request>,
    pool1: Pool,
    user1: User,
    acts: Actions,
) -> bool {
    exists|pool_mid: Pool, user_mid: User|
        {
            &&& #[trigger] flash_effect(pool0, user0, flash_loan, pool_mid, user_mid, d_tokens)
            &&& #[trigger] built(pool_mid, user_mid, requests, pool1, user1, acts)
        }
}

/// The flash loan followed by `requests` takes `pool0` and `user0` to `pool1` and `user1`,
/// minting `out.1` d_tokens for the loan, and `out.0` settles the recorded transfers netted
/// per asset.
pub open spec fn flash_submitted(
    pool0: Pool,
    user0: User,
    flash_loan: FlashLoan,
    requests: Seq<Request>,
    pool1: Pool,
    user1: User,
    out: (Settlement, i128),
) -> bool {
    exists|acts: Actions|
        {
            &&& #[trigger] flash_then_built(pool0, user0, flash_loan, out.1, requests, pool1, user1, acts)
            &&& netted_settlement(acts.spender_transfer@, acts.pool_transfer@, out.0)
        }
}

/// Once the loan is minted, whatever state that leaves, the requests succeed and their
/// transfers fit.
pub open spec fn flash_batch_fits(pool0: Pool, user0: User, flash_loan: FlashLoan, requests: Seq<Request>) -> bool {
    forall|pool_mid: Pool, user_mid: User, d: i128|
        #[trigger] flash_effect(pool0, user0, flash_loan, pool_mid, user_mid, d) ==> {
            &&& batch_succeeds(pool_mid, user_mid, requests)
            &&& batch_fits(pool_mid, user_mid, requests)
        }
}

/// The loan and the batch take `pool0` and `user0` to `pool1` and `user1`, and the
/// submission ends with `err`: the health check decides it when the user holds
/// liabilities, and it succeeds when the loan was repaid and no liability is left.
pub open spec fn flash_outcome<F: Fn(u32) -> i128>(
    price_of: F,
    pool0: Pool,
    user0: User,
    flash_loan: FlashLoan,
    requests: Seq<Request>,
    pool1: Pool,
    user1: User,
    err: Option<PoolError>,
) -> bool {
    exists|d: i128, acts: Actions|
        {
            &&& #[trigger] flash_then_built(pool0, user0, flash_loan, d, requests, pool1, user1, acts)
            &&& !user1.positions.liabilities.spec_is_empty() ==> health_decides(price_of, pool1, user1, err)
            &&& user1.positions.liabilities.spec_is_empty() ==> err is None
        }
}

/// In the state the minted loan leaves, a request that fails one of its checks after the
/// earlier requests succeed decides the error `err`.
pub open spec fn flash_request_errors(
    pool0: Pool,
    user0: User,
    flash_loan: FlashLoan,
    requests: Seq<Request>,
    err: Option<PoolError>,
) -> bool {
    exists|pool_mid: Pool, user_mid: User, d: i128|
        {
            &&& #[trigger] flash_effect(pool0, user0, flash_loan, pool_mid, user_mid, d)
            &&& forall|i: int, e: PoolError| #[trigger] fails_at(pool_mid, user_mid, requests, i, e) ==> err == Some(e)
        }
}

/// Execute `requests` for the user after lending them `flash_loan`.
///
/// The loan is minted as liabilities of the user before the requests are applied. Fails
/// with `BadRequest` when the user is the pool's own contract, `NegativeAmountError` for a
/// negative loan, `InternalReserveNotFound` when the pool has no reserve for the asset,
/// and `InvalidUtilRate` when the loan takes the reserve above its maximum utilization.
/// The user's health is then always checked: fails with `InvalidHf` when the user holds
/// liabilities and the health factor is below the minimum, and succeeds when it is not
/// (or when the loan was repaid and no liability is left).
///
/// On success returns the netted transfers between the user and the pool and the
/// d_tokens minted for the loan. The caller sends the loan to the receiving contract,
/// invokes it, and then performs the transfers; a caller discards the pool and the user
/// after an error.
pub fn execute_submit_with_flash_loan<F: Fn(u32) -> i128>(
    pool: &mut Pool,
    user: &mut User,
    current_contract: Address,
    flash_loan: &FlashLoan,
    requests: &Vec<Request>,
    price_of: &F,
) -> (r: Result<(Settlement, i128), PoolError>)
    requires
        old(pool).wf(),
        forall|i: u32| price_of.requires((i,)),
    ensures
        final(pool).wf(),
        old(user).address == current_contract ==> r == Err::<(Settlement, i128), PoolError>(PoolError::BadRequest),
        old(user).address != current_contract && flash_loan.amount < 0 ==> r == Err::<(Settlement, i128), PoolError>(
            PoolError::NegativeAmountError,
        ),
        old(user).address != current_contract && flash_loan.amount >= 0 && first_pos(old(pool).reserves@, flash_loan.asset, 0)
            == -1 ==> r == Err::<(Settlement, i128), PoolError>(PoolError::InternalReserveNotFound),
        old(user).address != current_contract && flash_loan.amount >= 0 && reserve_after_mint(*old(pool), *old(user), *flash_loan)
            is Some ==> {
            let minted = reserve_after_mint(*old(pool), *old(user), *flash_loan).unwrap();
            &&& minted.spec_utilization().unwrap() > minted.max_util ==> r == Err::<(Settlement, i128), PoolError>(
                PoolError::InvalidUtilRate,
            )
            &&& minted.spec_utilization().unwrap() <= minted.max_util ==> flash_request_errors(
                *old(pool),
                *old(user),
                *flash_loan,
                requests@,
                err_of(r),
            )
            &&& minted.spec_utilization().unwrap() <= minted.max_util && flash_batch_fits(
                *old(pool),
                *old(user),
                *flash_loan,
                requests@,
            ) ==> flash_outcome(
                *price_of,
                *old(pool),
                *old(user),
                *flash_loan,
                requests@,
                *final(pool),
                *final(user),
                err_of(r),
            )
        },
        r == Err::<(Settlement, i128), PoolError>(PoolError::InvalidHf) ==> !final(user).positions.liabilities.spec_is_empty()
            && unhealthy(*price_of, *final(pool), *final(user)),
        r is Ok && !final(user).positions.liabilities.spec_is_empty() ==> healthy(*price_of, *final(pool), *final(user)),
        r matches Ok(out) ==> flash_submitted(*old(pool), *old(user), *flash_loan, requests@, *final(pool), *final(user), out),
{
    if user.address == current_contract {
        return Err(PoolError::BadRequest);
    }
    if flash_loan.amount < 0 {
        return Err(PoolError::NegativeAmountError);
    }
    // the loan becomes the user's liability before the requests run
    let p = match pool.find_reserve(flash_loan.asset) {
        Some(p) => p,
        None => {
            return Err(PoolError::InternalReserveNotFound);
        },
    };
    let mut reserve = pool.reserves[p];
    let d_tokens_minted = reserve.to_d_token_up(flash_loan.amount)?;
    user.add_liabilities(&mut reserve, d_tokens_minted)?;
    reserve.require_utilization_below_max()?;
    pool.reserves.set(p, reserve);
    let ghost pool_mid = *pool;
    let ghost user_mid = *user;
    assert(flash_effect(*old(pool), *old(user), *flash_loan, pool_mid, user_mid, d_tokens_minted));
    let built_actions = build_actions_from_request(pool, user, requests);
    let actions = match built_actions {
        Ok(a) => a,
        Err(e) => {
            assert(flash_request_errors(*old(pool), *old(user), *flash_loan, requests@, Some(e)));
            return Err(e);
        },
    };
    assert(forall|i: int, e: PoolError| !#[trigger] fails_at(pool_mid, user_mid, requests@, i, e));
    assert(flash_request_errors(*old(pool), *old(user), *flash_loan, requests@, None));
    assert(forall|e: PoolError| flash_request_errors(*old(pool), *old(user), *flash_loan, requests@, Some(e)));
    // a flash loan always calls for a health check
    if user.has_liabilities() {
        match require_healthy(pool, user, price_of) {
            Ok(()) => {},
            Err(e) => {
                assert(flash_then_built(*old(pool), *old(user), *flash_loan, d_tokens_minted, requests@, *pool, *user, actions));
                assert(flash_outcome(*price_of, *old(pool), *old(user), *flash_loan, requests@, *pool, *user, Some(e)));
                return Err(e);
            },
        }
    }
    let settlement = settle_netted(&actions.spender_transfer, &actions.pool_transfer)?;
    let out = (settlement, d_tokens_minted);
    assert(out.1 == d_tokens_minted && out.0 == settlement);
    assert(flash_then_built(*old(pool), *old(user), *flash_loan, out.1, requests@, *pool, *user, actions));
    assert(flash_outcome(*price_of, *old(pool), *old(user), *flash_loan, requests@, *pool, *user, None));
    Ok(out)
}

} // verus!
