//! Backstop emissions: a pool-wide reward-per-share index and each depositor's snapshot
//! of it.
use crate::errors::BackstopError;
use crate::fixed_point::{fixed_div_floor, fixed_mul_floor, is_i128, mul_div_floor, SCALAR_7};
use vstd::prelude::*;

verus! {

/// Emission rate of a pool's backstop deposits and when it ends.
#[derive(Clone, Copy, Debug, PartialEq, Eq, Structural)]
pub struct BackstopEmissionConfig {
    pub expiration: u64,
    pub eps: u64,
}

/// The pool's cumulative emissions index and when it was last advanced.
#[derive(Clone, Copy, Debug, PartialEq, Eq, Structural)]
pub struct BackstopEmissionsData {
    pub index: i128,
    pub last_time: u64,
}

/// A depositor's index at the last sync and what they may claim.
#[derive(Clone, Copy, Debug, PartialEq, Eq, Structural)]
pub struct UserEmissionData {
    pub index: i128,
    pub accrued: i128,
}

/// Shares, tokens and shares queued for withdrawal over all depositors of a pool.
#[derive(Clone, Copy, Debug, PartialEq, Eq, Structural)]
pub struct PoolBalance {
    pub shares: i128,
    pub tokens: i128,
    pub q4w: i128,
}

/// An amount of shares queued for withdrawal and when it unlocks.
#[derive(Clone, Copy, Debug, PartialEq, Eq, Structural)]
pub struct Q4W {
    pub amount: i128,
    pub exp: u64,
}

/// A depositor's shares and their withdrawal queue.
#[derive(Clone, Debug)]
pub struct UserBalance {
    pub shares: i128,
    pub q4w: Vec<Q4W>,
}

/// What an emissions update leaves to persist: the pool's new data, and the depositor's
/// new data unless it is unchanged.
#[derive(Clone, Copy, Debug, PartialEq, Eq, Structural)]
pub struct EmissionsUpdate {
    pub pool_data: BackstopEmissionsData,
    pub user_data: Option<UserEmissionData>,
}

pub open spec fn spec_update_emission_data_with_config(
    now: u64,
    pool_balance: PoolBalance,
    emis_config: BackstopEmissionConfig,
    emis_data: BackstopEmissionsData,
) -> Result<BackstopEmissionsData, BackstopError> {
    if emis_data.last_time >= emis_config.expiration || now == emis_data.last_time
        || emis_config.eps == 0 || pool_balance.shares == 0 {
        Ok(emis_data)
    } else {
        let max_timestamp = if now > emis_config.expiration {
            emis_config.expiration
        } else {
            now
        };
        let unqueued = pool_balance.shares - pool_balance.q4w;
        if !is_i128(unqueued) {
            Err(BackstopError::OverflowError)
        } else if unqueued < 0 {
            Err(BackstopError::NegativeAmountError)
        } else if max_timestamp < emis_data.last_time {
            Err(BackstopError::OverflowError)
        } else {
            let emitted = (max_timestamp - emis_data.last_time) * emis_config.eps;
            if !is_i128(emitted) {
                Err(BackstopError::OverflowError)
            } else {
                match mul_div_floor(emitted, SCALAR_7 as int, unqueued) {
                    None => Err(BackstopError::OverflowError),
                    Some(additional) => if !is_i128(additional + emis_data.index) {
                        Err(BackstopError::OverflowError)
                    } else {
                        Ok(
                            BackstopEmissionsData {
                                index: (additional + emis_data.index) as i128,
                                last_time: now,
                            },
                        )
                    },
                }
            }
        }
    }
}

/// Advance the pool's emissions index to `now`.
///
/// Nothing changes when the index was already advanced at `now`, when emissions expired
/// before the last update, when the rate is zero or when the pool has no shares. Otherwise
/// the index grows by the tokens emitted since the last update (up to expiration) per
/// unqueued share, rounded down. Fails with `NegativeAmountError` when more shares are
/// queued than exist, and with `OverflowError` when the last update lies after `now` or a
/// computation overflows.
pub fn update_emission_data_with_config(
    now: u64,
    pool_balance: &PoolBalance,
    emis_config: &BackstopEmissionConfig,
    emis_data: &BackstopEmissionsData,
) -> (r: Result<BackstopEmissionsData, BackstopError>)
    ensures
        r == spec_update_emission_data_with_config(now, *pool_balance, *emis_config, *emis_data),
        r matches Ok(d) ==> d.index >= emis_data.index,
{
    if emis_data.last_time >= emis_config.expiration || now == emis_data.last_time
        || emis_config.eps == 0 || pool_balance.shares == 0 {
        // already advanced, or nothing to distribute
        return Ok(*emis_data);
    }
    let max_timestamp = if now > emis_config.expiration {
        emis_config.expiration
    } else {
        now
    };
    let unqueued_shares = match pool_balance.shares.checked_sub(pool_balance.q4w) {
        Some(v) => v,
        None => {
            return Err(BackstopError::OverflowError);
        },
    };
    if unqueued_shares < 0 {
        return Err(BackstopError::NegativeAmountError);
    }
    if max_timestamp < emis_data.last_time {
        return Err(BackstopError::OverflowError);
    }
    let elapsed = (max_timestamp - emis_data.last_time) as i128;
    let emitted = match elapsed.checked_mul(emis_config.eps as i128) {
        Some(v) => v,
        None => {
            return Err(BackstopError::OverflowError);
        },
    };
    let additional_idx = match fixed_div_floor(emitted, unqueued_shares, SCALAR_7) {
        Some(v) => v,
        None => {
            return Err(BackstopError::OverflowError);
        },
    };
    proof {
        crate::arith::lemma_floor_div_nonneg(emitted * SCALAR_7, unqueued_shares as int);
    }
    let index = match additional_idx.checked_add(emis_data.index) {
        Some(v) => v,
        None => {
            return Err(BackstopError::OverflowError);
        },
    };
    Ok(BackstopEmissionsData { index, last_time: now })
}

/// Advance the pool's emissions index when emissions are configured for the pool;
/// `None` when they are not.
pub fn update_emission_data(
    now: u64,
    pool_balance: &PoolBalance,
    emissions: Option<(BackstopEmissionConfig, BackstopEmissionsData)>,
) -> (r: Result<Option<BackstopEmissionsData>, BackstopError>)
    ensures
        match emissions {
            None => r == Ok::<Option<BackstopEmissionsData>, BackstopError>(None),
            Some((c, d)) => match spec_update_emission_data_with_config(now, *pool_balance, c, d) {
                Ok(n) => r == Ok::<Option<BackstopEmissionsData>, BackstopError>(Some(n)),
                Err(e) => r == Err::<Option<BackstopEmissionsData>, BackstopError>(e),
            },
        },
{
    match emissions {
        Some((config, data)) => {
            let new_data = update_emission_data_with_config(now, pool_balance, &config, &data)?;
            Ok(Some(new_data))
        },
        None => Ok(None),
    }
}

pub open spec fn spec_set_user_emissions(index: i128, accrued: i128, to_claim: bool) -> (UserEmissionData, i128) {
    if to_claim {
        (UserEmissionData { index, accrued: 0 }, accrued)
    } else {
        (UserEmissionData { index, accrued }, 0)
    }
}

pub open spec fn stored_and_claimed(s: (UserEmissionData, i128)) -> Result<(Option<UserEmissionData>, i128), BackstopError> {
    Ok((Some(s.0), s.1))
}

pub open spec fn spec_update_user_emissions(
    emis_data: BackstopEmissionsData,
    user_data: Option<UserEmissionData>,
    shares: i128,
    to_claim: bool,
) -> Result<(Option<UserEmissionData>, i128), BackstopError> {
    match user_data {
        Some(u) => if u.index != emis_data.index || to_claim {
            if shares != 0 {
                let delta = emis_data.index - u.index;
                if !is_i128(delta) {
                    Err(BackstopError::OverflowError)
                } else if delta < 0 {
                    Err(BackstopError::NegativeAmountError)
                } else {
                    match mul_div_floor(shares as int, delta, SCALAR_7 as int) {
                        None => Err(BackstopError::OverflowError),
                        Some(t) => if !is_i128(u.accrued + t) {
                            Err(BackstopError::OverflowError)
                        } else {
                            stored_and_claimed(
                                spec_set_user_emissions(emis_data.index, (u.accrued + t) as i128, to_claim),
                            )
                        },
                    }
                }
            } else {
                stored_and_claimed(spec_set_user_emissions(emis_data.index, u.accrued, to_claim))
            }
        } else {
            Ok((None, 0))
        },
        None => if shares == 0 {
            stored_and_claimed(spec_set_user_emissions(emis_data.index, 0, to_claim))
        } else {
            match mul_div_floor(shares as int, emis_data.index as int, SCALAR_7 as int) {
                None => Err(BackstopError::OverflowError),
                Some(t) => stored_and_claimed(spec_set_user_emissions(emis_data.index, t as i128, to_claim)),
            }
        },
    }
}

/// Bring a depositor's emissions up to the pool's index.
///
/// Returns the depositor's data to persist (`None` when it is unchanged) and the amount
/// to hand to the depositor: all they accrued when `to_claim`, else zero. A depositor
/// without a record who holds shares is owed the whole index on them. Fails with
/// `NegativeAmountError` when the depositor's index is ahead of the pool's.
pub fn update_user_emissions(
    emis_data: &BackstopEmissionsData,
    user_data: Option<UserEmissionData>,
    user_balance: &UserBalance,
    to_claim: bool,
) -> (r: Result<(Option<UserEmissionData>, i128), BackstopError>)
    ensures
        r == spec_update_user_emissions(*emis_data, user_data, user_balance.shares, to_claim),
        // a claim resets what is accrued to zero at the current index
        to_claim ==> (r matches Ok((stored, _)) ==> stored == Some(
            UserEmissionData { index: emis_data.index, accrued: 0 },
        )),
        // otherwise what is accrued never decreases
        !to_claim && user_balance.shares >= 0 ==> (r matches Ok((stored, claimed)) ==> {
            &&& claimed == 0
            &&& user_data matches Some(u) ==> (stored matches Some(n) ==> n.index == emis_data.index
                && n.accrued >= u.accrued)
        }),
{
    let shares = user_balance.shares;
    match user_data {
        Some(user_data) => {
            if user_data.index != emis_data.index || to_claim {
                let mut accrual = user_data.accrued;
                if shares != 0 {
                    let delta_index = match emis_data.index.checked_sub(user_data.index) {
                        Some(v) => v,
                        None => {
                            return Err(BackstopError::OverflowError);
                        },
                    };
                    if delta_index < 0 {
                        return Err(BackstopError::NegativeAmountError);
                    }
                    let to_accrue = match fixed_mul_floor(shares, delta_index, SCALAR_7) {
                        Some(v) => v,
                        None => {
                            return Err(BackstopError::OverflowError);
                        },
                    };
                    proof {
                        if shares >= 0 {
                            crate::arith::lemma_floor_div_nonneg(
                                shares * delta_index,
                                SCALAR_7 as int,
                            );
                            assert(shares * delta_index >= 0) by (nonlinear_arith)
                                requires
                                    shares >= 0,
                                    delta_index >= 0,
                            ;
                        }
                    }
                    accrual = match accrual.checked_add(to_accrue) {
                        Some(v) => v,
                        None => {
                            return Err(BackstopError::OverflowError);
                        },
                    };
                }
                let (stored, claimed) = set_user_emissions(emis_data.index, accrual, to_claim);
                return Ok((Some(stored), claimed));
            }
            // nothing accrued and no claim
            Ok((None, 0))
        },
        None => {
            if shares == 0 {
                // first action of the depositor since emissions began
                let (stored, claimed) = set_user_emissions(emis_data.index, 0, to_claim);
                Ok((Some(stored), claimed))
            } else {
                // the depositor held shares before emissions began: owed the whole index
                let to_accrue = match fixed_mul_floor(shares, emis_data.index, SCALAR_7) {
                    Some(v) => v,
                    None => {
                        return Err(BackstopError::OverflowError);
                    },
                };
                let (stored, claimed) = set_user_emissions(emis_data.index, to_accrue, to_claim);
                Ok((Some(stored), claimed))
            }
        },
    }
}

/// The depositor's data to persist and the amount claimed: a claim hands out `accrued`
/// and stores zero, otherwise `accrued` is stored and nothing is handed out.
pub fn set_user_emissions(index: i128, accrued: i128, to_claim: bool) -> (r: (UserEmissionData, i128))
    ensures
        r == spec_set_user_emissions(index, accrued, to_claim),
{
    if to_claim {
        (UserEmissionData { index, accrued: 0 }, accrued)
    } else {
        (UserEmissionData { index, accrued }, 0)
    }
}

pub open spec fn spec_emissions(
    now: u64,
    pool_balance: PoolBalance,
    shares: i128,
    emissions: Option<(BackstopEmissionConfig, BackstopEmissionsData)>,
    user_data: Option<UserEmissionData>,
    to_claim: bool,
) -> Result<(Option<EmissionsUpdate>, i128), BackstopError> {
    match emissions {
        None => Ok((None, 0)),
        Some((c, d)) => match spec_update_emission_data_with_config(now, pool_balance, c, d) {
            Err(e) => Err(e),
            Ok(pool_data) => match spec_update_user_emissions(pool_data, user_data, shares, to_claim) {
                Err(e) => Err(e),
                Ok((stored, claimed)) => Ok(
                    (Some(EmissionsUpdate { pool_data, user_data: stored }), claimed),
                ),
            },
        },
    }
}

/// Advance the pool's emissions index and the depositor's emissions to `now`.
///
/// `emissions` holds the pool's emission config and data, `None` when emissions are not
/// configured for it, in which case nothing is updated.
pub fn update_emissions(
    now: u64,
    pool_balance: &PoolBalance,
    user_balance: &UserBalance,
    emissions: Option<(BackstopEmissionConfig, BackstopEmissionsData)>,
    user_data: Option<UserEmissionData>,
) -> (r: Result<Option<EmissionsUpdate>, BackstopError>)
    ensures
        match spec_emissions(now, *pool_balance, user_balance.shares, emissions, user_data, false) {
            Ok((u, _)) => r == Ok::<Option<EmissionsUpdate>, BackstopError>(u),
            Err(e) => r == Err::<Option<EmissionsUpdate>, BackstopError>(e),
        },
{
    match update_emission_data(now, pool_balance, emissions)? {
        Some(pool_data) => {
            let (stored, _) = update_user_emissions(&pool_data, user_data, user_balance, false)?;
            Ok(Some(EmissionsUpdate { pool_data, user_data: stored }))
        },
        None => Ok(None),
    }
}

/// Advance the emissions as `update_emissions` does and claim what the depositor
/// accrued. Returns what to persist and the amount the caller must send to the
/// depositor; the depositor's stored accrual drops to zero.
pub fn claim_emissions(
    now: u64,
    pool_balance: &PoolBalance,
    user_balance: &UserBalance,
    emissions: Option<(BackstopEmissionConfig, BackstopEmissionsData)>,
    user_data: Option<UserEmissionData>,
) -> (r: Result<(Option<EmissionsUpdate>, i128), BackstopError>)
    ensures
        r == spec_emissions(now, *pool_balance, user_balance.shares, emissions, user_data, true),
{
    match update_emission_data(now, pool_balance, emissions)? {
        Some(pool_data) => {
            let (stored, claimed) = update_user_emissions(&pool_data, user_data, user_balance, true)?;
            Ok((Some(EmissionsUpdate { pool_data, user_data: stored }), claimed))
        },
        None => Ok((None, 0)),
    }
}

} // verus!

verus! {

/// The emissions index of a pool never decreases. Without a claim, what a depositor
/// holding shares has accrued never decreases either; a claim leaves the depositor with
/// nothing accrued at the pool's new index.
pub proof fn lemma_emissions_monotone(
    now: u64,
    pool_balance: PoolBalance,
    shares: i128,
    emissions: Option<(BackstopEmissionConfig, BackstopEmissionsData)>,
    user_data: Option<UserEmissionData>,
    to_claim: bool,
)
    requires
        shares >= 0,
        spec_emissions(now, pool_balance, shares, emissions, user_data, to_claim) is Ok,
    ensures
        ({
            let (update, claimed) = spec_emissions(now, pool_balance, shares, emissions, user_data, to_claim).unwrap();
            match (emissions, update) {
                (Some((_, data)), Some(u)) => {
                    &&& u.pool_data.index >= data.index
                    &&& to_claim ==> u.user_data == Some(UserEmissionData { index: u.pool_data.index, accrued: 0 })
                    &&& !to_claim ==> claimed == 0
                    &&& !to_claim ==> (user_data matches Some(prior) ==> (u.user_data matches Some(next) ==> next.accrued
                        >= prior.accrued && next.index == u.pool_data.index))
                },
                (None, None) => claimed == 0,
                _ => false,
            }
        }),
{
    if let Some((config, data)) = emissions {
        let pool_data = spec_update_emission_data_with_config(now, pool_balance, config, data).unwrap();
        if !(data.last_time >= config.expiration || now == data.last_time || config.eps == 0
            || pool_balance.shares == 0) {
            let max_timestamp = if now > config.expiration { config.expiration } else { now };
            let unqueued = pool_balance.shares - pool_balance.q4w;
            let emitted = (max_timestamp - data.last_time) * config.eps;
            assert(emitted >= 0) by (nonlinear_arith)
                requires
                    max_timestamp >= data.last_time,
                    config.eps >= 0,
                    emitted == (max_timestamp - data.last_time) * config.eps,
            ;
            crate::arith::lemma_floor_div_nonneg(emitted * SCALAR_7, unqueued);
        }
        if let Some(prior) = user_data {
            if (prior.index != pool_data.index || to_claim) && shares != 0 {
                let delta = pool_data.index - prior.index;
                if delta >= 0 {
                    assert(shares * delta >= 0) by (nonlinear_arith)
                        requires
                            shares >= 0,
                            delta >= 0,
                    ;
                    crate::arith::lemma_floor_div_nonneg(shares * delta, SCALAR_7 as int);
                }
            }
        }
    }
}

} // verus!
