//! Applying a user's requests to the pool's reserves and the user's positions, and
//! recording the token transfers they call for.
use crate::address::Address;
use crate::errors::PoolError;
use crate::fixed_point::is_i128;
use crate::pool::{first_pos, Pool};
use crate::positions::{same_balances, updated, PositionMap, User};
use crate::request::{Request, RequestType};
use crate::reserve::Reserve;
use vstd::prelude::*;

verus! {

/// The transfers a batch of requests calls for, in request order, and whether the
/// batch may have lowered the user's health.
#[derive(Clone, Debug)]
pub struct Actions {
    pub spender_transfer: Vec<(Address, i128)>,
    pub pool_transfer: Vec<(Address, i128)>,
    pub check_health: bool,
}

impl Actions {
    /// No transfer and no health check.
    pub fn new() -> (r: Actions)
        ensures
            r.spender_transfer@.len() == 0,
            r.pool_transfer@.len() == 0,
            !r.check_health,
    {
        Actions { spender_transfer: Vec::new(), pool_transfer: Vec::new(), check_health: false }
    }
}

/// The change a request makes to one balance map: `m1` is `m0` with `delta` added at `k`.
pub open spec fn moved(m1: PositionMap, m0: PositionMap, k: int, delta: int) -> bool {
    updated(m1, m0, k, m0.bal(k) + delta)
}

/// A successful `request` takes the pool, the user and the actions from the first three
/// states to the last three.
pub open spec fn request_effect(
    pool0: Pool,
    user0: User,
    act0: Actions,
    request: Request,
    pool1: Pool,
    user1: User,
    act1: Actions,
) -> bool {
    let p = first_pos(pool0.reserves@, request.address, 0);
    let r0 = pool0.reserves@[p];
    let r1 = pool1.reserves@[p];
    let k = r0.index as int;
    let amount = request.amount as int;
    let asset = request.address;
    let pos0 = user0.positions;
    let pos1 = user1.positions;
    &&& 0 <= p < pool0.reserves@.len()
    &&& amount >= 0
    &&& pool1.config == pool0.config
    &&& pool1.reserves@.len() == pool0.reserves@.len()
    &&& forall|j: int| 0 <= j < pool0.reserves@.len() && j != p ==> #[trigger] pool1.reserves@[j] == pool0.reserves@[j]
    &&& user1.address == user0.address
    &&& match RequestType::spec_from_code(request.request_type) {
        None => false,
        Some(RequestType::Supply) => {
            let b = r0.spec_b_token_down(amount).unwrap();
            &&& r0.enabled
            &&& r0.spec_b_token_down(amount) is Some
            &&& moved(pos1.supply, pos0.supply, k, b)
            &&& same_balances(pos1.collateral, pos0.collateral)
            &&& same_balances(pos1.liabilities, pos0.liabilities)
            &&& r1 == Reserve { b_supply: (r0.b_supply + b) as i128, ..r0 }
            &&& act1.spender_transfer@ == act0.spender_transfer@.push((asset, request.amount))
            &&& act1.pool_transfer@ == act0.pool_transfer@
            &&& act1.check_health == act0.check_health
        },
        Some(RequestType::SupplyCollateral) => {
            let b = r0.spec_b_token_down(amount).unwrap();
            &&& r0.enabled
            &&& r0.spec_b_token_down(amount) is Some
            &&& moved(pos1.collateral, pos0.collateral, k, b)
            &&& same_balances(pos1.supply, pos0.supply)
            &&& same_balances(pos1.liabilities, pos0.liabilities)
            &&& r1 == Reserve { b_supply: (r0.b_supply + b) as i128, ..r0 }
            &&& r1.spec_total_supply() matches Some(t) && t <= r1.collateral_cap
            &&& act1.spender_transfer@ == act0.spender_transfer@.push((asset, request.amount))
            &&& act1.pool_transfer@ == act0.pool_transfer@
            &&& act1.check_health == act0.check_health
        },
        Some(RequestType::Withdraw) => {
            let cur = pos0.supply.bal(k);
            let up = r0.spec_b_token_up(amount).unwrap();
            let burn = if up > cur { cur } else { up };
            let out = if up > cur { r0.spec_asset_from_b(cur).unwrap() } else { amount };
            &&& r0.spec_b_token_up(amount) is Some
            &&& up > cur ==> r0.spec_asset_from_b(cur) is Some
            &&& moved(pos1.supply, pos0.supply, k, -burn)
            &&& same_balances(pos1.collateral, pos0.collateral)
            &&& same_balances(pos1.liabilities, pos0.liabilities)
            &&& r1 == Reserve { b_supply: (r0.b_supply - burn) as i128, ..r0 }
            &&& act1.spender_transfer@ == act0.spender_transfer@
            &&& act1.pool_transfer@ == act0.pool_transfer@.push((asset, out as i128))
            &&& act1.check_health == act0.check_health
        },
        Some(RequestType::WithdrawCollateral) => {
            let cur = pos0.collateral.bal(k);
            let up = r0.spec_b_token_up(amount).unwrap();
            let burn = if up > cur { cur } else { up };
            let out = if up > cur { r0.spec_asset_from_b(cur).unwrap() } else { amount };
            &&& r0.spec_b_token_up(amount) is Some
            &&& up > cur ==> r0.spec_asset_from_b(cur) is Some
            &&& moved(pos1.collateral, pos0.collateral, k, -burn)
            &&& same_balances(pos1.supply, pos0.supply)
            &&& same_balances(pos1.liabilities, pos0.liabilities)
            &&& r1 == Reserve { b_supply: (r0.b_supply - burn) as i128, ..r0 }
            &&& act1.spender_transfer@ == act0.spender_transfer@
            &&& act1.pool_transfer@ == act0.pool_transfer@.push((asset, out as i128))
            &&& act1.check_health
        },
        Some(RequestType::Borrow) => {
            let d = r0.spec_d_token_up(amount).unwrap();
            &&& r0.enabled
            &&& r0.spec_d_token_up(amount) is Some
            &&& moved(pos1.liabilities, pos0.liabilities, k, d)
            &&& same_balances(pos1.supply, pos0.supply)
            &&& same_balances(pos1.collateral, pos0.collateral)
            &&& r1 == Reserve { d_supply: (r0.d_supply + d) as i128, ..r0 }
            &&& r1.spec_utilization() matches Some(u) && u <= r1.max_util
            &&& act1.spender_transfer@ == act0.spender_transfer@
            &&& act1.pool_transfer@ == act0.pool_transfer@.push((asset, request.amount))
            &&& act1.check_health
        },
        Some(RequestType::Repay) => {
            let cur = pos0.liabilities.bal(k);
            let burnt = r0.spec_d_token_down(amount).unwrap();
            let burn = if burnt > cur { cur } else { burnt };
            let refund = amount - r0.spec_asset_from_d(cur).unwrap();
            &&& r0.spec_d_token_down(amount) is Some
            &&& moved(pos1.liabilities, pos0.liabilities, k, -burn)
            &&& same_balances(pos1.supply, pos0.supply)
            &&& same_balances(pos1.collateral, pos0.collateral)
            &&& r1 == Reserve { d_supply: (r0.d_supply - burn) as i128, ..r0 }
            &&& act1.spender_transfer@ == act0.spender_transfer@.push((asset, request.amount))
            &&& burnt > cur ==> r0.spec_asset_from_d(cur) is Some && refund >= 0
                && act1.pool_transfer@ == act0.pool_transfer@.push((asset, refund as i128))
            &&& burnt <= cur ==> act1.pool_transfer@ == act0.pool_transfer@
            &&& act1.check_health == act0.check_health
        },
    }
}

/// Every step of `request` stays within `i128`, a supply or a borrow goes to an enabled
/// reserve, and a borrow keeps utilization within the reserve's maximum: the request
/// succeeds.
pub open spec fn request_succeeds(pool0: Pool, user0: User, request: Request) -> bool {
    let p = first_pos(pool0.reserves@, request.address, 0);
    let r0 = pool0.reserves@[p];
    let k = r0.index as int;
    let amount = request.amount as int;
    let pos0 = user0.positions;
    &&& 0 <= p < pool0.reserves@.len()
    &&& amount >= 0
    &&& match RequestType::spec_from_code(request.request_type) {
        None => false,
        Some(RequestType::Supply) => {
            let b = r0.spec_b_token_down(amount).unwrap();
            &&& r0.enabled
            &&& r0.spec_b_token_down(amount) is Some
            &&& is_i128(pos0.supply.bal(k) + b)
            &&& is_i128(r0.b_supply + b)
        },
        Some(RequestType::SupplyCollateral) => {
            let b = r0.spec_b_token_down(amount).unwrap();
            &&& r0.enabled
            &&& r0.spec_b_token_down(amount) is Some
            &&& is_i128(pos0.collateral.bal(k) + b)
            &&& is_i128(r0.b_supply + b)
            &&& (Reserve { b_supply: (r0.b_supply + b) as i128, ..r0 }).spec_total_supply() matches Some(t) && t
                <= r0.collateral_cap
        },
        Some(RequestType::Withdraw) => r0.spec_b_token_up(amount) matches Some(up) && {
            let cur = pos0.supply.bal(k);
            let burn = if up > cur { cur } else { up };
            &&& up > cur ==> r0.spec_asset_from_b(cur) is Some
            &&& cur - burn >= 0
            &&& is_i128(cur - burn)
            &&& is_i128(r0.b_supply - burn)
        },
        Some(RequestType::WithdrawCollateral) => r0.spec_b_token_up(amount) matches Some(up) && {
            let cur = pos0.collateral.bal(k);
            let burn = if up > cur { cur } else { up };
            &&& up > cur ==> r0.spec_asset_from_b(cur) is Some
            &&& cur - burn >= 0
            &&& is_i128(cur - burn)
            &&& is_i128(r0.b_supply - burn)
        },
        Some(RequestType::Borrow) => {
            let d = r0.spec_d_token_up(amount).unwrap();
            let r1 = Reserve { d_supply: (r0.d_supply + d) as i128, ..r0 };
            &&& r0.enabled
            &&& r0.spec_d_token_up(amount) is Some
            &&& is_i128(pos0.liabilities.bal(k) + d)
            &&& is_i128(r0.d_supply + d)
            &&& r1.spec_utilization() is Some
            &&& r1.spec_utilization().unwrap() <= r0.max_util
        },
        Some(RequestType::Repay) => r0.spec_d_token_down(amount) matches Some(burnt) && {
            let cur = pos0.liabilities.bal(k);
            let burn = if burnt > cur { cur } else { burnt };
            &&& burnt > cur ==> r0.spec_asset_from_d(cur) is Some && amount - r0.spec_asset_from_d(cur).unwrap() >= 0
            &&& cur - burn >= 0
            &&& is_i128(cur - burn)
            &&& is_i128(r0.d_supply - burn)
        },
    }
}

/// `request` fails one of its checks with `e` in the given state: an unknown type, a
/// negative amount, an asset without a reserve, a supply or borrow on a disabled reserve,
/// supplied collateral above the reserve's cap, or a borrow above its maximum utilization.
pub open spec fn request_check_fails(pool0: Pool, user0: User, request: Request, e: PoolError) -> bool {
    let p = first_pos(pool0.reserves@, request.address, 0);
    let r0 = pool0.reserves@[p];
    let k = r0.index as int;
    let amount = request.amount as int;
    match RequestType::spec_from_code(request.request_type) {
        None => e == PoolError::BadRequest,
        Some(t) => if amount < 0 {
            e == PoolError::NegativeAmountError
        } else if p == -1 {
            e == PoolError::InternalReserveNotFound
        } else if !r0.enabled && (t == RequestType::Supply || t == RequestType::SupplyCollateral || t
            == RequestType::Borrow) {
            e == PoolError::ReserveDisabled
        } else if t == RequestType::SupplyCollateral {
            let b = r0.spec_b_token_down(amount).unwrap();
            let r1 = Reserve { b_supply: (r0.b_supply + b) as i128, ..r0 };
            &&& r0.spec_b_token_down(amount) is Some
            &&& is_i128(user0.positions.collateral.bal(k) + b)
            &&& is_i128(r0.b_supply + b)
            &&& r1.spec_total_supply() is Some
            &&& r1.spec_total_supply().unwrap() > r0.collateral_cap
            &&& e == PoolError::ExceededCollateralCap
        } else if t == RequestType::Borrow {
            let d = r0.spec_d_token_up(amount).unwrap();
            let r1 = Reserve { d_supply: (r0.d_supply + d) as i128, ..r0 };
            &&& r0.spec_d_token_up(amount) is Some
            &&& is_i128(user0.positions.liabilities.bal(k) + d)
            &&& is_i128(r0.d_supply + d)
            &&& r1.spec_utilization() is Some
            &&& r1.spec_utilization().unwrap() > r0.max_util
            &&& e == PoolError::InvalidUtilRate
        } else {
            false
        },
    }
}

/// Apply one request: update the reserve of its asset and the user's positions, and
/// record the transfers it calls for.
///
/// Fails with `BadRequest` for an unknown request type, `NegativeAmountError` for a
/// negative amount, `InternalReserveNotFound` when the pool has no reserve for the asset,
/// `ReserveDisabled` when supplying to or borrowing from a disabled reserve,
/// `ExceededCollateralCap` when supplying collateral takes the reserve's supply above its
/// collateral cap, and `InvalidUtilRate` when a borrow takes utilization above the maximum. A caller discards
/// the pool, the user and the actions after an error.
pub fn apply_request(pool: &mut Pool, user: &mut User, actions: &mut Actions, request: &Request) -> (r: Result<
    (),
    PoolError,
>)
    requires
        old(pool).wf(),
    ensures
        final(pool).wf(),
        RequestType::spec_from_code(request.request_type) is None ==> r == Err::<(), PoolError>(PoolError::BadRequest),
        RequestType::spec_from_code(request.request_type) is Some && request.amount < 0 ==> r == Err::<(), PoolError>(
            PoolError::NegativeAmountError,
        ),
        RequestType::spec_from_code(request.request_type) is Some && request.amount >= 0 && first_pos(
            old(pool).reserves@,
            request.address,
            0,
        ) == -1 ==> r == Err::<(), PoolError>(PoolError::InternalReserveNotFound),
        request_succeeds(*old(pool), *old(user), *request) ==> r is Ok,
        forall|e: PoolError| #[trigger] request_check_fails(*old(pool), *old(user), *request, e) ==> r == Err::<(), PoolError>(e),
        r is Err ==> r->Err_0 != PoolError::InvalidHf,
        r is Ok ==> request_effect(*old(pool), *old(user), *old(actions), *request, *final(pool), *final(user), *final(actions)),
{
    let kind = match RequestType::from_code(request.request_type) {
        Some(k) => k,
        None => {
            return Err(PoolError::BadRequest);
        },
    };
    let amount = request.amount;
    if amount < 0 {
        return Err(PoolError::NegativeAmountError);
    }
    let p = match pool.find_reserve(request.address) {
        Some(p) => p,
        None => {
            return Err(PoolError::InternalReserveNotFound);
        },
    };
    let mut reserve = pool.reserves[p];
    reserve.require_action_allowed(request.request_type)?;
    let asset = reserve.asset;
    match kind {
        RequestType::Supply => {
            let b_tokens_minted = reserve.to_b_token_down(amount)?;
            user.add_supply(&mut reserve, b_tokens_minted)?;
            actions.spender_transfer.push((asset, amount));
        },
        RequestType::Withdraw => {
            let cur_b_tokens = user.get_supply(reserve.index);
            let mut to_burn = reserve.to_b_token_up(amount)?;
            let mut tokens_out = amount;
            if to_burn > cur_b_tokens {
                // withdraw everything the user holds
                to_burn = cur_b_tokens;
                tokens_out = reserve.to_asset_from_b_token(cur_b_tokens)?;
            }
            user.remove_supply(&mut reserve, to_burn)?;
            actions.pool_transfer.push((asset, tokens_out));
        },
        RequestType::SupplyCollateral => {
            let b_tokens_minted = reserve.to_b_token_down(amount)?;
            user.add_collateral(&mut reserve, b_tokens_minted)?;
            // the reserve's supply may not exceed what it accepts as collateral
            if reserve.total_supply()? > reserve.collateral_cap {
                return Err(PoolError::ExceededCollateralCap);
            }
            actions.spender_transfer.push((asset, amount));
        },
        RequestType::WithdrawCollateral => {
            let cur_b_tokens = user.get_collateral(reserve.index);
            let mut to_burn = reserve.to_b_token_up(amount)?;
            let mut tokens_out = amount;
            if to_burn > cur_b_tokens {
                // withdraw all the user's collateral
                to_burn = cur_b_tokens;
                tokens_out = reserve.to_asset_from_b_token(cur_b_tokens)?;
            }
            user.remove_collateral(&mut reserve, to_burn)?;
            actions.pool_transfer.push((asset, tokens_out));
            actions.check_health = true;
        },
        RequestType::Borrow => {
            let d_tokens_minted = reserve.to_d_token_up(amount)?;
            user.add_liabilities(&mut reserve, d_tokens_minted)?;
            reserve.require_utilization_below_max()?;
            actions.pool_transfer.push((asset, amount));
            actions.check_health = true;
        },
        RequestType::Repay => {
            let cur_d_tokens = user.get_liabilities(reserve.index);
            let d_tokens_burnt = reserve.to_d_token_down(amount)?;
            actions.spender_transfer.push((asset, amount));
            if d_tokens_burnt > cur_d_tokens {
                // over-repayment: burn the whole debt and refund the rest
                let repaid = reserve.to_asset_from_d_token(cur_d_tokens)?;
                let amount_to_refund = match amount.checked_sub(repaid) {
                    Some(v) => v,
                    None => {
                        return Err(PoolError::OverflowError);
                    },
                };
                if amount_to_refund < 0 {
                    return Err(PoolError::NegativeAmountError);
                }
                user.remove_liabilities(&mut reserve, cur_d_tokens)?;
                actions.pool_transfer.push((asset, amount_to_refund));
            } else {
                user.remove_liabilities(&mut reserve, d_tokens_burnt)?;
            }
        },
    }
    pool.reserves.set(p, reserve);
    Ok(())
}

} // verus!

verus! {

/// `pools`, `users` and `acts` are the states before and after each of `requests`, each
/// request succeeding.
pub open spec fn effects_chain(pools: Seq<Pool>, users: Seq<User>, acts: Seq<Actions>, requests: Seq<Request>) -> bool {
    &&& pools.len() == requests.len() + 1
    &&& users.len() == requests.len() + 1
    &&& acts.len() == requests.len() + 1
    &&& forall|i: int|
        0 <= i < requests.len() ==> #[trigger] request_effect(
            pools[i],
            users[i],
            acts[i],
            requests[i],
            pools[i + 1],
            users[i + 1],
            acts[i + 1],
        )
}

/// Applying `requests` in order, from no actions, takes `pool0` and `user0` to `pool1` and
/// `user1` and records `act1`.
pub open spec fn built(pool0: Pool, user0: User, requests: Seq<Request>, pool1: Pool, user1: User, act1: Actions) -> bool {
    exists|pools: Seq<Pool>, users: Seq<User>, acts: Seq<Actions>|
        {
            &&& #[trigger] effects_chain(pools, users, acts, requests)
            &&& pools[0] == pool0
            &&& users[0] == user0
            &&& acts[0].spender_transfer@.len() == 0
            &&& acts[0].pool_transfer@.len() == 0
            &&& !acts[0].check_health
            &&& pools.last() == pool1
            &&& users.last() == user1
            &&& acts.last() == act1
        }
}

/// Each request of the batch succeeds in the state the requests before it leave.
pub open spec fn batch_succeeds(pool0: Pool, user0: User, requests: Seq<Request>) -> bool {
    forall|pools: Seq<Pool>, users: Seq<User>, acts: Seq<Actions>, i: int|
        0 <= i < requests.len() && #[trigger] effects_chain(pools, users, acts, requests.take(i)) && pools[0] == pool0
            && users[0] == user0 ==> request_succeeds(pools.last(), users.last(), requests[i])
}

/// The first request fails its own checks, with `e`, before the pool is touched.
pub open spec fn first_request_fails(pool0: Pool, requests: Seq<Request>, e: PoolError) -> bool {
    requests.len() > 0 && {
        let req = requests[0];
        match RequestType::spec_from_code(req.request_type) {
            None => e == PoolError::BadRequest,
            Some(_) => if req.amount < 0 {
                e == PoolError::NegativeAmountError
            } else {
                first_pos(pool0.reserves@, req.address, 0) == -1 && e == PoolError::InternalReserveNotFound
            },
        }
    }
}

/// The requests before the `i`-th all succeed, and the `i`-th then fails one of its checks
/// with `e`, whatever state the earlier requests leave.
pub open spec fn fails_at(pool0: Pool, user0: User, requests: Seq<Request>, i: int, e: PoolError) -> bool {
    &&& 0 <= i < requests.len()
    &&& batch_succeeds(pool0, user0, requests.take(i))
    &&& forall|pools: Seq<Pool>, users: Seq<User>, acts: Seq<Actions>|
        #[trigger] effects_chain(pools, users, acts, requests.take(i)) && pools[0] == pool0 && users[0] == user0
            ==> request_check_fails(pools.last(), users.last(), requests[i], e)
}

/// Apply `requests` in order to the pool and the user, and return the transfers they call
/// for. Succeeds when each request succeeds in turn, and fails with the first failing
/// request's error; a caller then discards the pool and the user.
pub fn build_actions_from_request(pool: &mut Pool, user: &mut User, requests: &Vec<Request>) -> (r: Result<
    Actions,
    PoolError,
>)
    requires
        old(pool).wf(),
    ensures
        final(pool).wf(),
        batch_succeeds(*old(pool), *old(user), requests@) ==> r is Ok,
        r is Err ==> r->Err_0 != PoolError::InvalidHf,
        forall|e: PoolError| #[trigger] first_request_fails(*old(pool), requests@, e) ==> r == Err::<Actions, PoolError>(e),
        forall|i: int, e: PoolError| #[trigger] fails_at(*old(pool), *old(user), requests@, i, e) ==> r == Err::<
            Actions,
            PoolError,
        >(e),
        r matches Ok(a) ==> built(*old(pool), *old(user), requests@, *final(pool), *final(user), a),
{
    let mut actions = Actions::new();
    let ghost mut pools: Seq<Pool> = seq![*pool];
    let ghost mut users: Seq<User> = seq![*user];
    let ghost mut acts: Seq<Actions> = seq![actions];
    let mut i: usize = 0;
    while i < requests.len()
        invariant
            pool.wf(),
            i <= requests@.len(),
            effects_chain(pools, users, acts, requests@.take(i as int)),
            pools[0] == *old(pool),
            users[0] == *old(user),
            acts[0].spender_transfer@.len() == 0,
            acts[0].pool_transfer@.len() == 0,
            !acts[0].check_health,
            pools.last() == *pool,
            users.last() == *user,
            acts.last() == actions,
            i == 0 ==> *pool == *old(pool),
            i > 0 ==> forall|e: PoolError| !#[trigger] first_request_fails(*old(pool), requests@, e),
            forall|j: int, e: PoolError| #[trigger] fails_at(*old(pool), *old(user), requests@, j, e) ==> j >= i,
        decreases requests@.len() - i,
    {
        let request = &requests[i];
        proof {
            if batch_succeeds(*old(pool), *old(user), requests@) {
                assert(request_succeeds(pools.last(), users.last(), requests@[i as int]));
            }
            assert forall|j: int, e: PoolError| #[trigger] fails_at(*old(pool), *old(user), requests@, j, e) && j > i
                implies request_succeeds(pools.last(), users.last(), requests@[i as int]) by {
                let tj = requests@.take(j);
                assert(tj.take(i as int) =~= requests@.take(i as int));
                assert(tj[i as int] == requests@[i as int]);
                assert(effects_chain(pools, users, acts, tj.take(i as int)));
            }
            assert forall|e: PoolError| #[trigger] fails_at(*old(pool), *old(user), requests@, i as int, e)
                implies request_check_fails(*pool, *user, *request, e) by {
                assert(effects_chain(pools, users, acts, requests@.take(i as int)));
            }
        }
        let applied = apply_request(pool, user, &mut actions, request);
        if applied.is_err() {
            proof {
                assert forall|j: int, e: PoolError| #[trigger] fails_at(*old(pool), *old(user), requests@, j, e)
                    implies applied == Err::<(), PoolError>(e) by {
                    if j > i {
                        assert(request_succeeds(pools.last(), users.last(), requests@[i as int]));
                    }
                }
            }
            return Err(applied.unwrap_err());
        }
        proof {
            assert forall|j: int, e: PoolError| #[trigger] fails_at(*old(pool), *old(user), requests@, j, e)
                implies j >= i + 1 by {
                if j == i {
                    assert(request_check_fails(pools.last(), users.last(), requests@[i as int], e));
                }
            }
            if i == 0 {
                assert forall|e: PoolError| !#[trigger] first_request_fails(*old(pool), requests@, e) by {
                    assert(requests@[0] == *request);
                }
            }
            let ghost prev = requests@.take(i as int);
            let ghost next = requests@.take(i as int + 1);
            let np = pools.push(*pool);
            let nu = users.push(*user);
            let na = acts.push(actions);
            assert forall|j: int| 0 <= j < next.len() implies #[trigger] request_effect(
                np[j],
                nu[j],
                na[j],
                next[j],
                np[j + 1],
                nu[j + 1],
                na[j + 1],
            ) by {
                if j < prev.len() {
                    assert(next[j] == prev[j]);
                    assert(request_effect(pools[j], users[j], acts[j], prev[j], pools[j + 1], users[j + 1], acts[j + 1]));
                } else {
                    assert(next[j] == requests@[i as int]);
                }
            }
            pools = np;
            users = nu;
            acts = na;
        }
        i = i + 1;
    }
    assert(requests@.take(i as int) == requests@);
    Ok(actions)
}

} // verus!
