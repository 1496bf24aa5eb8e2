//! Moving an insolvent user's liabilities onto the backstop.
use crate::address::Address;
use crate::errors::PoolError;
use crate::fixed_point::is_i128;
use crate::pool::Pool;
use crate::positions::{same_balances, PositionMap, User};
use crate::reserve::Reserve;
use vstd::prelude::*;

verus! {

/// Whether `user` holds bad debt: no collateral and some liability.
pub open spec fn has_bad_debt(user: User) -> bool {
    user.positions.collateral.spec_is_empty() && !user.positions.liabilities.spec_is_empty()
}

/// Every liability of `user` can be added to the backstop's and to its reserve.
pub open spec fn transfer_fits(pool: Pool, user: User, backstop: User) -> bool {
    forall|k: int| #[trigger] user.positions.liabilities.bal(k) != 0 ==> {
        &&& 0 <= k < pool.reserves@.len()
        &&& is_i128(backstop.positions.liabilities.bal(k) + user.positions.liabilities.bal(k))
        &&& is_i128(pool.reserves@[k].d_supply + user.positions.liabilities.bal(k))
    }
}

/// One (asset, d_tokens) entry per reserve, among the first `n`, in which `liabilities`
/// holds a balance, in reserve order.
pub open spec fn bad_debt_events(reserves: Seq<Reserve>, liabilities: PositionMap, n: nat) -> Seq<(Address, i128)>
    decreases n,
{
    if n == 0 {
        seq![]
    } else {
        let i = n - 1;
        let prev = bad_debt_events(reserves, liabilities, (n - 1) as nat);
        if liabilities.bal(i) != 0 {
            prev.push((reserves[i].asset, liabilities.bal(i) as i128))
        } else {
            prev
        }
    }
}

/// Transfer all liabilities of `user`, who must hold bad debt, to `backstop`.
///
/// Fails with `BadRequest` when `user` is the backstop, holds collateral or holds no
/// liability. Otherwise each of the user's d_token balances moves whole onto the
/// backstop's position in the same reserve, the reserves' totals are unchanged, and the
/// result lists each affected asset with the d_tokens moved.
pub fn transfer_bad_debt_to_backstop(pool: &mut Pool, user: &mut User, backstop: &mut User) -> (r: Result<
    Vec<(Address, i128)>,
    PoolError,
>)
    requires
        old(pool).wf(),
    ensures
        old(user).address == old(backstop).address ==> r == Err::<Vec<(Address, i128)>, PoolError>(
            PoolError::BadRequest,
        ),
        !has_bad_debt(*old(user)) ==> r == Err::<Vec<(Address, i128)>, PoolError>(PoolError::BadRequest),
        r == Err::<Vec<(Address, i128)>, PoolError>(PoolError::BadRequest) ==> old(user).address == old(backstop).address
            || !has_bad_debt(*old(user)),
        old(user).address != old(backstop).address && has_bad_debt(*old(user)) && transfer_fits(
            *old(pool),
            *old(user),
            *old(backstop),
        ) ==> r is Ok,
        r matches Ok(events) ==> events@ == bad_debt_events(
            old(pool).reserves@,
            old(user).positions.liabilities,
            old(user).positions.liabilities@.len(),
        ),
        r is Ok ==> {
            &&& forall|k: int| #[trigger] final(user).positions.liabilities.bal(k) == 0
            &&& forall|k: int| #[trigger] final(backstop).positions.liabilities.bal(k)
                == old(backstop).positions.liabilities.bal(k) + old(user).positions.liabilities.bal(k)
            &&& final(pool).reserves@ == old(pool).reserves@
            &&& same_balances(final(user).positions.collateral, old(user).positions.collateral)
            &&& same_balances(final(user).positions.supply, old(user).positions.supply)
            &&& same_balances(final(backstop).positions.collateral, old(backstop).positions.collateral)
            &&& same_balances(final(backstop).positions.supply, old(backstop).positions.supply)
        },
{
    if user.address == backstop.address {
        return Err(PoolError::BadRequest);
    }
    if !user.positions.collateral.is_empty() || user.positions.liabilities.is_empty() {
        return Err(PoolError::BadRequest);
    }
    // the user holds no collateral and some liability: bad debt, all of it moves
    let mut events: Vec<(Address, i128)> = Vec::new();
    let n = user.positions.liabilities.slots();
    let mut i: usize = 0;
    while i < n
        invariant
            old(pool).wf(),
            i <= n,
            n == old(user).positions.liabilities@.len(),
            forall|k: int| k >= n ==> #[trigger] old(user).positions.liabilities.bal(k) == 0,
            pool.reserves@ == old(pool).reserves@,
            pool.config == old(pool).config,
            user.address == old(user).address,
            backstop.address == old(backstop).address,
            forall|k: int| #[trigger] user.positions.liabilities.bal(k) == if 0 <= k < i {
                0
            } else {
                old(user).positions.liabilities.bal(k)
            },
            forall|k: int| #[trigger] backstop.positions.liabilities.bal(k) == if 0 <= k < i {
                old(backstop).positions.liabilities.bal(k) + old(user).positions.liabilities.bal(k)
            } else {
                old(backstop).positions.liabilities.bal(k)
            },
            same_balances(user.positions.collateral, old(user).positions.collateral),
            same_balances(user.positions.supply, old(user).positions.supply),
            same_balances(backstop.positions.collateral, old(backstop).positions.collateral),
            same_balances(backstop.positions.supply, old(backstop).positions.supply),
            old(user).address != old(backstop).address,
            has_bad_debt(*old(user)),
            events@ == bad_debt_events(old(pool).reserves@, old(user).positions.liabilities, i as nat),
        decreases n - i,
    {
        let liability_balance = user.positions.liabilities.get_at(i);
        if liability_balance != 0 {
            if i >= pool.reserves.len() {
                return Err(PoolError::InternalReserveNotFound);
            }
            let mut reserve = pool.reserves[i];
            backstop.add_liabilities(&mut reserve, liability_balance)?;
            user.remove_liabilities(&mut reserve, liability_balance)?;
            pool.reserves.set(i, reserve);
            assert(pool.reserves@ =~= old(pool).reserves@);
            events.push((reserve.asset, liability_balance));
        }
        i = i + 1;
    }
    Ok(events)
}

} // verus!
