//! Token amounts owed per asset, and their settlement in as few transfers as possible.
use crate::address::Address;
use crate::errors::PoolError;
use crate::fixed_point::is_i128;
use vstd::prelude::*;

verus! {

/// The total amount listed for `asset` in `s`.
pub open spec fn sum_for(s: Seq<(Address, i128)>, asset: Address) -> int
    decreases s.len(),
{
    if s.len() == 0 {
        0
    } else {
        sum_for(s.drop_last(), asset) + if s.last().0 == asset {
            s.last().1 as int
        } else {
            0
        }
    }
}

/// No asset is listed twice in `s`.
pub open spec fn unique_assets(s: Seq<(Address, i128)>) -> bool {
    forall|i: int, j: int| 0 <= i < j < s.len() ==> (#[trigger] s[i]).0 != (#[trigger] s[j]).0
}

proof fn lemma_sum_absent(s: Seq<(Address, i128)>, asset: Address)
    requires
        forall|i: int| 0 <= i < s.len() ==> (#[trigger] s[i]).0 != asset,
    ensures
        sum_for(s, asset) == 0,
    decreases s.len(),
{
    if s.len() > 0 {
        lemma_sum_absent(s.drop_last(), asset);
    }
}

proof fn lemma_sum_single(s: Seq<(Address, i128)>, j: int)
    requires
        unique_assets(s),
        0 <= j < s.len(),
    ensures
        sum_for(s, s[j].0) == s[j].1,
    decreases s.len(),
{
    let a = s[j].0;
    if j == s.len() - 1 {
        assert forall|i: int| 0 <= i < s.drop_last().len() implies (#[trigger] s.drop_last()[i]).0 != a by {
            assert(s[i].0 != s[j].0);
        }
        lemma_sum_absent(s.drop_last(), a);
    } else {
        lemma_sum_single(s.drop_last(), j);
        assert(s.last().0 != a) by {
            assert(s[j].0 != s[s.len() - 1].0);
        }
    }
}

proof fn lemma_sum_update(s: Seq<(Address, i128)>, j: int, v: i128, asset: Address)
    requires
        0 <= j < s.len(),
    ensures
        sum_for(s.update(j, (s[j].0, v)), asset) == sum_for(s, asset) + if s[j].0 == asset {
            v - s[j].1
        } else {
            0
        },
    decreases s.len(),
{
    let t = s.update(j, (s[j].0, v));
    if j == s.len() - 1 {
        assert(t.drop_last() == s.drop_last());
    } else {
        assert(t.drop_last() == s.drop_last().update(j, (s[j].0, v)));
        lemma_sum_update(s.drop_last(), j, v, asset);
    }
}

/// Add `amount` to what `list` holds for `asset`, keeping one entry per asset.
/// Fails with `OverflowError`, changing nothing, when the sum overflows.
pub fn add_for_asset(list: &mut Vec<(Address, i128)>, asset: Address, amount: i128) -> (r: Result<(), PoolError>)
    requires
        unique_assets(old(list)@),
    ensures
        unique_assets(final(list)@),
        is_i128(sum_for(old(list)@, asset) + amount) ==> r is Ok,
        !is_i128(sum_for(old(list)@, asset) + amount) ==> r == Err::<(), PoolError>(PoolError::OverflowError)
            && final(list)@ == old(list)@,
        r is Ok ==> forall|a: Address| #[trigger] sum_for(final(list)@, a) == sum_for(old(list)@, a) + if a == asset {
            amount as int
        } else {
            0
        },
{
    let mut i: usize = 0;
    while i < list.len()
        invariant
            i <= list@.len(),
            list@ == old(list)@,
            unique_assets(list@),
            forall|k: int| 0 <= k < i ==> (#[trigger] list@[k]).0 != asset,
        decreases list@.len() - i,
    {
        if list[i].0 == asset {
            proof { lemma_sum_single(list@, i as int); }
            let cur = list[i].1;
            let total = match cur.checked_add(amount) {
                Some(v) => v,
                None => {
                    return Err(PoolError::OverflowError);
                },
            };
            let ghost before = list@;
            list.set(i, (asset, total));
            proof {
                assert(list@ == before.update(i as int, (before[i as int].0, total)));
                assert forall|a: Address| #[trigger] sum_for(list@, a) == sum_for(before, a) + if a == asset {
                    amount as int
                } else {
                    0
                } by {
                    lemma_sum_update(before, i as int, total, a);
                }
                assert forall|p: int, q: int| 0 <= p < q < list@.len() implies (#[trigger] list@[p]).0 != (#[trigger] list@[q]).0 by {
                    assert(before[p].0 != before[q].0);
                }
            }
            return Ok(());
        }
        i = i + 1;
    }
    proof { lemma_sum_absent(list@, asset); }
    let ghost before = list@;
    list.push((asset, amount));
    proof {
        assert(list@.drop_last() == before);
        assert forall|p: int, q: int| 0 <= p < q < list@.len() implies (#[trigger] list@[p]).0 != (#[trigger] list@[q]).0 by {
            if q < before.len() {
                assert(before[p].0 != before[q].0);
            }
        }
    }
    Ok(())
}


/// Every amount listed in `s` is non-negative.
pub open spec fn nonneg_amounts(s: Seq<(Address, i128)>) -> bool {
    forall|i: int| 0 <= i < s.len() ==> (#[trigger] s[i]).1 >= 0
}

/// Both sides list non-negative amounts whose per-asset totals fit an `i128`.
pub open spec fn settlement_fits(spender_transfer: Seq<(Address, i128)>, pool_transfer: Seq<(Address, i128)>) -> bool {
    &&& nonneg_amounts(spender_transfer)
    &&& nonneg_amounts(pool_transfer)
    &&& forall|a: Address| #[trigger] is_i128(sum_for(spender_transfer, a))
    &&& forall|a: Address| #[trigger] is_i128(sum_for(pool_transfer, a))
}

/// A prefix of non-negative amounts totals between zero and the whole.
proof fn lemma_prefix_sum_bounds(s: Seq<(Address, i128)>, i: int, a: Address)
    requires
        nonneg_amounts(s),
        0 <= i <= s.len(),
    ensures
        0 <= sum_for(s.take(i), a) <= sum_for(s, a),
    decreases s.len(),
{
    if s.len() > 0 {
        let t = s.drop_last();
        assert forall|k: int| 0 <= k < t.len() implies (#[trigger] t[k]).1 >= 0 by {
            assert(t[k] == s[k]);
        }
        if i < s.len() {
            assert(s.take(i) == t.take(i));
            lemma_prefix_sum_bounds(t, i, a);
        } else {
            assert(s.take(i) == s);
            lemma_prefix_sum_bounds(t, t.len() as int, a);
            assert(t.take(t.len() as int) == t);
        }
    }
}

/// The signed amount the pool owes per asset: what it pays out less what it takes in.
pub open spec fn net_owed(pool_transfer: Seq<(Address, i128)>, spender_transfer: Seq<(Address, i128)>, a: Address) -> int {
    sum_for(pool_transfer, a) - sum_for(spender_transfer, a)
}

/// Net, per asset, what the pool pays out against what it takes in.
/// Succeeds when both sides list non-negative amounts whose per-asset totals fit an `i128`.
pub fn net_by_asset(spender_transfer: &Vec<(Address, i128)>, pool_transfer: &Vec<(Address, i128)>) -> (r: Result<
    Vec<(Address, i128)>,
    PoolError,
>)
    ensures
        settlement_fits(spender_transfer@, pool_transfer@) ==> r is Ok,
        r is Err ==> r == Err::<Vec<(Address, i128)>, PoolError>(PoolError::OverflowError),
        r matches Ok(m) ==> unique_assets(m@) && forall|a: Address| #[trigger] sum_for(m@, a) == net_owed(
            pool_transfer@,
            spender_transfer@,
            a,
        ),
{
    let mut net: Vec<(Address, i128)> = Vec::new();
    let mut i: usize = 0;
    while i < spender_transfer.len()
        invariant
            i <= spender_transfer@.len(),
            unique_assets(net@),
            forall|a: Address| #[trigger] sum_for(net@, a) == -sum_for(spender_transfer@.take(i as int), a),
        decreases spender_transfer@.len() - i,
    {
        let (asset, amount) = spender_transfer[i];
        proof {
            if settlement_fits(spender_transfer@, pool_transfer@) {
                assert(spender_transfer@[i as int].1 >= 0);
                lemma_prefix_sum_bounds(spender_transfer@, i as int + 1, asset);
                assert(spender_transfer@.take(i as int + 1).drop_last() == spender_transfer@.take(i as int));
                assert(is_i128(sum_for(spender_transfer@, asset)));
            }
        }
        if amount == i128::MIN {
            return Err(PoolError::OverflowError);
        }
        add_for_asset(&mut net, asset, -amount)?;
        assert(spender_transfer@.take(i as int + 1).drop_last() == spender_transfer@.take(i as int));
        i = i + 1;
    }
    assert(spender_transfer@.take(i as int) == spender_transfer@);
    let mut j: usize = 0;
    while j < pool_transfer.len()
        invariant
            j <= pool_transfer@.len(),
            unique_assets(net@),
            forall|a: Address| #[trigger] sum_for(net@, a) == sum_for(pool_transfer@.take(j as int), a)
                - sum_for(spender_transfer@, a),
        decreases pool_transfer@.len() - j,
    {
        let (asset, amount) = pool_transfer[j];
        proof {
            if settlement_fits(spender_transfer@, pool_transfer@) {
                lemma_prefix_sum_bounds(pool_transfer@, j as int + 1, asset);
                lemma_prefix_sum_bounds(spender_transfer@, spender_transfer@.len() as int, asset);
                assert(spender_transfer@.take(spender_transfer@.len() as int) == spender_transfer@);
                assert(pool_transfer@.take(j as int + 1).drop_last() == pool_transfer@.take(j as int));
                assert(is_i128(sum_for(spender_transfer@, asset)));
                assert(is_i128(sum_for(pool_transfer@, asset)));
            }
        }
        add_for_asset(&mut net, asset, amount)?;
        assert(pool_transfer@.take(j as int + 1).drop_last() == pool_transfer@.take(j as int));
        j = j + 1;
    }
    assert(pool_transfer@.take(j as int) == pool_transfer@);
    Ok(net)
}

/// The token transfers that settle a submission: amounts per asset that the spender sends
/// to the pool, and amounts per asset that the pool sends to the recipient.
#[derive(Clone, Debug)]
pub struct Settlement {
    pub spender_to_pool: Vec<(Address, i128)>,
    pub pool_to_recipient: Vec<(Address, i128)>,
}

/// `s` nets both sides per asset: one positive transfer per asset that does not net to zero,
/// in the direction of the balance.
pub open spec fn netted_settlement(spender_transfer: Seq<(Address, i128)>, pool_transfer: Seq<(Address, i128)>, s: Settlement) -> bool {
    &&& unique_assets(s.spender_to_pool@)
    &&& unique_assets(s.pool_to_recipient@)
    &&& forall|a: Address| #[trigger] sum_for(s.spender_to_pool@, a) == if net_owed(pool_transfer, spender_transfer, a) < 0 {
        -net_owed(pool_transfer, spender_transfer, a)
    } else {
        0
    }
    &&& forall|a: Address| #[trigger] sum_for(s.pool_to_recipient@, a) == if net_owed(pool_transfer, spender_transfer, a) > 0 {
        net_owed(pool_transfer, spender_transfer, a)
    } else {
        0
    }
    &&& forall|i: int| 0 <= i < s.spender_to_pool@.len() ==> (#[trigger] s.spender_to_pool@[i]).1 > 0
    &&& forall|i: int| 0 <= i < s.pool_to_recipient@.len() ==> (#[trigger] s.pool_to_recipient@[i]).1 > 0
}

/// Every asset listed in `list` is listed among the first `i` entries of `net`.
pub open spec fn drawn_from(list: Seq<(Address, i128)>, net: Seq<(Address, i128)>, i: int) -> bool {
    forall|k: int| 0 <= k < list.len() ==> exists|m: int| 0 <= m < i && #[trigger] net[m].0 == (#[trigger] list[k]).0
}

/// Append a positive amount of `net[i]`'s asset to a list drawn from the entries of `net`
/// before `i`: the asset is new to the list.
fn push_next(list: &mut Vec<(Address, i128)>, net: &Vec<(Address, i128)>, i: usize, amount: i128)
    requires
        i < net@.len(),
        unique_assets(net@),
        unique_assets(old(list)@),
        drawn_from(old(list)@, net@, i as int),
        amount > 0,
        forall|k: int| 0 <= k < old(list)@.len() ==> (#[trigger] old(list)@[k]).1 > 0,
    ensures
        final(list)@ == old(list)@.push((net@[i as int].0, amount)),
        unique_assets(final(list)@),
        drawn_from(final(list)@, net@, i + 1),
        forall|k: int| 0 <= k < final(list)@.len() ==> (#[trigger] final(list)@[k]).1 > 0,
        forall|a: Address| #[trigger] sum_for(final(list)@, a) == sum_for(old(list)@, a) + if a == net@[i as int].0 {
            amount as int
        } else {
            0
        },
{
    let asset = net[i].0;
    let ghost before = list@;
    proof {
        assert forall|k: int| 0 <= k < before.len() implies (#[trigger] before[k]).0 != asset by {
            let m = choose|m: int| 0 <= m < i && #[trigger] net@[m].0 == before[k].0;
            assert(net@[m].0 != net@[i as int].0);
        }
    }
    list.push((asset, amount));
    proof {
        assert(list@.drop_last() == before);
        assert forall|p: int, q: int| 0 <= p < q < list@.len() implies (#[trigger] list@[p]).0 != (#[trigger] list@[q]).0 by {
            if q < before.len() {
                assert(before[p].0 != before[q].0);
            }
        }
        assert forall|k: int| 0 <= k < list@.len() implies exists|m: int| 0 <= m < i + 1 && #[trigger] net@[m].0 == (#[trigger] list@[k]).0 by {
            if k == before.len() {
                assert(net@[i as int].0 == list@[k].0);
            } else {
                assert(list@[k] == before[k]);
            }
        }
    }
}

/// The transfers that settle a submission, netted per asset: the spender sends what the
/// pool is owed on balance, the recipient gets what the pool owes on balance, and an asset
/// that nets to zero moves no tokens. Succeeds when both sides list non-negative amounts
/// whose per-asset totals fit an `i128`.
pub fn settle_netted(spender_transfer: &Vec<(Address, i128)>, pool_transfer: &Vec<(Address, i128)>) -> (r: Result<
    Settlement,
    PoolError,
>)
    ensures
        settlement_fits(spender_transfer@, pool_transfer@) ==> r is Ok,
        r is Err ==> r == Err::<Settlement, PoolError>(PoolError::OverflowError),
        r matches Ok(s) ==> netted_settlement(spender_transfer@, pool_transfer@, s),
{
    let net = net_by_asset(spender_transfer, pool_transfer)?;
    proof {
        if settlement_fits(spender_transfer@, pool_transfer@) {
            assert forall|a: Address| #[trigger] sum_for(net@, a) > i128::MIN by {
                lemma_prefix_sum_bounds(pool_transfer@, pool_transfer@.len() as int, a);
                assert(pool_transfer@.take(pool_transfer@.len() as int) == pool_transfer@);
                assert(is_i128(sum_for(spender_transfer@, a)));
            }
        }
    }
    let mut spender_to_pool: Vec<(Address, i128)> = Vec::new();
    let mut pool_to_recipient: Vec<(Address, i128)> = Vec::new();
    let mut i: usize = 0;
    while i < net.len()
        invariant
            i <= net@.len(),
            unique_assets(net@),
            forall|a: Address| #[trigger] sum_for(net@, a) == net_owed(pool_transfer@, spender_transfer@, a),
            settlement_fits(spender_transfer@, pool_transfer@) ==> forall|a: Address| #[trigger] sum_for(net@, a) > i128::MIN,
            forall|k: int| 0 <= k < spender_to_pool@.len() ==> (#[trigger] spender_to_pool@[k]).1 > 0,
            forall|k: int| 0 <= k < pool_to_recipient@.len() ==> (#[trigger] pool_to_recipient@[k]).1 > 0,
            drawn_from(spender_to_pool@, net@, i as int),
            drawn_from(pool_to_recipient@, net@, i as int),
            unique_assets(spender_to_pool@),
            unique_assets(pool_to_recipient@),
            forall|a: Address| #[trigger] sum_for(spender_to_pool@, a) == if sum_for(net@.take(i as int), a) < 0 {
                -sum_for(net@.take(i as int), a)
            } else {
                0
            },
            forall|a: Address| #[trigger] sum_for(pool_to_recipient@, a) == if sum_for(net@.take(i as int), a) > 0 {
                sum_for(net@.take(i as int), a)
            } else {
                0
            },
        decreases net@.len() - i,
    {
        let (asset, amount) = net[i];
        let ghost prefix = net@.take(i as int);
        let ghost next = net@.take(i as int + 1);
        proof {
            assert(next.drop_last() == prefix);
            assert forall|k: int| 0 <= k < prefix.len() implies (#[trigger] prefix[k]).0 != asset by {
                assert(net@[k].0 != net@[i as int].0);
            }
            lemma_sum_absent(prefix, asset);
            lemma_sum_single(net@, i as int);
        }
        if amount < 0 {
            if amount == i128::MIN {
                return Err(PoolError::OverflowError);
            }
            push_next(&mut spender_to_pool, &net, i, -amount);
        } else if amount > 0 {
            push_next(&mut pool_to_recipient, &net, i, amount);
        }
        proof {
            assert(next.last() == (asset, amount));
            assert forall|a: Address| #[trigger] sum_for(next, a) == sum_for(prefix, a) + if a == asset {
                amount as int
            } else {
                0
            } by {}
        }
        i = i + 1;
    }
    proof {
        assert(net@.take(i as int) == net@);
    }
    Ok(Settlement { spender_to_pool, pool_to_recipient })
}

} // verus!
