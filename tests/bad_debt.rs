use lending_pool::transfers::settle_netted;
use lending_pool::address::Address;
use lending_pool::bad_debt::transfer_bad_debt_to_backstop;
use lending_pool::errors::PoolError;
use lending_pool::pool::Pool;
use lending_pool::positions::{PositionMap, Positions, User};
use lending_pool::reserve::{PoolConfig, Reserve};

fn reserve(index: u32, asset: u64) -> Reserve {
    Reserve {
        asset: Address::new(asset),
        index,
        l_factor: 0_7500000,
        c_factor: 0_7500000,
        max_util: 0_9500000,
        last_time: 600,
        scalar: 1_0000000,
        d_rate: 1_000_000_000,
        b_rate: 1_000_000_000,
        ir_mod: 1_000_000_000,
        b_supply: 100_0000000,
        d_supply: 75_0000000,
        backstop_credit: 0,
        collateral_cap: 1000000000000000000,
        enabled: true,
    }
}

fn pool() -> Pool {
    Pool {
        config: PoolConfig { oracle: Address::new(30), bstop_rate: 0_1000000, status: 0, max_positions: 2 },
        reserves: vec![reserve(0, 10), reserve(1, 11)],
    }
}

fn map(entries: &[(u32, i128)]) -> PositionMap {
    let mut m = PositionMap::new();
    for (k, v) in entries {
        m.set(*k, *v);
    }
    m
}

fn user(id: u64, liabilities: &[(u32, i128)], collateral: &[(u32, i128)]) -> User {
    User {
        address: Address::new(id),
        positions: Positions { liabilities: map(liabilities), collateral: map(collateral), supply: PositionMap::new() },
    }
}

#[test]
fn test_transfer_bad_debt_happy_path() {
    let mut pool = pool();
    let mut samwise = user(2, &[(0, 24_0000000), (1, 25_0000000)], &[]);
    let mut backstop = user(5, &[], &[]);

    let events = transfer_bad_debt_to_backstop(&mut pool, &mut samwise, &mut backstop).unwrap();

    assert_eq!(samwise.positions.collateral.len(), 0);
    assert_eq!(samwise.positions.liabilities.len(), 0);
    assert_eq!(backstop.positions.liabilities.get(0), 24_0000000);
    assert_eq!(backstop.positions.liabilities.get(1), 25_0000000);
    assert_eq!(events, vec![(Address::new(10), 24_0000000), (Address::new(11), 25_0000000)]);
    assert_eq!(pool.reserves[0].d_supply, 75_0000000);
    assert_eq!(pool.reserves[1].d_supply, 75_0000000);
}

#[test]
fn bad_debt_adds_to_existing_backstop_liabilities() {
    let mut pool = pool();
    let mut samwise = user(2, &[(1, 5)], &[]);
    let mut backstop = user(5, &[(0, 7), (1, 3)], &[(0, 9)]);

    transfer_bad_debt_to_backstop(&mut pool, &mut samwise, &mut backstop).unwrap();

    assert_eq!(backstop.positions.liabilities.get(0), 7);
    assert_eq!(backstop.positions.liabilities.get(1), 8);
    assert_eq!(backstop.positions.collateral.get(0), 9);
    assert!(samwise.positions.liabilities.is_empty());
}

#[test]
fn test_transfer_bad_debt_with_collateral_panics() {
    let mut pool = pool();
    let mut samwise = user(2, &[(0, 24_0000000), (1, 25_0000000)], &[(0, 1)]);
    let mut backstop = user(5, &[], &[]);

    let result = transfer_bad_debt_to_backstop(&mut pool, &mut samwise, &mut backstop);
    assert_eq!(result, Err(PoolError::BadRequest));
}

#[test]
fn test_transfer_bad_debt_without_liabilities_panics() {
    let mut pool = pool();
    let mut samwise = user(2, &[], &[]);
    let mut backstop = user(5, &[], &[]);

    let result = transfer_bad_debt_to_backstop(&mut pool, &mut samwise, &mut backstop);
    assert_eq!(result, Err(PoolError::BadRequest));
}

#[test]
fn test_transfer_bad_debt_with_backstop_panics() {
    let mut pool = pool();
    let mut backstop = user(5, &[(0, 24_0000000), (1, 25_0000000)], &[]);
    let mut same_backstop = backstop.clone();

    let result = transfer_bad_debt_to_backstop(&mut pool, &mut backstop, &mut same_backstop);
    assert_eq!(result, Err(PoolError::BadRequest));
}

#[test]
fn position_map_counts_and_clears_balances() {
    let mut m = PositionMap::new();
    assert!(m.is_empty());
    m.set(3, 5);
    assert_eq!(m.len(), 1);
    assert_eq!(m.get(3), 5);
    assert_eq!(m.get(2), 0);
    assert_eq!(m.get(40), 0);
    m.set(3, 0);
    assert!(m.is_empty());
    assert_eq!(m.len(), 0);
}

#[test]
fn pool_requires_reserves_at_their_index() {
    let config = PoolConfig { oracle: Address::new(30), bstop_rate: 0, status: 0, max_positions: 2 };
    assert!(Pool::new(config, vec![reserve(0, 10), reserve(1, 11)]).is_ok());
    let result = Pool::new(config, vec![reserve(1, 11), reserve(0, 10)]);
    assert_eq!(result.unwrap_err(), PoolError::InternalReserveNotFound);
}

#[test]
fn settlement_nets_each_asset() {
    let a = Address::new(10);
    let b = Address::new(11);
    let spender = vec![(a, 5), (b, 2)];
    let pool = vec![(a, 3), (b, 2), (b, 4)];
    let s = settle_netted(&spender, &pool).unwrap();
    assert_eq!(s.spender_to_pool, vec![(a, 2)]);
    assert_eq!(s.pool_to_recipient, vec![(b, 4)]);
    let overflow = settle_netted(&vec![(a, i128::MAX), (a, 1)], &vec![]);
    assert_eq!(overflow.unwrap_err(), PoolError::OverflowError);
}
