use lending_pool::address::Address;
use lending_pool::errors::PoolError;
use lending_pool::pool::Pool;
use lending_pool::positions::{Positions, User};
use lending_pool::request::{Request, RequestType};
use lending_pool::reserve::{PoolConfig, Reserve, ReserveConfig, ReserveData};
use lending_pool::submit::{execute_submit, execute_submit_with_flash_loan, FlashLoan};

const POOL: u64 = 1;
const SAMWISE: u64 = 2;
const FRODO: u64 = 3;
const MERRY: u64 = 4;
const ASSET_0: u64 = 10;
const ASSET_1: u64 = 11;
const RECEIVER: u64 = 20;
const NOW: u64 = 600;

fn default_reserve_meta(index: u32) -> (ReserveConfig, ReserveData) {
    (
        ReserveConfig {
            index,
            decimals: 7,
            c_factor: 0_7500000,
            l_factor: 0_7500000,
            util: 0_7500000,
            max_util: 0_9500000,
            r_base: 0_0100000,
            r_one: 0_0500000,
            r_two: 0_5000000,
            r_three: 1_5000000,
            reactivity: 0_0000020,
            collateral_cap: 1000000000000000000,
            enabled: true,
        },
        ReserveData {
            d_rate: 1_000_000_000,
            b_rate: 1_000_000_000,
            ir_mod: 1_000_000_000,
            b_supply: 100_0000000,
            d_supply: 75_0000000,
            backstop_credit: 0,
            last_time: 0,
        },
    )
}

// The interest curve's output for the default reserve configuration after 600 seconds,
// at 75% and at 50% utilization.
fn curve(util: i128, ir_mod: i128, _last_time: u64) -> (i128, i128) {
    match util {
        0_7500000 => (1_000_001_142, ir_mod),
        0_5000000 => (1_000_000_825, ir_mod),
        _ => panic!("unexpected utilization {}", util),
    }
}

fn load(meta: (ReserveConfig, ReserveData), asset: u64) -> Reserve {
    Reserve::load(&meta.0, &meta.1, Address::new(asset), 0_1000000, NOW, &curve).unwrap()
}

fn pool_config() -> PoolConfig {
    PoolConfig { oracle: Address::new(30), bstop_rate: 0_1000000, status: 0, max_positions: 4 }
}

fn default_pool() -> Pool {
    Pool { config: pool_config(), reserves: vec![load(default_reserve_meta(0), ASSET_0), load(default_reserve_meta(1), ASSET_1)] }
}

// asset 0 has 100 supplied and 50 borrowed: at most 95% may be borrowed
fn flash_loan_pool() -> Pool {
    let (mut config, mut data) = default_reserve_meta(0);
    config.max_util = 9500000;
    data.b_supply = 100_0000000;
    data.d_supply = 50_0000000;
    Pool { config: pool_config(), reserves: vec![load((config, data), ASSET_0), load(default_reserve_meta(1), ASSET_1)] }
}

fn new_user(id: u64) -> User {
    User { address: Address::new(id), positions: Positions::new() }
}

fn price(index: u32) -> i128 {
    [1_0000000, 5_0000000][index as usize]
}

fn no_price(_index: u32) -> i128 {
    panic!("the oracle must not be asked")
}

fn request(kind: RequestType, asset: u64, amount: i128) -> Request {
    Request { request_type: kind as u32, address: Address::new(asset), amount }
}

#[test]
fn test_submit() {
    let mut pool = default_pool();
    let mut samwise = new_user(SAMWISE);
    let requests = vec![
        request(RequestType::SupplyCollateral, ASSET_0, 15_0000000),
        request(RequestType::Borrow, ASSET_1, 1_5000000),
    ];
    let settlement = execute_submit(
        &mut pool,
        &mut samwise,
        Address::new(POOL),
        Address::new(FRODO),
        Address::new(MERRY),
        &requests,
        &price,
    )
    .unwrap();

    let positions = &samwise.positions;
    assert_eq!(positions.liabilities.len(), 1);
    assert_eq!(positions.collateral.len(), 1);
    assert_eq!(positions.supply.len(), 0);
    assert_eq!(positions.collateral.get(0), 14_9999884);
    assert_eq!(positions.liabilities.get(1), 1_4999983);

    assert_eq!(settlement.spender_to_pool, vec![(Address::new(ASSET_0), 15_0000000)]);
    assert_eq!(settlement.pool_to_recipient, vec![(Address::new(ASSET_1), 1_5000000)]);
    assert_eq!(pool.reserves[0].b_supply, 100_0000000 + 14_9999884);
    assert_eq!(pool.reserves[1].d_supply, 75_0000000 + 1_4999983);
}

#[test]
fn test_submit_use_allowance() {
    let mut pool = default_pool();
    let mut samwise = new_user(SAMWISE);
    let requests = vec![
        request(RequestType::SupplyCollateral, ASSET_0, 15_0000000),
        request(RequestType::Borrow, ASSET_1, 1_5000000),
    ];
    let settlement = execute_submit(
        &mut pool,
        &mut samwise,
        Address::new(POOL),
        Address::new(FRODO),
        Address::new(MERRY),
        &requests,
        &price,
    )
    .unwrap();

    assert_eq!(samwise.positions.liabilities.len(), 1);
    assert_eq!(samwise.positions.collateral.len(), 1);
    assert_eq!(samwise.positions.supply.len(), 0);
    assert_eq!(samwise.positions.collateral.get(0), 14_9999884);
    assert_eq!(samwise.positions.liabilities.get(1), 1_4999983);
    assert_eq!(settlement.spender_to_pool, vec![(Address::new(ASSET_0), 15_0000000)]);
    assert_eq!(settlement.pool_to_recipient, vec![(Address::new(ASSET_1), 1_5000000)]);

    let requests = vec![
        request(RequestType::SupplyCollateral, ASSET_0, 15_0000000),
        request(RequestType::Borrow, ASSET_0, 1_0000000),
    ];
    let settlement = execute_submit(
        &mut pool,
        &mut samwise,
        Address::new(POOL),
        Address::new(FRODO),
        Address::new(MERRY),
        &requests,
        &price,
    )
    .unwrap();

    // the spender owes the deposit less the borrow
    assert_eq!(settlement.spender_to_pool, vec![(Address::new(ASSET_0), 14_0000000)]);
    assert_eq!(settlement.pool_to_recipient, vec![]);
    assert_eq!(samwise.positions.liabilities.len(), 2);
    assert_eq!(samwise.positions.collateral.len(), 1);
    assert_eq!(samwise.positions.supply.len(), 0);
    assert_eq!(samwise.positions.collateral.get(0), 29_9999768);
    assert_eq!(samwise.positions.liabilities.get(1), 1_4999983);
}

#[test]
fn test_submit_use_allowance_over_repay() {
    let mut pool = default_pool();
    let mut samwise = new_user(SAMWISE);
    let requests = vec![
        request(RequestType::SupplyCollateral, ASSET_0, 15_0000000),
        request(RequestType::Borrow, ASSET_1, 1_5000000),
    ];
    execute_submit(&mut pool, &mut samwise, Address::new(POOL), Address::new(FRODO), Address::new(MERRY), &requests, &price)
        .unwrap();
    assert_eq!(samwise.positions.collateral.get(0), 14_9999884);
    assert_eq!(samwise.positions.liabilities.get(1), 1_4999983);

    let requests = vec![request(RequestType::Repay, ASSET_1, 1_6000000)];
    let settlement = execute_submit(
        &mut pool,
        &mut samwise,
        Address::new(POOL),
        Address::new(FRODO),
        Address::new(MERRY),
        &requests,
        &price,
    )
    .unwrap();

    assert_eq!(samwise.positions.liabilities.len(), 0);
    assert_eq!(samwise.positions.collateral.len(), 1);
    assert_eq!(samwise.positions.supply.len(), 0);
    assert_eq!(samwise.positions.collateral.get(0), 14_9999884);
    // the pool takes the debt, rounded up, and refunds nothing else
    assert_eq!(settlement.spender_to_pool, vec![(Address::new(ASSET_1), 1_5000001)]);
    assert_eq!(settlement.pool_to_recipient, vec![]);
}

#[test]
fn test_submit_no_liabilities_does_not_load_oracle() {
    let mut pool = default_pool();
    let mut samwise = new_user(SAMWISE);
    let requests = vec![
        request(RequestType::SupplyCollateral, ASSET_0, 15_0000000),
        // force check_health to true
        request(RequestType::Borrow, ASSET_1, 1_5000000),
        request(RequestType::Repay, ASSET_1, 1_5000001),
    ];
    let settlement = execute_submit(
        &mut pool,
        &mut samwise,
        Address::new(POOL),
        Address::new(FRODO),
        Address::new(FRODO),
        &requests,
        &no_price,
    )
    .unwrap();

    assert_eq!(samwise.positions.liabilities.len(), 0);
    assert_eq!(samwise.positions.collateral.len(), 1);
    assert_eq!(samwise.positions.supply.len(), 0);
    assert_eq!(samwise.positions.collateral.get(0), 14_9999884);
    // repayment rounded against the user: the pool keeps one more than it lent
    assert_eq!(
        settlement.spender_to_pool,
        vec![(Address::new(ASSET_0), 15_0000000), (Address::new(ASSET_1), 1)]
    );
    assert_eq!(settlement.pool_to_recipient, vec![]);
}

#[test]
fn test_submit_requires_healhty() {
    let mut pool = default_pool();
    let mut samwise = new_user(SAMWISE);
    let requests = vec![
        request(RequestType::SupplyCollateral, ASSET_0, 15_0000000),
        request(RequestType::Borrow, ASSET_1, 1_7500000),
    ];
    let result = execute_submit(
        &mut pool,
        &mut samwise,
        Address::new(POOL),
        Address::new(FRODO),
        Address::new(MERRY),
        &requests,
        &price,
    );
    assert_eq!(result.unwrap_err(), PoolError::InvalidHf);
}

#[test]
fn test_submit_from_is_not_self() {
    let mut pool = default_pool();
    let mut user = new_user(POOL);
    let requests = vec![request(RequestType::SupplyCollateral, ASSET_0, 15_0000000)];
    let result = execute_submit(
        &mut pool,
        &mut user,
        Address::new(POOL),
        Address::new(SAMWISE),
        Address::new(SAMWISE),
        &requests,
        &price,
    );
    assert_eq!(result.unwrap_err(), PoolError::BadRequest);
}

#[test]
fn test_submit_spender_is_not_self() {
    let mut pool = default_pool();
    let mut samwise = new_user(SAMWISE);
    let requests = vec![request(RequestType::SupplyCollateral, ASSET_0, 15_0000000)];
    let result = execute_submit(
        &mut pool,
        &mut samwise,
        Address::new(POOL),
        Address::new(POOL),
        Address::new(SAMWISE),
        &requests,
        &price,
    );
    assert_eq!(result.unwrap_err(), PoolError::BadRequest);
}

#[test]
fn test_submit_to_is_not_self() {
    let mut pool = default_pool();
    let mut samwise = new_user(SAMWISE);
    let requests = vec![request(RequestType::SupplyCollateral, ASSET_0, 15_0000000)];
    let result = execute_submit(
        &mut pool,
        &mut samwise,
        Address::new(POOL),
        Address::new(SAMWISE),
        Address::new(POOL),
        &requests,
        &price,
    );
    assert_eq!(result.unwrap_err(), PoolError::BadRequest);
    assert_eq!(PoolError::BadRequest.code(), 1200);
}

#[test]
fn submit_rejects_unknown_requests_and_assets() {
    let mut pool = default_pool();
    let mut samwise = new_user(SAMWISE);
    let unknown = vec![Request { request_type: 9, address: Address::new(ASSET_0), amount: 1 }];
    let result = execute_submit(&mut pool, &mut samwise, Address::new(POOL), Address::new(FRODO), Address::new(MERRY), &unknown, &price);
    assert_eq!(result.unwrap_err(), PoolError::BadRequest);

    let mut pool = default_pool();
    let mut samwise = new_user(SAMWISE);
    let missing = vec![request(RequestType::Supply, 99, 1)];
    let result = execute_submit(&mut pool, &mut samwise, Address::new(POOL), Address::new(FRODO), Address::new(MERRY), &missing, &price);
    assert_eq!(result.unwrap_err(), PoolError::InternalReserveNotFound);

    let mut pool = default_pool();
    let mut samwise = new_user(SAMWISE);
    let negative = vec![request(RequestType::Supply, ASSET_0, -1)];
    let result = execute_submit(&mut pool, &mut samwise, Address::new(POOL), Address::new(FRODO), Address::new(MERRY), &negative, &price);
    assert_eq!(result.unwrap_err(), PoolError::NegativeAmountError);
}

#[test]
fn submit_borrow_above_max_utilization_fails() {
    let mut pool = default_pool();
    let mut samwise = new_user(SAMWISE);
    let requests = vec![
        request(RequestType::SupplyCollateral, ASSET_0, 1000_0000000),
        request(RequestType::Borrow, ASSET_1, 21_0000000),
    ];
    let result = execute_submit(&mut pool, &mut samwise, Address::new(POOL), Address::new(FRODO), Address::new(MERRY), &requests, &price);
    assert_eq!(result.unwrap_err(), PoolError::InvalidUtilRate);
}

#[test]
fn supply_and_withdraw_round_trip() {
    let mut pool = default_pool();
    let mut samwise = new_user(SAMWISE);
    let requests = vec![request(RequestType::Supply, ASSET_0, 10_0000000)];
    execute_submit(&mut pool, &mut samwise, Address::new(POOL), Address::new(FRODO), Address::new(MERRY), &requests, &price)
        .unwrap();
    let b_tokens = samwise.positions.supply.get(0);
    assert_eq!(b_tokens, 9_9999922);
    // withdrawing more than held burns everything, paying out its value rounded down
    let requests = vec![request(RequestType::Withdraw, ASSET_0, 20_0000000)];
    let settlement = execute_submit(&mut pool, &mut samwise, Address::new(POOL), Address::new(FRODO), Address::new(MERRY), &requests, &price)
        .unwrap();
    assert_eq!(samwise.positions.supply.len(), 0);
    assert_eq!(settlement.pool_to_recipient, vec![(Address::new(ASSET_0), 9_9999999)]);
    assert_eq!(pool.reserves[0].b_supply, 100_0000000);
}

#[test]
fn test_submit_with_flash_loan() {
    let mut pool = flash_loan_pool();
    let mut samwise = new_user(SAMWISE);
    let flash_loan = FlashLoan { contract: Address::new(RECEIVER), asset: Address::new(ASSET_0), amount: 25_0000000 };
    let requests = vec![request(RequestType::SupplyCollateral, ASSET_1, 25_0000000)];

    let (settlement, d_tokens_minted) =
        execute_submit_with_flash_loan(&mut pool, &mut samwise, Address::new(POOL), &flash_loan, &requests, &price).unwrap();

    let positions = &samwise.positions;
    assert_eq!(positions.liabilities.len(), 1);
    assert_eq!(positions.collateral.len(), 1);
    assert_eq!(positions.supply.len(), 0);
    assert_eq!(positions.collateral.get(1), 249999807);
    // actual is 24.999979375 - rounds up
    assert_eq!(positions.liabilities.get(0), 249999794);
    assert_eq!(d_tokens_minted, 249999794);

    // the loan itself leaves separately; the user sends the collateral
    assert_eq!(settlement.spender_to_pool, vec![(Address::new(ASSET_1), 25_0000000)]);
    assert_eq!(settlement.pool_to_recipient, vec![]);
}

#[test]
fn test_submit_with_flash_loan_process_flash_loan_first() {
    let mut pool = flash_loan_pool();
    let mut samwise = new_user(SAMWISE);
    let flash_loan = FlashLoan { contract: Address::new(RECEIVER), asset: Address::new(ASSET_0), amount: 25_0000000 };
    let requests = vec![request(RequestType::Repay, ASSET_0, 25_0000010)];

    let (settlement, _) =
        execute_submit_with_flash_loan(&mut pool, &mut samwise, Address::new(POOL), &flash_loan, &requests, &price).unwrap();

    assert_eq!(samwise.positions.liabilities.len(), 0);
    assert_eq!(samwise.positions.collateral.len(), 0);
    assert_eq!(samwise.positions.supply.len(), 0);
    // rounding costs the user one stroop
    assert_eq!(settlement.spender_to_pool, vec![(Address::new(ASSET_0), 25_0000001)]);
    assert_eq!(settlement.pool_to_recipient, vec![]);
}

#[test]
fn test_submit_with_flash_loan_checks_health() {
    let mut pool = flash_loan_pool();
    let mut samwise = new_user(SAMWISE);
    let flash_loan = FlashLoan { contract: Address::new(RECEIVER), asset: Address::new(ASSET_0), amount: 25_0000000 };
    let requests = vec![request(RequestType::SupplyCollateral, ASSET_1, 8_0000000)];

    let result = execute_submit_with_flash_loan(&mut pool, &mut samwise, Address::new(POOL), &flash_loan, &requests, &price);
    assert_eq!(result.unwrap_err(), PoolError::InvalidHf);
    assert_eq!(PoolError::InvalidHf.code(), 1205);
}

#[test]
fn test_submit_with_flash_loan_checks_max_util() {
    let mut pool = flash_loan_pool();
    let mut samwise = new_user(SAMWISE);
    let flash_loan = FlashLoan { contract: Address::new(RECEIVER), asset: Address::new(ASSET_0), amount: 46_0000000 };
    let requests = vec![request(RequestType::SupplyCollateral, ASSET_1, 50_0000000)];

    let result = execute_submit_with_flash_loan(&mut pool, &mut samwise, Address::new(POOL), &flash_loan, &requests, &price);
    assert_eq!(result.unwrap_err(), PoolError::InvalidUtilRate);
}

#[test]
fn flash_loan_rejects_the_pool_itself_and_negative_loans() {
    let mut pool = flash_loan_pool();
    let mut user = new_user(POOL);
    let flash_loan = FlashLoan { contract: Address::new(RECEIVER), asset: Address::new(ASSET_0), amount: 1_0000000 };
    let result = execute_submit_with_flash_loan(&mut pool, &mut user, Address::new(POOL), &flash_loan, &vec![], &price);
    assert_eq!(result.unwrap_err(), PoolError::BadRequest);

    let mut samwise = new_user(SAMWISE);
    let negative = FlashLoan { contract: Address::new(RECEIVER), asset: Address::new(ASSET_0), amount: -1 };
    let result = execute_submit_with_flash_loan(&mut pool, &mut samwise, Address::new(POOL), &negative, &vec![], &price);
    assert_eq!(result.unwrap_err(), PoolError::NegativeAmountError);
}

#[test]
fn supply_collateral_above_cap_fails() {
    let (mut config, data) = default_reserve_meta(0);
    config.collateral_cap = 115_0000000;
    let mut pool = Pool { config: pool_config(), reserves: vec![load((config, data), ASSET_0), load(default_reserve_meta(1), ASSET_1)] };
    let mut samwise = new_user(SAMWISE);
    let requests = vec![request(RequestType::SupplyCollateral, ASSET_0, 10_0000000)];
    execute_submit(&mut pool, &mut samwise, Address::new(POOL), Address::new(FRODO), Address::new(MERRY), &requests, &price)
        .unwrap();
    let requests = vec![request(RequestType::SupplyCollateral, ASSET_0, 10_0000000)];
    let result = execute_submit(&mut pool, &mut samwise, Address::new(POOL), Address::new(FRODO), Address::new(MERRY), &requests, &price);
    assert_eq!(result.unwrap_err(), PoolError::ExceededCollateralCap);
    assert_eq!(PoolError::ExceededCollateralCap.code(), 1220);
}
