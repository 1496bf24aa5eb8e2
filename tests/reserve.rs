use lending_pool::address::Address;
use lending_pool::errors::PoolError;
use lending_pool::request::RequestType;
use lending_pool::reserve::{Reserve, ReserveConfig, ReserveData};

fn default_reserve() -> Reserve {
    Reserve {
        asset: Address::new(100),
        index: 0,
        l_factor: 0_7500000,
        c_factor: 0_7500000,
        max_util: 0_9500000,
        last_time: 0,
        scalar: 1_0000000,
        d_rate: 1_000_000_000,
        b_rate: 1_000_000_000,
        ir_mod: 1_000_000_000,
        b_supply: 100_0000000,
        d_supply: 75_0000000,
        backstop_credit: 0,
        collateral_cap: 1000000000000000000,
        enabled: true,
    }
}

fn default_reserve_meta() -> (ReserveConfig, ReserveData) {
    (
        ReserveConfig {
            index: 0,
            decimals: 7,
            c_factor: 0_7500000,
            l_factor: 0_7500000,
            util: 0_7500000,
            max_util: 0_9500000,
            r_base: 0_0100000,
            r_one: 0_0500000,
            r_two: 0_5000000,
            r_three: 1_5000000,
            reactivity: 0_0000020,
            collateral_cap: 1000000000000000000,
            enabled: true,
        },
        ReserveData {
            d_rate: 1_000_000_000,
            b_rate: 1_000_000_000,
            ir_mod: 1_000_000_000,
            b_supply: 100_0000000,
            d_supply: 75_0000000,
            backstop_credit: 0,
            last_time: 0,
        },
    )
}

// The interest curve's output for the reserve below: utilization 0.7864353 over
// 617280 seconds accrues by 1.002957376 and moves the rate modifier to 1.044981563.
fn curve(util: i128, _ir_mod: i128, last_time: u64) -> (i128, i128) {
    assert_eq!(util, 0_7864353);
    assert_eq!(last_time, 0);
    (1_002_957_376, 1_044_981_563)
}

fn no_curve(_util: i128, _ir_mod: i128, _last_time: u64) -> (i128, i128) {
    panic!("no interest is due")
}

#[test]
fn test_load_reserve() {
    let (reserve_config, mut reserve_data) = default_reserve_meta();
    reserve_data.d_rate = 1_345_678_123;
    reserve_data.b_rate = 1_123_456_789;
    reserve_data.d_supply = 65_0000000;
    reserve_data.b_supply = 99_0000000;

    let reserve = Reserve::load(&reserve_config, &reserve_data, Address::new(1), 0_2000000, 123456 * 5, &curve).unwrap();

    assert_eq!(reserve.d_rate, 1_349_657_800);
    assert_eq!(reserve.b_rate, 1_125_547_124);
    assert_eq!(reserve.ir_mod, 1_044_981_563);
    assert_eq!(reserve.d_supply, 65_0000000);
    assert_eq!(reserve.b_supply, 99_0000000);
    assert_eq!(reserve.backstop_credit, 0_0517358);
    assert_eq!(reserve.last_time, 617280);
}

#[test]
fn test_load_reserve_zero_supply() {
    let (reserve_config, mut reserve_data) = default_reserve_meta();
    reserve_data.d_rate = 0;
    reserve_data.b_rate = 0;
    reserve_data.d_supply = 0;
    reserve_data.b_supply = 0;

    let reserve = Reserve::load(&reserve_config, &reserve_data, Address::new(1), 0_2000000, 123456 * 5, &no_curve).unwrap();

    assert_eq!(reserve.d_rate, 0);
    assert_eq!(reserve.b_rate, 0);
    assert_eq!(reserve.ir_mod, 1_000_000_000);
    assert_eq!(reserve.d_supply, 0);
    assert_eq!(reserve.b_supply, 0);
    assert_eq!(reserve.backstop_credit, 0);
    assert_eq!(reserve.last_time, 617280);
}

#[test]
fn test_load_reserve_zero_util() {
    let (reserve_config, mut reserve_data) = default_reserve_meta();
    reserve_data.d_rate = 0;
    reserve_data.d_supply = 0;

    let reserve = Reserve::load(&reserve_config, &reserve_data, Address::new(1), 0_2000000, 123456 * 5, &no_curve).unwrap();

    assert_eq!(reserve.d_rate, 0);
    assert_eq!(reserve.b_rate, reserve_data.b_rate);
    assert_eq!(reserve.ir_mod, reserve_data.ir_mod);
    assert_eq!(reserve.d_supply, 0);
    assert_eq!(reserve.b_supply, reserve_data.b_supply);
    assert_eq!(reserve.backstop_credit, 0);
    assert_eq!(reserve.last_time, 617280);
}

#[test]
fn test_load_reserve_zero_bstop_rate() {
    let (reserve_config, mut reserve_data) = default_reserve_meta();
    reserve_data.d_rate = 1_345_678_123;
    reserve_data.b_rate = 1_123_456_789;
    reserve_data.d_supply = 65_0000000;
    reserve_data.b_supply = 99_0000000;

    let reserve = Reserve::load(&reserve_config, &reserve_data, Address::new(1), 0, 123456 * 5, &curve).unwrap();

    assert_eq!(reserve.d_rate, 1_349_657_800);
    assert_eq!(reserve.b_rate, 1_126_069_708);
    assert_eq!(reserve.ir_mod, 1_044_981_563);
    assert_eq!(reserve.d_supply, 65_0000000);
    assert_eq!(reserve.b_supply, 99_0000000);
    assert_eq!(reserve.backstop_credit, 0);
    assert_eq!(reserve.last_time, 617280);
}

#[test]
fn test_store() {
    let (reserve_config, mut reserve_data) = default_reserve_meta();
    reserve_data.d_rate = 1_345_678_123;
    reserve_data.b_rate = 1_123_456_789;
    reserve_data.d_supply = 65_0000000;
    reserve_data.b_supply = 99_0000000;

    let reserve = Reserve::load(&reserve_config, &reserve_data, Address::new(1), 0_2000000, 123456 * 5, &curve).unwrap();
    let reserve_data = reserve.store();

    assert_eq!(reserve_data.d_rate, 1_349_657_800);
    assert_eq!(reserve_data.b_rate, 1_125_547_124);
    assert_eq!(reserve_data.ir_mod, 1_044_981_563);
    assert_eq!(reserve_data.d_supply, 65_0000000);
    assert_eq!(reserve_data.b_supply, 99_0000000);
    assert_eq!(reserve_data.backstop_credit, 0_0517358);
    assert_eq!(reserve_data.last_time, 617280);
}

#[test]
fn load_twice_at_one_timestamp_changes_nothing() {
    let (reserve_config, mut reserve_data) = default_reserve_meta();
    reserve_data.d_rate = 1_345_678_123;
    reserve_data.b_rate = 1_123_456_789;
    reserve_data.d_supply = 65_0000000;
    reserve_data.b_supply = 99_0000000;

    let first = Reserve::load(&reserve_config, &reserve_data, Address::new(1), 0_2000000, 617280, &curve).unwrap();
    let second = Reserve::load(&reserve_config, &first.store(), Address::new(1), 0_2000000, 617280, &no_curve).unwrap();
    assert_eq!(first, second);
    assert!(first.d_rate >= reserve_data.d_rate);
    assert!(first.b_rate >= reserve_data.b_rate);
}

#[test]
fn load_with_too_many_decimals_overflows() {
    let (mut reserve_config, reserve_data) = default_reserve_meta();
    reserve_config.decimals = 39;
    let result = Reserve::load(&reserve_config, &reserve_data, Address::new(1), 0, 0, &no_curve);
    assert_eq!(result, Err(PoolError::OverflowError));
    reserve_config.decimals = 38;
    let reserve = Reserve::load(&reserve_config, &reserve_data, Address::new(1), 0, 0, &no_curve).unwrap();
    assert_eq!(reserve.scalar, 10i128.pow(38));
}

#[test]
fn test_utilization() {
    let mut reserve = default_reserve();
    reserve.d_rate = 1_345_678_123;
    reserve.b_rate = 1_123_456_789;
    reserve.b_supply = 99_0000000;
    reserve.d_supply = 65_0000000;

    let result = reserve.utilization();

    assert_eq!(result, Ok(0_7864353));
}

#[test]
fn test_require_utilization_below_max_pass() {
    let mut reserve = default_reserve();
    reserve.b_supply = 99_0000000;
    reserve.d_supply = 65_0000000;

    assert_eq!(reserve.require_utilization_below_max(), Ok(()));
}

#[test]
fn test_require_utilization_under_max_panic() {
    let mut reserve = default_reserve();
    reserve.b_supply = 100_0000000;
    reserve.d_supply = 95_0000100;

    let result = reserve.require_utilization_below_max();
    assert_eq!(result, Err(PoolError::InvalidUtilRate));
    assert_eq!(result.unwrap_err().code(), 1207);
}

#[test]
fn test_to_asset_from_d_token() {
    let mut reserve = default_reserve();
    reserve.d_rate = 1_321_834_961;
    reserve.b_supply = 99_0000000;
    reserve.d_supply = 65_0000000;

    let result = reserve.to_asset_from_d_token(1_1234567);

    assert_eq!(result, Ok(1_4850244));
}

#[test]
fn test_to_asset_from_b_token() {
    let mut reserve = default_reserve();
    reserve.b_rate = 1_321_834_961;
    reserve.b_supply = 99_0000000;
    reserve.d_supply = 65_0000000;

    let result = reserve.to_asset_from_b_token(1_1234567);

    assert_eq!(result, Ok(1_4850243));
}

#[test]
fn test_to_effective_asset_from_d_token() {
    let mut reserve = default_reserve();
    reserve.d_rate = 1_321_834_961;
    reserve.b_supply = 99_0000000;
    reserve.d_supply = 65_0000000;
    reserve.l_factor = 1_1000000;

    let result = reserve.to_effective_asset_from_d_token(1_1234567);

    assert_eq!(result, Ok(1_3500222));
}

#[test]
fn test_to_effective_asset_from_b_token() {
    let mut reserve = default_reserve();
    reserve.b_rate = 1_321_834_961;
    reserve.b_supply = 99_0000000;
    reserve.d_supply = 65_0000000;
    reserve.c_factor = 0_8500000;

    let result = reserve.to_effective_asset_from_b_token(1_1234567);

    assert_eq!(result, Ok(1_2622706));
}

#[test]
fn test_total_liabilities() {
    let mut reserve = default_reserve();
    reserve.d_rate = 1_823_912_692;
    reserve.b_supply = 99_0000000;
    reserve.d_supply = 65_0000000;

    let result = reserve.total_liabilities();

    assert_eq!(result, Ok(118_5543250));
}

#[test]
fn test_total_supply() {
    let mut reserve = default_reserve();
    reserve.b_rate = 1_823_912_692;
    reserve.b_supply = 99_0000000;
    reserve.d_supply = 65_0000000;

    let result = reserve.total_supply();

    assert_eq!(result, Ok(180_5673565));
}

#[test]
fn test_to_d_token_up() {
    let mut reserve = default_reserve();
    reserve.d_rate = 1_321_834_961;
    reserve.b_supply = 99_0000000;
    reserve.d_supply = 65_0000000;

    let result = reserve.to_d_token_up(1_4850243);

    assert_eq!(result, Ok(1_1234567));
}

#[test]
fn test_to_d_token_down() {
    let mut reserve = default_reserve();
    reserve.d_rate = 1_321_834_961;
    reserve.b_supply = 99_0000000;
    reserve.d_supply = 65_0000000;

    let result = reserve.to_d_token_down(1_4850243);

    assert_eq!(result, Ok(1_1234566));
}

#[test]
fn test_to_b_token_up() {
    let mut reserve = default_reserve();
    reserve.b_rate = 1_321_834_961;
    reserve.b_supply = 99_0000000;
    reserve.d_supply = 65_0000000;

    let result = reserve.to_b_token_up(1_4850243);

    assert_eq!(result, Ok(1_1234567));
}

#[test]
fn test_to_b_token_down() {
    let mut reserve = default_reserve();
    reserve.b_rate = 1_321_834_961;
    reserve.b_supply = 99_0000000;
    reserve.d_supply = 65_0000000;

    let result = reserve.to_b_token_down(1_4850243);

    assert_eq!(result, Ok(1_1234566));
}

#[test]
fn d_token_round_trip_brackets_the_amount() {
    let mut reserve = default_reserve();
    reserve.d_rate = 1_321_834_961;
    for x in [0i128, 1, 7, 1_1234567, 99_9999999, -3] {
        let assets = reserve.to_asset_from_d_token(x).unwrap();
        assert!(reserve.to_d_token_up(assets).unwrap() >= x);
        assert!(reserve.to_d_token_down(assets).unwrap() <= x);
    }
}

#[test]
fn conversions_overflow_or_divide_by_zero() {
    let mut reserve = default_reserve();
    reserve.d_rate = 0;
    reserve.b_rate = 0;
    assert_eq!(reserve.to_d_token_up(1), Err(PoolError::OverflowError));
    assert_eq!(reserve.to_b_token_down(1), Err(PoolError::OverflowError));
    reserve.d_rate = i128::MAX;
    assert_eq!(reserve.to_asset_from_d_token(2), Err(PoolError::OverflowError));
    reserve.l_factor = 0;
    reserve.d_rate = 1_000_000_000;
    assert_eq!(reserve.to_effective_asset_from_d_token(2), Err(PoolError::OverflowError));
}

#[test]
fn test_require_action_allowed_panics_if_supply_disabled_asset() {
    let mut reserve = default_reserve();
    reserve.enabled = false;

    let result = reserve.require_action_allowed(RequestType::SupplyCollateral as u32);
    assert_eq!(result, Err(PoolError::ReserveDisabled));
    assert_eq!(result.unwrap_err().code(), 1223);
    assert_eq!(reserve.require_action_allowed(RequestType::Supply as u32), Err(PoolError::ReserveDisabled));
}

#[test]
fn test_require_action_allowed_panics_if_borrow_disabled_asset() {
    let mut reserve = default_reserve();
    reserve.enabled = false;

    let result = reserve.require_action_allowed(RequestType::Borrow as u32);
    assert_eq!(result, Err(PoolError::ReserveDisabled));
}

#[test]
fn test_require_action_allowed_passed_if_withdraw_or_repay() {
    let mut reserve = default_reserve();
    reserve.enabled = false;

    assert_eq!(reserve.require_action_allowed(RequestType::Withdraw as u32), Ok(()));
    assert_eq!(reserve.require_action_allowed(RequestType::WithdrawCollateral as u32), Ok(()));
    assert_eq!(reserve.require_action_allowed(RequestType::Repay as u32), Ok(()));
}

#[test]
fn enabled_reserve_allows_every_action() {
    let reserve = default_reserve();
    for t in [RequestType::Supply, RequestType::SupplyCollateral, RequestType::Borrow] {
        assert_eq!(reserve.require_action_allowed(t.code()), Ok(()));
    }
}

#[test]
fn test_gulp() {
    let mut reserve = default_reserve();
    reserve.backstop_credit = 0_1234567;

    reserve.gulp(0_2000000, 100_0000000).unwrap();
    assert_eq!(reserve.backstop_credit, 20_0000000 + 0_1234567);
    assert_eq!(reserve.b_rate, 1_800000000);
    assert_eq!(reserve.last_time, 0);
}

#[test]
fn test_gulp_negative_delta_no_change() {
    let mut reserve = default_reserve();
    reserve.backstop_credit = 0_1234567;

    reserve.gulp(0_2000000, -10_0000000).unwrap();
    assert_eq!(reserve.backstop_credit, 0_1234567);
    assert_eq!(reserve.b_rate, 1000000000);
    assert_eq!(reserve.last_time, 0);
}

#[test]
fn accrue_applies_the_accrual_factor() {
    let mut reserve = default_reserve();
    reserve.accrue(0_1000000, 1_000_001_142, 1_000_000_001, 600).unwrap();
    assert_eq!(reserve.d_rate, 1_000_001_142);
    assert_eq!(reserve.backstop_credit, 85);
    assert_eq!(reserve.b_rate, 1_000_000_772);
    assert_eq!(reserve.ir_mod, 1_000_000_001);
    assert_eq!(reserve.last_time, 600);
}
