use fairswap::curve::Amounts;
use fairswap::errors::AmmError;
use fairswap::lifecycle::PoolState;
use fairswap::pool::{Pool, SwapOutcome, PRICE_PRECISION};
use fairswap::states::address::Address;
use fairswap::states::config::Config;
use fairswap::states::pooldata::PoolData;

fn address(tag: u8) -> Address {
    Address { bytes: [tag; 32] }
}

fn admin() -> Address {
    address(1)
}

fn mint_x() -> Address {
    address(2)
}

fn mint_y() -> Address {
    address(3)
}

fn new_pool(fee: u16) -> Pool {
    Pool::save_config(admin(), mint_x(), mint_y(), 7, fee).unwrap()
}

/// A pool of 1000 X and 2000 Y with 1000 liquidity tokens and a fee of 0.3%.
fn funded_pool() -> Pool {
    let mut pool = new_pool(30);
    pool.deposit(1000, 1000, 2000).unwrap();
    pool
}

#[test]
fn save_config_makes_an_empty_unlocked_pool() {
    let pool = new_pool(30);
    assert_eq!(
        pool.config,
        Config {
            seed: 7,
            authority: admin(),
            fee: 30,
            mint_x: mint_x(),
            mint_y: mint_y(),
            locked: false
        }
    );
    assert_eq!(
        pool.pooldata,
        PoolData { last_slot: 0, buying_x_high: None, buying_y_high: None, precision: 6 }
    );
    assert_eq!(PRICE_PRECISION, 6);
    assert_eq!((pool.reserve_x, pool.reserve_y, pool.lp_supply), (0, 0, 0));
}

#[test]
fn save_config_refuses_a_fee_of_a_hundred_percent() {
    assert_eq!(
        Pool::save_config(admin(), mint_x(), mint_y(), 7, 10000),
        Err(AmmError::InvalidFeeSet)
    );
    assert_eq!(
        Pool::save_config(admin(), mint_x(), mint_y(), 7, u16::MAX),
        Err(AmmError::InvalidFeeSet)
    );
    assert!(Pool::save_config(admin(), mint_x(), mint_y(), 7, 9999).is_ok());
    assert!(Pool::save_config(admin(), mint_x(), mint_y(), 7, 0).is_ok());
}

#[test]
fn initialize_activates_the_pool() {
    let mut state = PoolState::Uninitialized;
    assert_eq!(state.pool(), None);
    assert_eq!(state.initialize(admin(), mint_x(), mint_y(), 7, 30), Ok(()));
    assert_eq!(state, PoolState::Active(new_pool(30)));
    assert_eq!(state.pool(), Some(new_pool(30)));
}

#[test]
fn initialize_twice_fails() {
    let mut state = PoolState::Uninitialized;
    state.initialize(admin(), mint_x(), mint_y(), 7, 30).unwrap();
    let before = state;
    assert_eq!(
        state.initialize(admin(), mint_x(), mint_y(), 7, 30),
        Err(AmmError::InvalidFeeSet)
    );
    assert_eq!(
        state.initialize(address(9), mint_y(), mint_x(), 8, 1),
        Err(AmmError::InvalidFeeSet)
    );
    assert_eq!(state, before);
}

#[test]
fn initialize_with_an_invalid_fee_leaves_the_pool_uninitialized() {
    let mut state = PoolState::Uninitialized;
    assert_eq!(
        state.initialize(admin(), mint_x(), mint_y(), 7, 10000),
        Err(AmmError::InvalidFeeSet)
    );
    assert_eq!(state, PoolState::Uninitialized);
    assert_eq!(state.initialize(admin(), mint_x(), mint_y(), 7, 30), Ok(()));
}

#[test]
fn bootstrap_deposit_takes_the_limits_as_the_first_reserves() {
    let mut pool = new_pool(30);
    assert_eq!(pool.deposit(1000, 1000, 2000), Ok(Amounts { x: 1000, y: 2000 }));
    assert_eq!((pool.reserve_x, pool.reserve_y, pool.lp_supply), (1000, 2000, 1000));
    assert_eq!(pool.config, new_pool(30).config);
    assert_eq!(pool.pooldata, new_pool(30).pooldata);
}

#[test]
fn later_deposit_pays_the_proportional_share() {
    let mut pool = funded_pool();
    assert_eq!(pool.deposit(500, 500, 1000), Ok(Amounts { x: 500, y: 1000 }));
    assert_eq!((pool.reserve_x, pool.reserve_y, pool.lp_supply), (1500, 3000, 1500));
    // 1 token of 1500 is worth 1 X and 2 Y.
    assert_eq!(pool.deposit(1, 5, 5), Ok(Amounts { x: 1, y: 2 }));
    assert_eq!((pool.reserve_x, pool.reserve_y, pool.lp_supply), (1501, 3002, 1501));
}

#[test]
fn deposit_rounds_the_share_down() {
    let mut pool = new_pool(30);
    pool.deposit(2, 3, 3).unwrap();
    // 1 * 3 / 2 = 1.5
    assert_eq!(pool.deposit(1, 2, 2), Ok(Amounts { x: 1, y: 1 }));
    assert_eq!((pool.reserve_x, pool.reserve_y, pool.lp_supply), (4, 4, 3));
}

#[test]
fn deposit_refuses_more_than_the_limits() {
    let mut pool = funded_pool();
    let before = pool;
    assert_eq!(pool.deposit(500, 499, 1000), Err(AmmError::SlippageExceeded));
    assert_eq!(pool.deposit(500, 500, 999), Err(AmmError::SlippageExceeded));
    assert_eq!(pool, before);
}

#[test]
fn deposit_refuses_zero_arguments() {
    let mut pool = funded_pool();
    let before = pool;
    assert_eq!(pool.deposit(0, 500, 1000), Err(AmmError::ZeroBalance));
    assert_eq!(pool.deposit(500, 0, 1000), Err(AmmError::ZeroBalance));
    assert_eq!(pool.deposit(500, 500, 0), Err(AmmError::ZeroBalance));
    assert_eq!(pool, before);
}

#[test]
fn deposit_refuses_counters_beyond_64_bits() {
    let mut pool = new_pool(30);
    pool.deposit(u64::MAX, 10, 10).unwrap();
    let before = pool;
    assert_eq!(pool.deposit(1, 10, 10), Err(AmmError::Overflow));
    assert_eq!(pool, before);

    let mut pool = new_pool(30);
    pool.deposit(2, u64::MAX - 1, 10).unwrap();
    let before = pool;
    // Half the supply costs half the reserve, which no longer fits beside it.
    assert_eq!(pool.deposit(1, u64::MAX, 10), Err(AmmError::Overflow));
    assert_eq!(pool, before);
}

#[test]
fn deposit_into_reserves_without_supply_is_refused() {
    let mut pool = new_pool(30);
    pool.reserve_x = 5;
    let before = pool;
    assert_eq!(pool.deposit(10, 10, 10), Err(AmmError::ZeroBalance));
    assert_eq!(pool, before);
}

#[test]
fn withdraw_pays_the_proportional_share() {
    let mut pool = funded_pool();
    assert_eq!(pool.withdraw(500, 1, 1), Ok(Amounts { x: 500, y: 1000 }));
    assert_eq!((pool.reserve_x, pool.reserve_y, pool.lp_supply), (500, 1000, 500));
    assert_eq!(pool.config, funded_pool().config);
    assert_eq!(pool.pooldata, funded_pool().pooldata);
}

#[test]
fn withdraw_rounds_the_share_down() {
    let mut pool = new_pool(30);
    pool.deposit(3, 10, 7).unwrap();
    // 2 * 10 / 3 = 6.66.., 2 * 7 / 3 = 4.66..
    assert_eq!(pool.withdraw(2, 1, 1), Ok(Amounts { x: 6, y: 4 }));
    assert_eq!((pool.reserve_x, pool.reserve_y, pool.lp_supply), (4, 3, 1));
}

#[test]
fn withdraw_of_the_whole_supply_empties_the_pool() {
    let mut pool = funded_pool();
    assert_eq!(pool.withdraw(1000, 1000, 2000), Ok(Amounts { x: 1000, y: 2000 }));
    assert_eq!((pool.reserve_x, pool.reserve_y, pool.lp_supply), (0, 0, 0));
    // The pool can be bootstrapped again, at another price.
    assert_eq!(pool.deposit(10, 30, 20), Ok(Amounts { x: 30, y: 20 }));
}

#[test]
fn withdraw_refuses_less_than_the_limits() {
    let mut pool = funded_pool();
    let before = pool;
    assert_eq!(pool.withdraw(500, 501, 1000), Err(AmmError::SlippageExceeded));
    assert_eq!(pool.withdraw(500, 500, 1001), Err(AmmError::SlippageExceeded));
    assert_eq!(pool, before);
    assert_eq!(pool.withdraw(500, 500, 1000), Ok(Amounts { x: 500, y: 1000 }));
}

#[test]
fn withdraw_refuses_zero_arguments() {
    let mut pool = funded_pool();
    let before = pool;
    assert_eq!(pool.withdraw(0, 1, 1), Err(AmmError::ZeroBalance));
    assert_eq!(pool.withdraw(1, 0, 1), Err(AmmError::ZeroBalance));
    assert_eq!(pool.withdraw(1, 1, 0), Err(AmmError::ZeroBalance));
    assert_eq!(pool, before);
}

#[test]
fn withdraw_from_an_empty_pool_is_refused() {
    let mut pool = new_pool(30);
    assert_eq!(pool.withdraw(1, 1, 1), Err(AmmError::ZeroBalance));
}

#[test]
fn withdraw_refuses_more_than_the_supply() {
    let mut pool = funded_pool();
    let before = pool;
    assert_eq!(pool.withdraw(1001, 1, 1), Err(AmmError::Underflow));
    assert_eq!(pool, before);
}

#[test]
fn locked_pool_refuses_everything_before_any_other_check() {
    let mut pool = funded_pool();
    pool.lock(&admin()).unwrap();
    let before = pool;
    assert_eq!(pool.deposit(0, 0, 0), Err(AmmError::PoolLocked));
    assert_eq!(pool.deposit(500, 500, 1000), Err(AmmError::PoolLocked));
    assert_eq!(pool.withdraw(0, 0, 0), Err(AmmError::PoolLocked));
    assert_eq!(pool.withdraw(500, 1, 1), Err(AmmError::PoolLocked));
    assert_eq!(pool.swap(mint_x(), 100, 1, 0), Err(AmmError::PoolLocked));
    assert_eq!(pool.swap(address(9), 0, 0, 0), Err(AmmError::PoolLocked));
    assert_eq!(pool, before);
}

#[test]
fn lock_and_unlock_change_the_flag_alone() {
    let mut pool = funded_pool();
    let before = pool;
    assert_eq!(pool.lock(&admin()), Ok(()));
    assert!(pool.config.locked);
    assert_eq!(pool.lock(&admin()), Ok(()));
    assert!(pool.config.locked);
    assert_eq!(pool.unlock(&admin()), Ok(()));
    assert_eq!(pool, before);
    assert_eq!(pool.unlock(&admin()), Ok(()));
    assert_eq!(pool, before);
    assert_eq!(pool.deposit(500, 500, 1000), Ok(Amounts { x: 500, y: 1000 }));
}

#[test]
fn lock_and_unlock_are_for_the_authority_alone() {
    let mut pool = funded_pool();
    let before = pool;
    assert_eq!(pool.lock(&mint_x()), Err(AmmError::Unauthorized));
    assert_eq!(pool.unlock(&address(0)), Err(AmmError::Unauthorized));
    assert_eq!(pool, before);
    // One byte is enough to tell two callers apart.
    let mut other = admin();
    other.bytes[31] = 0;
    assert_eq!(pool.lock(&other), Err(AmmError::Unauthorized));
    pool.lock(&admin()).unwrap();
    assert_eq!(pool.unlock(&other), Err(AmmError::Unauthorized));
    assert!(pool.config.locked);
}

#[test]
fn swap_of_x_for_y_in_the_recorded_window() {
    // 99 after the fee; the curve leaves 2000000 / 1099 = 1819 and pays 181.
    let mut pool = funded_pool();
    let out = pool.swap(mint_x(), 100, 1, 0).unwrap();
    assert_eq!(
        out,
        SwapOutcome { mint_deposit: mint_x(), deposit: 100, mint_withdraw: mint_y(), withdraw: 181 }
    );
    assert_eq!((pool.reserve_x, pool.reserve_y, pool.lp_supply), (1100, 1819, 1000));
    // 100 * 10^6 / 181 = 552486.18..; for buyers of X, 2000 * 10^6 / 1000.
    assert_eq!(
        pool.pooldata,
        PoolData {
            last_slot: 0,
            buying_x_high: Some(2_000_000),
            buying_y_high: Some(552_486),
            precision: 6
        }
    );
    assert_eq!(pool.config, funded_pool().config);
}

#[test]
fn swap_in_a_later_recorded_window_without_ceilings() {
    let mut pool = funded_pool();
    pool.pooldata.last_slot = 7;
    let out = pool.swap(mint_x(), 100, 1, 7).unwrap();
    assert_eq!((out.deposit, out.withdraw), (100, 181));
    assert_eq!(out.withdraw, 2000 - 1000 * 2000 / (1000 + 99));
    assert_eq!(pool.pooldata.last_slot, 7);
    assert_eq!(pool.pooldata.buying_y_high, Some(552_486));
    assert_eq!(pool.pooldata.buying_y_high, Some(100 * 1_000_000 / 181));
    assert_eq!((pool.reserve_x, pool.reserve_y), (1100, 1819));
}

#[test]
fn swap_of_y_for_x_opens_a_new_window() {
    let mut pool = funded_pool();
    // 400 in, 398 after the fee; the curve leaves 2000000 / 2398 = 834.
    let out = pool.swap(mint_y(), 400, 1, 12).unwrap();
    assert_eq!(
        out,
        SwapOutcome { mint_deposit: mint_y(), deposit: 400, mint_withdraw: mint_x(), withdraw: 166 }
    );
    assert_eq!((pool.reserve_x, pool.reserve_y, pool.lp_supply), (834, 2400, 1000));
    // 400 * 10^6 / 166 = 2409638.55..; for buyers of Y, 1000 * 10^6 / 2000.
    assert_eq!(
        pool.pooldata,
        PoolData {
            last_slot: 12,
            buying_x_high: Some(2_409_638),
            buying_y_high: Some(500_000),
            precision: 6
        }
    );
}

#[test]
fn second_swap_at_a_worse_price_raises_the_ceiling() {
    let mut pool = funded_pool();
    pool.swap(mint_x(), 100, 1, 0).unwrap();
    // The curve leaves 1100 * 1819 / 1199 = 1668; 100 * 10^6 / 151 = 662251.65..
    let out = pool.swap(mint_x(), 100, 1, 0).unwrap();
    assert_eq!(out.withdraw, 151);
    assert_eq!(pool.pooldata.buying_y_high, Some(662_251));
    assert_eq!(pool.pooldata.buying_x_high, Some(2_000_000));
    assert_eq!((pool.reserve_x, pool.reserve_y), (1200, 1668));
}

#[test]
fn swap_at_a_better_price_in_the_same_window_is_clamped() {
    let mut pool = funded_pool();
    pool.swap(mint_x(), 100, 1, 0).unwrap();
    // A trade the other way moves the reserves back.
    let back = pool.swap(mint_y(), 400, 1, 0).unwrap();
    assert_eq!(back.withdraw, 198);
    assert_eq!((pool.reserve_x, pool.reserve_y), (902, 2219));
    assert_eq!(pool.pooldata.buying_x_high, Some(2_020_202));
    assert_eq!(pool.pooldata.buying_y_high, Some(552_486));

    // The curve alone would now pay 220 Y for 100 X; the ceiling allows 181.
    let before = pool;
    assert_eq!(pool.swap(mint_x(), 100, 200, 0), Err(AmmError::SlippageExceeded));
    assert_eq!(pool.swap(mint_x(), 100, 182, 0), Err(AmmError::SlippageExceeded));
    assert_eq!(pool, before);
    let out = pool.swap(mint_x(), 100, 181, 0).unwrap();
    assert_eq!(
        out,
        SwapOutcome { mint_deposit: mint_x(), deposit: 100, mint_withdraw: mint_y(), withdraw: 181 }
    );
    assert_eq!((pool.reserve_x, pool.reserve_y), (1002, 2038));
    assert_eq!(pool.pooldata.buying_y_high, Some(552_486));
}

#[test]
fn swap_in_the_next_window_is_not_clamped() {
    let mut pool = funded_pool();
    pool.swap(mint_x(), 100, 1, 0).unwrap();
    pool.swap(mint_y(), 400, 1, 0).unwrap();
    let out = pool.swap(mint_x(), 100, 200, 1).unwrap();
    assert_eq!(out.withdraw, 220);
    assert_eq!(pool.pooldata.last_slot, 1);
    // 100 * 10^6 / 220 = 454545.45..
    assert_eq!(pool.pooldata.buying_y_high, Some(454_545));
    // 2219 * 10^6 / 902 = 2460088.69..
    assert_eq!(pool.pooldata.buying_x_high, Some(2_460_088));
}

#[test]
fn swap_refuses_an_asset_of_another_pool() {
    let mut pool = funded_pool();
    let before = pool;
    assert_eq!(pool.swap(address(9), 100, 1, 0), Err(AmmError::InvalidInputMint));
    assert_eq!(pool.swap(admin(), 100, 1, 5), Err(AmmError::InvalidInputMint));
    assert_eq!(pool, before);
    // Also where the pool is empty.
    let mut pool = new_pool(30);
    assert_eq!(pool.swap(address(9), 100, 1, 0), Err(AmmError::InvalidInputMint));
}

#[test]
fn swap_refuses_zero_arguments() {
    let mut pool = funded_pool();
    let before = pool;
    assert_eq!(pool.swap(mint_x(), 0, 1, 0), Err(AmmError::ZeroBalance));
    assert_eq!(pool.swap(mint_x(), 100, 0, 0), Err(AmmError::ZeroBalance));
    // The amounts are looked at before the asset.
    assert_eq!(pool.swap(address(9), 0, 1, 0), Err(AmmError::ZeroBalance));
    assert_eq!(pool, before);
}

#[test]
fn swap_on_an_empty_pool_is_refused() {
    let mut pool = new_pool(30);
    assert_eq!(pool.swap(mint_x(), 100, 1, 0), Err(AmmError::ZeroBalance));
    assert_eq!(pool, new_pool(30));
}

#[test]
fn swap_refuses_less_than_the_minimum_from_the_curve() {
    let mut pool = funded_pool();
    let before = pool;
    assert_eq!(pool.swap(mint_x(), 100, 182, 0), Err(AmmError::SlippageExceeded));
    assert_eq!(pool, before);
}

#[test]
fn swap_refuses_a_reserve_beyond_64_bits() {
    let mut pool = new_pool(0);
    pool.deposit(1000, u64::MAX - 5, u64::MAX).unwrap();
    let before = pool;
    // The curve pays 10 Y for 10 X, but the reserve of X cannot take 10 more.
    assert_eq!(pool.swap(mint_x(), 10, 1, 0), Err(AmmError::Overflow));
    assert_eq!(pool, before);
    // 5 more fit exactly, and 5 Y are paid.
    assert_eq!(pool.swap(mint_x(), 5, 1, 0).unwrap().withdraw, 5);
    assert_eq!((pool.reserve_x, pool.reserve_y), (u64::MAX, u64::MAX - 5));
}

#[test]
fn swap_pays_what_the_price_charged_allows() {
    // Prices with no decimal place. Reserves of 3 X and 4 Y: for 3 X the
    // curve leaves 12 / 6 = 2 Y and quotes 2, at a price of 3 / 2 = 1, for
    // which 3 Y are paid.
    let mut pool = new_pool(0);
    pool.pooldata.precision = 0;
    pool.deposit(10, 3, 4).unwrap();
    let out = pool.swap(mint_x(), 3, 1, 0).unwrap();
    assert_eq!(out.withdraw, 3);
    assert_eq!((pool.reserve_x, pool.reserve_y), (6, 1));
    assert_eq!(pool.pooldata.buying_y_high, Some(1));
    assert_eq!(pool.pooldata.buying_x_high, Some(1));
}

#[test]
fn swap_refuses_a_quote_that_leaves_nothing() {
    // Reserves of 1 X and 5 Y: for 7 X the curve would leave 5 / 8 = 0 Y.
    let mut pool = new_pool(0);
    pool.deposit(10, 1, 5).unwrap();
    let before = pool;
    assert_eq!(pool.swap(mint_x(), 7, 1, 0), Err(AmmError::Underflow));
    assert_eq!(pool, before);
}

#[test]
fn swap_refuses_to_pay_out_a_whole_reserve() {
    // Prices with no decimal place. Reserves of 2 X and 3 Y: for 3 X the
    // curve leaves 6 / 5 = 1 Y and quotes 2, at a price of 3 / 2 = 1, for
    // which all 3 Y would be paid.
    let mut pool = new_pool(0);
    pool.pooldata.precision = 0;
    pool.deposit(10, 2, 3).unwrap();
    let before = pool;
    assert_eq!(pool.swap(mint_x(), 3, 1, 0), Err(AmmError::Underflow));
    assert_eq!(pool, before);

    // With six decimal places: for 3 X the curve leaves 6000000 / 5 and
    // quotes 1800000 Y, at a price of 3 * 10^6 / 1800000 = 1 millionth, for
    // which all 3000000 Y would be paid.
    let mut pool = new_pool(0);
    pool.deposit(10, 2, 3_000_000).unwrap();
    let before = pool;
    assert_eq!(pool.swap(mint_x(), 3, 1, 0), Err(AmmError::Underflow));
    assert_eq!(pool, before);
    // 2 X are quoted 1500000 Y at a price of 1, which pays 2000000 Y.
    assert_eq!(pool.swap(mint_x(), 2, 1, 0).unwrap().withdraw, 2_000_000);
    assert_eq!((pool.reserve_x, pool.reserve_y, pool.lp_supply), (4, 1_000_000, 10));
}

#[test]
fn well_formed_pool_stays_well_formed() {
    let funded = |p: &Pool| p.reserve_x > 0 && p.reserve_y > 0 && p.lp_supply > 0;
    let mut pool = new_pool(30);
    pool.deposit(1000, 1000, 2000).unwrap();
    assert!(funded(&pool));
    for (i, amount) in [12u64, 7, 100, 999, 5000].into_iter().enumerate() {
        pool.deposit(amount, u64::MAX, u64::MAX).unwrap();
        assert!(funded(&pool));
        pool.swap(mint_x(), amount, 1, i as u64).unwrap();
        assert!(funded(&pool));
        pool.swap(mint_y(), amount * 2, 1, i as u64).unwrap();
        assert!(funded(&pool));
        pool.withdraw(amount, 1, 1).unwrap();
        assert!(funded(&pool));
        assert!(pool.config.fee < 10000);
    }
}

#[test]
fn withdrawal_never_lowers_the_backing_of_a_token() {
    let mut pool = new_pool(30);
    pool.deposit(997, 10_007, 20_011).unwrap();
    for amount in [1u64, 3, 10, 100, 500] {
        let before = pool;
        let paid = pool.withdraw(amount, 1, 1).unwrap();
        assert_eq!(pool.reserve_x, before.reserve_x - paid.x);
        assert_eq!(pool.reserve_y, before.reserve_y - paid.y);
        assert_eq!(pool.lp_supply, before.lp_supply - amount);
        let (l0, l1) = (before.lp_supply as u128, pool.lp_supply as u128);
        assert!(pool.reserve_x as u128 * l0 >= before.reserve_x as u128 * l1);
        assert!(pool.reserve_y as u128 * l0 >= before.reserve_y as u128 * l1);
        assert!(
            pool.reserve_x as u128 * pool.reserve_y as u128 * l0 * l0
                >= before.reserve_x as u128 * before.reserve_y as u128 * l1 * l1
        );
    }
}

#[test]
fn deposit_lowers_the_backing_of_a_token_by_rounding_alone() {
    let mut pool = new_pool(30);
    pool.deposit(997, 10_007, 20_011).unwrap();
    for amount in [1u64, 3, 10, 100, 500] {
        let before = pool;
        let paid = pool.deposit(amount, u64::MAX, u64::MAX).unwrap();
        assert_eq!(pool.reserve_x, before.reserve_x + paid.x);
        assert_eq!(pool.reserve_y, before.reserve_y + paid.y);
        assert_eq!(pool.lp_supply, before.lp_supply + amount);
        let (l0, l1) = (before.lp_supply as u128, pool.lp_supply as u128);
        assert!(pool.reserve_x as u128 * l0 <= before.reserve_x as u128 * l1);
        assert!((pool.reserve_x as u128 + 1) * l0 > before.reserve_x as u128 * l1);
        assert!(pool.reserve_y as u128 * l0 <= before.reserve_y as u128 * l1);
        assert!((pool.reserve_y as u128 + 1) * l0 > before.reserve_y as u128 * l1);
    }
    // Three of each asset behind two tokens: a third token costs one of each.
    let mut pool = new_pool(30);
    pool.deposit(2, 3, 3).unwrap();
    pool.deposit(1, 3, 3).unwrap();
    assert!((pool.reserve_x as u128) * 2 < 3 * 3);
}

#[test]
fn is_authority_tells_the_authority_from_others() {
    let pool = new_pool(30);
    assert!(pool.is_authority(&admin()));
    assert!(!pool.is_authority(&mint_x()));
    assert!(!pool.is_authority(&address(0)));
}
