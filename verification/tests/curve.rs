use fairswap::curve::{
    deposit_amounts_from_lp, swap_quote, withdraw_amounts_from_lp, Amounts, SwapQuote,
};
use fairswap::errors::AmmError;

#[test]
fn quote_takes_the_fee_then_follows_the_curve() {
    // 100 in, 99 after the fee of 0.3%; the curve leaves 2000000 / 1099 =
    // 1819.8.. rounded down, and pays out 2000 - 1819.
    assert_eq!(
        swap_quote(1000, 2000, 1000, 30, 100, 1),
        Ok(SwapQuote { deposit: 100, withdraw: 181 })
    );
    // Without a fee: 2000 - 2000000 / 1100 = 2000 - 1818.
    assert_eq!(
        swap_quote(1000, 2000, 1000, 0, 100, 0),
        Ok(SwapQuote { deposit: 100, withdraw: 182 })
    );
    // 398 after the fee: 1100 - 2000900 / 2217 = 1100 - 902.
    assert_eq!(
        swap_quote(1819, 1100, 1000, 30, 400, 1),
        Ok(SwapQuote { deposit: 400, withdraw: 198 })
    );
    // An exact division is not rounded: 2000 - 2000000 / 2000.
    assert_eq!(
        swap_quote(1000, 2000, 1000, 0, 1000, 1),
        Ok(SwapQuote { deposit: 1000, withdraw: 1000 })
    );
}

#[test]
fn quote_leaves_the_largest_reserve_within_the_product() {
    let q = swap_quote(1000, 2000, 1000, 30, 100, 1).unwrap();
    let net: u128 = 99;
    let before: u128 = 1000 * 2000;
    let left: u128 = 2000 - q.withdraw as u128;
    assert_eq!(left, 1819);
    assert!((1000 + net) * left <= before);
    // One unit more left would take the product above what it was.
    assert!((1000 + net) * (left + 1) > before);
}

#[test]
fn quote_deposit_is_the_amount_handed_in() {
    for amount in [1u64, 2, 99, 100, 5000, 1_000_000] {
        let q = swap_quote(1000, 2000, 1000, 30, amount, 0).unwrap();
        assert_eq!(q.deposit, amount);
    }
}

#[test]
fn quote_refuses_zero_reserves_and_supply() {
    assert_eq!(swap_quote(0, 2000, 1000, 30, 100, 1), Err(AmmError::ZeroBalance));
    assert_eq!(swap_quote(1000, 0, 1000, 30, 100, 1), Err(AmmError::ZeroBalance));
    assert_eq!(swap_quote(1000, 2000, 0, 30, 100, 1), Err(AmmError::ZeroBalance));
}

#[test]
fn quote_refuses_a_fee_above_the_denominator() {
    assert_eq!(swap_quote(1000, 2000, 1000, 10001, 100, 0), Err(AmmError::Underflow));
    assert_eq!(swap_quote(1000, 2000, 1000, u16::MAX, 100, 0), Err(AmmError::Underflow));
    // An empty reserve is refused first.
    assert_eq!(swap_quote(0, 2000, 1000, 10001, 100, 0), Err(AmmError::ZeroBalance));
}

#[test]
fn quote_with_the_whole_input_taken_as_fee_pays_nothing() {
    assert_eq!(
        swap_quote(1000, 2000, 1000, 10000, 100, 0),
        Ok(SwapQuote { deposit: 100, withdraw: 0 })
    );
    assert_eq!(swap_quote(1000, 2000, 1000, 10000, 100, 1), Err(AmmError::SlippageExceeded));
}

#[test]
fn quote_refuses_less_than_the_minimum() {
    assert_eq!(swap_quote(1000, 2000, 1000, 30, 100, 182), Err(AmmError::SlippageExceeded));
    assert_eq!(
        swap_quote(1000, 2000, 1000, 30, 100, 181),
        Ok(SwapQuote { deposit: 100, withdraw: 181 })
    );
}

#[test]
fn quote_never_falls_as_the_input_grows() {
    let mut last: u64 = 0;
    for amount in 0u64..3000 {
        let q = swap_quote(1000, 2000, 1000, 30, amount, 0).unwrap();
        assert!(q.withdraw >= last);
        assert!(q.withdraw < 2000);
        last = q.withdraw;
    }
}

#[test]
fn quote_of_neighbouring_inputs_may_agree() {
    // The fee rounds 1000 and 1001 down to the same 997.
    assert_eq!(swap_quote(1000, 2000, 1000, 30, 1000, 0).unwrap().withdraw, 999);
    assert_eq!(swap_quote(1000, 2000, 1000, 30, 1001, 0).unwrap().withdraw, 999);
    // 99 and 100 after the fee leave 1000 - 952 both times.
    assert_eq!(swap_quote(2000, 1000, 1000, 30, 100, 0).unwrap().withdraw, 48);
    assert_eq!(swap_quote(2000, 1000, 1000, 30, 101, 0).unwrap().withdraw, 48);
    assert_eq!(swap_quote(2000, 1000, 1000, 30, 2, 0).unwrap().withdraw, 1);
    assert_eq!(swap_quote(2000, 1000, 1000, 30, 3, 0).unwrap().withdraw, 1);
}

#[test]
fn quote_of_nothing_pays_nothing() {
    assert_eq!(
        swap_quote(1000, 2000, 1000, 30, 0, 0),
        Ok(SwapQuote { deposit: 0, withdraw: 0 })
    );
    // One unit is all fee.
    assert_eq!(
        swap_quote(1000, 2000, 1000, 30, 1, 0),
        Ok(SwapQuote { deposit: 1, withdraw: 0 })
    );
}

#[test]
fn quote_never_drains_the_reserve() {
    // 1 * 1 / 2 leaves nothing of the reserve.
    assert_eq!(swap_quote(1, 1, 1, 0, 1, 0), Err(AmmError::Underflow));
    assert_eq!(swap_quote(1, 1, 1, 0, u64::MAX, 0), Err(AmmError::Underflow));
    assert_eq!(swap_quote(1, 1000, 1, 0, u64::MAX, 0), Err(AmmError::Underflow));
    // 2 * 3 / 6 leaves 1, 2 * 3 / 7 nothing.
    assert_eq!(swap_quote(2, 3, 1, 0, 4, 0).unwrap().withdraw, 2);
    assert_eq!(swap_quote(2, 3, 1, 0, 5, 0), Err(AmmError::Underflow));
    // That is looked at before the minimum.
    assert_eq!(swap_quote(2, 3, 1, 0, 5, 9), Err(AmmError::Underflow));
    let q = swap_quote(u64::MAX, u64::MAX, 1, 0, u64::MAX, 0).unwrap();
    assert_eq!(q.withdraw, 9_223_372_036_854_775_808);
}

#[test]
fn deposit_amounts_are_the_share_rounded_down() {
    assert_eq!(
        deposit_amounts_from_lp(1000, 2000, 1000, 500, 6),
        Ok(Amounts { x: 500, y: 1000 })
    );
    assert_eq!(deposit_amounts_from_lp(3, 3, 2, 1, 6), Ok(Amounts { x: 1, y: 1 }));
    assert_eq!(deposit_amounts_from_lp(10, 7, 3, 2, 6), Ok(Amounts { x: 6, y: 4 }));
    assert_eq!(deposit_amounts_from_lp(0, 7, 3, 2, 6), Ok(Amounts { x: 0, y: 4 }));
}

#[test]
fn withdraw_amounts_are_the_share_rounded_down() {
    assert_eq!(
        withdraw_amounts_from_lp(1000, 2000, 1000, 500, 6),
        Ok(Amounts { x: 500, y: 1000 })
    );
    assert_eq!(withdraw_amounts_from_lp(10, 7, 3, 2, 6), Ok(Amounts { x: 6, y: 4 }));
    assert_eq!(withdraw_amounts_from_lp(10, 7, 3, 3, 6), Ok(Amounts { x: 10, y: 7 }));
    assert_eq!(
        withdraw_amounts_from_lp(u64::MAX, u64::MAX, u64::MAX, u64::MAX, 6),
        Ok(Amounts { x: u64::MAX, y: u64::MAX })
    );
}

#[test]
fn amounts_from_lp_refuse_an_empty_supply() {
    assert_eq!(deposit_amounts_from_lp(1000, 2000, 0, 500, 6), Err(AmmError::ZeroBalance));
    assert_eq!(withdraw_amounts_from_lp(1000, 2000, 0, 500, 6), Err(AmmError::ZeroBalance));
}

#[test]
fn amounts_from_lp_refuse_an_invalid_precision() {
    assert_eq!(deposit_amounts_from_lp(1000, 2000, 1000, 500, 39), Err(AmmError::InvalidPrecision));
    assert_eq!(
        withdraw_amounts_from_lp(1000, 2000, 1000, 500, 39),
        Err(AmmError::InvalidPrecision)
    );
    // The precision is looked at before the supply.
    assert_eq!(deposit_amounts_from_lp(1000, 2000, 0, 500, 39), Err(AmmError::InvalidPrecision));
    assert_eq!(
        deposit_amounts_from_lp(1000, 2000, 1000, 500, 38),
        Ok(Amounts { x: 500, y: 1000 })
    );
}

#[test]
fn amounts_from_lp_refuse_a_share_beyond_64_bits() {
    assert_eq!(deposit_amounts_from_lp(u64::MAX, 1, 1, 2, 6), Err(AmmError::Overflow));
    assert_eq!(deposit_amounts_from_lp(1, u64::MAX, 1, 2, 6), Err(AmmError::Overflow));
    assert_eq!(withdraw_amounts_from_lp(u64::MAX, 1, 2, 3, 6), Err(AmmError::Overflow));
}
