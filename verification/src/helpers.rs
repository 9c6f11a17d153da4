//! Fixed-point prices: an amount paid per unit received, scaled by a power of
//! ten.

use vstd::prelude::*;
use crate::errors::AmmError;

verus! {

/// The largest exponent whose power of ten fits in 128 bits.
pub const MAX_PRECISION: u8 = 38;

/// Ten to the power of `e`.
pub open spec fn pow10(e: nat) -> nat
    decreases e,
{
    if e == 0 {
        1
    } else {
        10 * pow10((e - 1) as nat)
    }
}

/// A larger exponent gives a larger power of ten.
pub proof fn lemma_pow10_increases(a: nat, b: nat)
    requires
        a <= b,
    ensures
        1 <= pow10(a) <= pow10(b),
    decreases b,
{
    if a < b {
        lemma_pow10_increases(a, (b - 1) as nat);
    } else if a > 0 {
        lemma_pow10_increases((a - 1) as nat, (b - 1) as nat);
    }
}

/// The powers of ten that fit in 128 bits are those up to `MAX_PRECISION`.
pub proof fn lemma_pow10_fits(e: nat)
    ensures
        pow10(e) <= u128::MAX <==> e <= MAX_PRECISION,
{
    assert(pow10(38) == 100000000000000000000000000000000000000) by {
        reveal_with_fuel(pow10, 39);
    }
    assert(pow10(39) == 10 * pow10(38));
    if e <= 38 {
        lemma_pow10_increases(e, 38);
    } else {
        lemma_pow10_increases(39, e);
    }
}

/// Ten to the power of `precision`, or `None` where that does not fit in 128
/// bits.
pub fn checked_pow10(precision: u8) -> (r: Option<u128>)
    ensures
        match r {
            Some(v) => v == pow10(precision as nat),
            None => pow10(precision as nat) > u128::MAX,
        },
{
    let mut acc: u128 = 1;
    let mut i: u8 = 0;
    while i < precision
        invariant
            i <= precision,
            acc == pow10(i as nat),
        decreases precision - i,
    {
        match acc.checked_mul(10) {
            Some(next) => {
                acc = next;
            },
            None => {
                proof {
                    lemma_pow10_increases((i + 1) as nat, precision as nat);
                }
                return None;
            },
        }
        i = i + 1;
    }
    Some(acc)
}

/// An amount scaled by ten to the `precision`, where that fits in 128 bits.
pub open spec fn scaled(amount: u64, precision: u8) -> Result<u128, AmmError> {
    if pow10(precision as nat) > u128::MAX {
        Err(AmmError::InvalidPrecision)
    } else if amount * pow10(precision as nat) > u128::MAX {
        Err(AmmError::Overflow)
    } else {
        Ok((amount * pow10(precision as nat)) as u128)
    }
}

/// What `calculate_limit_price` returns: `amount1` scaled by ten to the
/// `precision` and divided by `amount2`, rounded down.
pub open spec fn limit_price(amount1: u64, amount2: u64, precision: u8) -> Result<u128, AmmError> {
    match scaled(amount1, precision) {
        Err(e) => Err(e),
        Ok(s) => if amount2 == 0 {
            Err(AmmError::Overflow)
        } else {
            Ok(s / (amount2 as u128))
        },
    }
}

/// Scales `amount` by ten to the `precision`.
///
/// A precision whose power of ten does not fit in 128 bits is refused with
/// `InvalidPrecision`, a product that does not fit in 128 bits with
/// `Overflow`.
pub fn scale_amount(amount: u64, precision: u8) -> (r: Result<u128, AmmError>)
    ensures
        r == scaled(amount, precision),
{
    let scale: u128 = match checked_pow10(precision) {
        Some(s) => s,
        None => {
            return Err(AmmError::InvalidPrecision);
        },
    };
    match (amount as u128).checked_mul(scale) {
        Some(s) => Ok(s),
        None => Err(AmmError::Overflow),
    }
}

/// The price of one unit received, in units paid, as a fixed-point number with
/// `precision` decimal places: `amount1 * 10^precision / amount2`, rounded
/// down.
///
/// A precision whose power of ten does not fit in 128 bits is refused with
/// `InvalidPrecision`; a scaled amount that does not fit in 128 bits, and a
/// zero `amount2`, with `Overflow`.
pub fn calculate_limit_price(amount1: u64, amount2: u64, precision: u8) -> (r: Result<
    u128,
    AmmError,
>)
    ensures
        r == limit_price(amount1, amount2, precision),
{
    let scaled_amount: u128 = match scale_amount(amount1, precision) {
        Ok(s) => s,
        Err(e) => {
            return Err(e);
        },
    };
    match scaled_amount.checked_div(amount2 as u128) {
        Some(price) => Ok(price),
        None => Err(AmmError::Overflow),
    }
}

} // verus!
