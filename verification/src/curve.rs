//! The constant-product curve: what a swap pays out, and what a share of the
//! liquidity is worth. Pure functions of the reserves; every product of two
//! 64-bit amounts is taken in 128 bits.

use vstd::prelude::*;
use crate::errors::AmmError;
use crate::helpers::{checked_pow10, pow10};

verus! {

/// The denominator of a fee given in basis points.
pub const FEE_DENOMINATOR: u16 = 10000;

/// The two sides of a swap: what the trader pays in and what the pool pays
/// out.
#[derive(Clone, Copy, Debug, PartialEq, Eq, Structural)]
pub struct SwapQuote {
    /// What the trader pays in.
    pub deposit: u64,
    /// What the pool pays out.
    pub withdraw: u64,
}

/// An amount of each of the pool's two assets.
#[derive(Clone, Copy, Debug, PartialEq, Eq, Structural)]
pub struct Amounts {
    /// The amount of X.
    pub x: u64,
    /// The amount of Y.
    pub y: u64,
}

/// The part of `amount_in` that trades after the fee is taken, rounded down.
pub open spec fn amount_after_fee(amount_in: u64, fee_bps: u16) -> int {
    amount_in * (FEE_DENOMINATOR - fee_bps) / (FEE_DENOMINATOR as int)
}

/// The reserve that the curve leaves of the asset paid out: the product of
/// the two reserves divided by the reserve paid into as it is after the
/// trade, rounded down.
pub open spec fn reserve_after(reserve_in: u64, reserve_out: u64, net_in: int) -> int {
    reserve_in * reserve_out / (reserve_in + net_in)
}

/// What the curve pays out for `net_in`: the reserve less what the curve
/// leaves of it.
pub open spec fn curve_output(reserve_in: u64, reserve_out: u64, net_in: int) -> int {
    reserve_out - reserve_after(reserve_in, reserve_out, net_in)
}

/// What a swap of `amount_in` pays out, fee included.
pub open spec fn swap_output(reserve_in: u64, reserve_out: u64, fee_bps: u16, amount_in: u64) -> int {
    curve_output(reserve_in, reserve_out, amount_after_fee(amount_in, fee_bps))
}

/// What `swap_quote` returns.
pub open spec fn quote(
    reserve_in: u64,
    reserve_out: u64,
    lp_supply: u64,
    fee_bps: u16,
    amount_in: u64,
    min_amount_out: u64,
) -> Result<SwapQuote, AmmError> {
    if reserve_in == 0 || reserve_out == 0 || lp_supply == 0 {
        Err(AmmError::ZeroBalance)
    } else if fee_bps > FEE_DENOMINATOR {
        Err(AmmError::Underflow)
    } else if reserve_after(reserve_in, reserve_out, amount_after_fee(amount_in, fee_bps)) == 0 {
        Err(AmmError::Underflow)
    } else if swap_output(reserve_in, reserve_out, fee_bps, amount_in) < min_amount_out {
        Err(AmmError::SlippageExceeded)
    } else {
        Ok(
            SwapQuote {
                deposit: amount_in,
                withdraw: swap_output(reserve_in, reserve_out, fee_bps, amount_in) as u64,
            },
        )
    }
}

/// The amount after the fee is at most the amount, and grows with it.
pub proof fn lemma_amount_after_fee(fee_bps: u16, a1: u64, a2: u64)
    requires
        fee_bps <= FEE_DENOMINATOR,
        a1 <= a2,
    ensures
        0 <= amount_after_fee(a1, fee_bps) <= amount_after_fee(a2, fee_bps) <= a2,
{
    let keep: int = FEE_DENOMINATOR - fee_bps;
    assert(0 <= a1 * keep <= a2 * keep <= a2 * 10000) by (nonlinear_arith)
        requires
            0 <= keep <= 10000,
            0 <= a1 <= a2,
    ;
    assert(0 <= (a1 * keep) / 10000 <= (a2 * keep) / 10000 <= (a2 * 10000) / 10000);
}

/// The curve pays out no less for a larger input, and never more than the
/// reserve; it pays out less than the reserve wherever it leaves anything.
/// What it leaves is the largest whole reserve whose product with the
/// reserve paid into is not above the product before the trade.
pub proof fn lemma_curve_output(reserve_in: u64, reserve_out: u64, n1: int, n2: int)
    requires
        reserve_in > 0,
        0 <= n1 <= n2,
    ensures
        0 <= reserve_after(reserve_in, reserve_out, n2) <= reserve_after(reserve_in, reserve_out, n1)
            <= reserve_out,
        0 <= curve_output(reserve_in, reserve_out, n1) <= curve_output(reserve_in, reserve_out, n2)
            <= reserve_out,
        reserve_after(reserve_in, reserve_out, n2) > 0 ==> curve_output(reserve_in, reserve_out, n2)
            < reserve_out,
        (reserve_in + n2) * reserve_after(reserve_in, reserve_out, n2) <= reserve_in * reserve_out
            < (reserve_in + n2) * (reserve_after(reserve_in, reserve_out, n2) + 1),
{
    let x: int = reserve_in as int;
    let y: int = reserve_out as int;
    let k: int = x * y;
    let r1: int = k / (x + n1);
    let r2: int = k / (x + n2);
    assert(0 <= k <= y * (x + n1)) by (nonlinear_arith)
        requires
            k == x * y,
            x > 0,
            y >= 0,
            n1 >= 0,
    ;
    assert(0 <= r1 && r1 * (x + n1) <= k < (r1 + 1) * (x + n1)) by (nonlinear_arith)
        requires
            r1 == k / (x + n1),
            k >= 0,
            x + n1 > 0,
    ;
    assert(0 <= r2 && r2 * (x + n2) <= k < (r2 + 1) * (x + n2)) by (nonlinear_arith)
        requires
            r2 == k / (x + n2),
            k >= 0,
            x + n2 > 0,
    ;
    assert(r1 <= y) by (nonlinear_arith)
        requires
            r1 * (x + n1) <= k,
            k <= y * (x + n1),
            x + n1 > 0,
    ;
    assert(r2 <= r1) by (nonlinear_arith)
        requires
            r2 * (x + n2) <= k,
            k < (r1 + 1) * (x + n1),
            0 < x + n1 <= x + n2,
            0 <= r1,
            0 <= r2,
    ;
    assert((x + n2) * r2 == r2 * (x + n2) && (x + n2) * (r2 + 1) == (r2 + 1) * (x + n2))
        by (nonlinear_arith);
}

/// For fixed reserves and fee, a larger input never buys less: of two quotes
/// for the same pool the one for the larger input pays out at least as much.
/// The exact, unrounded output of the curve is strictly larger for a
/// strictly larger amount after the fee.
pub proof fn lemma_swap_output_increases(
    reserve_in: u64,
    reserve_out: u64,
    lp_supply: u64,
    fee_bps: u16,
    a1: u64,
    a2: u64,
    min_amount_out: u64,
)
    requires
        reserve_in > 0,
        fee_bps <= FEE_DENOMINATOR,
        a1 <= a2,
    ensures
        swap_output(reserve_in, reserve_out, fee_bps, a1) <= swap_output(
            reserve_in,
            reserve_out,
            fee_bps,
            a2,
        ),
        quote(reserve_in, reserve_out, lp_supply, fee_bps, a1, min_amount_out) matches Ok(q1) ==> (
        quote(reserve_in, reserve_out, lp_supply, fee_bps, a2, min_amount_out) matches Ok(q2)
            ==> q1.withdraw <= q2.withdraw),
        reserve_out > 0 && amount_after_fee(a1, fee_bps) < amount_after_fee(a2, fee_bps) ==> (
        reserve_out * amount_after_fee(a1, fee_bps)) * (reserve_in + amount_after_fee(a2, fee_bps))
            < (reserve_out * amount_after_fee(a2, fee_bps)) * (reserve_in + amount_after_fee(
            a1,
            fee_bps,
        )),
{
    lemma_amount_after_fee(fee_bps, a1, a2);
    let n1: int = amount_after_fee(a1, fee_bps);
    let n2: int = amount_after_fee(a2, fee_bps);
    lemma_curve_output(reserve_in, reserve_out, n1, n2);
    lemma_curve_output(reserve_in, reserve_out, n1, n1);
    let x: int = reserve_in as int;
    let y: int = reserve_out as int;
    if y > 0 && n1 < n2 {
        assert((y * n1) * (x + n2) < (y * n2) * (x + n1)) by (nonlinear_arith)
            requires
                x > 0,
                y > 0,
                0 <= n1 < n2,
        ;
    }
}

/// A quote never pays out a whole reserve: the pool is not drained.
pub proof fn lemma_swap_output_below_reserve(
    reserve_in: u64,
    reserve_out: u64,
    lp_supply: u64,
    fee_bps: u16,
    amount_in: u64,
    min_amount_out: u64,
)
    ensures
        quote(reserve_in, reserve_out, lp_supply, fee_bps, amount_in, min_amount_out) matches Ok(q)
            ==> q.withdraw < reserve_out,
{
    if quote(reserve_in, reserve_out, lp_supply, fee_bps, amount_in, min_amount_out) is Ok {
        lemma_amount_after_fee(fee_bps, amount_in, amount_in);
        let n: int = amount_after_fee(amount_in, fee_bps);
        lemma_curve_output(reserve_in, reserve_out, n, n);
    }
}

/// Quotes a swap of `amount_in` against the reserves.
///
/// The fee is taken from the input first, rounded down. The curve leaves of
/// the asset paid out the product of the two reserves divided by the
/// reserve paid into plus the input after the fee, rounded down, and pays
/// out the rest. `deposit` is `amount_in` unchanged.
///
/// Refused with `ZeroBalance` where a reserve or the supply is zero, with
/// `Underflow` where the fee is above 10000 basis points or the curve would
/// leave nothing of the reserve, with `SlippageExceeded` where the output is
/// below `min_amount_out`, in that order. No intermediate value can leave
/// 128 bits.
pub fn swap_quote(
    reserve_in: u64,
    reserve_out: u64,
    lp_supply: u64,
    fee_bps: u16,
    amount_in: u64,
    min_amount_out: u64,
) -> (r: Result<SwapQuote, AmmError>)
    ensures
        r == quote(reserve_in, reserve_out, lp_supply, fee_bps, amount_in, min_amount_out),
        r matches Ok(q) ==> q.deposit == amount_in && min_amount_out <= q.withdraw < reserve_out,
{
    if reserve_in == 0 || reserve_out == 0 || lp_supply == 0 {
        return Err(AmmError::ZeroBalance);
    }
    if fee_bps > FEE_DENOMINATOR {
        return Err(AmmError::Underflow);
    }
    let keep: u128 = (FEE_DENOMINATOR - fee_bps) as u128;
    proof {
        lemma_amount_after_fee(fee_bps, amount_in, amount_in);
        assert(amount_in * keep <= amount_in * 10000) by (nonlinear_arith)
            requires
                0 <= keep <= 10000,
        ;
    }
    let net: u128 = (amount_in as u128) * keep / (FEE_DENOMINATOR as u128);
    assert(net == amount_after_fee(amount_in, fee_bps));
    proof {
        lemma_curve_output(reserve_in, reserve_out, net as int, net as int);
        assert(reserve_in * reserve_out <= 0xffff_ffff_ffff_ffff * 0xffff_ffff_ffff_ffff)
            by (nonlinear_arith)
            requires
                0 <= reserve_in <= 0xffff_ffff_ffff_ffff,
                0 <= reserve_out <= 0xffff_ffff_ffff_ffff,
        ;
    }
    let product: u128 = (reserve_in as u128) * (reserve_out as u128);
    let left: u128 = product / (reserve_in as u128 + net);
    assert(left == reserve_after(reserve_in, reserve_out, net as int));
    if left == 0 {
        return Err(AmmError::Underflow);
    }
    let withdraw: u128 = reserve_out as u128 - left;
    if withdraw < min_amount_out as u128 {
        return Err(AmmError::SlippageExceeded);
    }
    Ok(SwapQuote { deposit: amount_in, withdraw: withdraw as u64 })
}

/// The worth of `lp_amount` liquidity tokens in one reserve, rounded down.
pub open spec fn lp_share(reserve: u64, lp_supply: u64, lp_amount: u64) -> int {
    lp_amount * reserve / (lp_supply as int)
}

/// What `deposit_amounts_from_lp` and `withdraw_amounts_from_lp` return.
pub open spec fn amounts_from_lp(
    reserve_x: u64,
    reserve_y: u64,
    lp_supply: u64,
    lp_amount: u64,
    precision: u8,
) -> Result<Amounts, AmmError> {
    if pow10(precision as nat) > u128::MAX {
        Err(AmmError::InvalidPrecision)
    } else if lp_supply == 0 {
        Err(AmmError::ZeroBalance)
    } else if lp_share(reserve_x, lp_supply, lp_amount) > u64::MAX || lp_share(
        reserve_y,
        lp_supply,
        lp_amount,
    ) > u64::MAX {
        Err(AmmError::Overflow)
    } else {
        Ok(
            Amounts {
                x: lp_share(reserve_x, lp_supply, lp_amount) as u64,
                y: lp_share(reserve_y, lp_supply, lp_amount) as u64,
            },
        )
    }
}

/// A share is the exact proportion rounded down, and never more than the
/// reserve while `lp_amount` is within the supply.
pub proof fn lemma_lp_share(reserve: u64, lp_supply: u64, lp_amount: u64)
    requires
        lp_supply > 0,
    ensures
        0 <= lp_share(reserve, lp_supply, lp_amount),
        lp_share(reserve, lp_supply, lp_amount) * lp_supply <= lp_amount * reserve < (lp_share(
            reserve,
            lp_supply,
            lp_amount,
        ) + 1) * lp_supply,
        lp_amount <= lp_supply ==> lp_share(reserve, lp_supply, lp_amount) <= reserve,
        lp_amount == lp_supply ==> lp_share(reserve, lp_supply, lp_amount) == reserve,
        lp_amount < lp_supply && reserve > 0 ==> lp_share(reserve, lp_supply, lp_amount) < reserve,
        lp_amount > lp_supply && reserve > 0 ==> lp_share(reserve, lp_supply, lp_amount) >= reserve,
{
    let r: int = reserve as int;
    let l: int = lp_supply as int;
    let a: int = lp_amount as int;
    let s: int = (a * r) / l;
    assert(0 <= s && s * l <= a * r < (s + 1) * l) by (nonlinear_arith)
        requires
            s == (a * r) / l,
            l > 0,
            a >= 0,
            r >= 0,
    ;
    assert(a <= l ==> s <= r) by (nonlinear_arith)
        requires
            s * l <= a * r,
            l > 0,
            a >= 0,
            r >= 0,
            s >= 0,
    ;
    assert(a < l && r > 0 ==> s < r) by (nonlinear_arith)
        requires
            s * l <= a * r,
            l > 0,
            a >= 0,
            r >= 0,
            s >= 0,
    ;
    assert(a >= l ==> s >= r) by (nonlinear_arith)
        requires
            a * r < (s + 1) * l,
            l > 0,
            a >= 0,
            r >= 0,
            s >= 0,
    ;
}

fn share_of(reserve: u64, lp_supply: u64, lp_amount: u64) -> (r: Option<u64>)
    requires
        lp_supply > 0,
    ensures
        match r {
            Some(s) => s == lp_share(reserve, lp_supply, lp_amount),
            None => lp_share(reserve, lp_supply, lp_amount) > u64::MAX,
        },
{
    proof {
        assert(lp_amount * reserve <= 0xffff_ffff_ffff_ffff * 0xffff_ffff_ffff_ffff)
            by (nonlinear_arith)
            requires
                0 <= lp_amount <= 0xffff_ffff_ffff_ffff,
                0 <= reserve <= 0xffff_ffff_ffff_ffff,
        ;
    }
    let share: u128 = (lp_amount as u128) * (reserve as u128) / (lp_supply as u128);
    if share > u64::MAX as u128 {
        None
    } else {
        Some(share as u64)
    }
}

fn proportional_amounts(
    reserve_x: u64,
    reserve_y: u64,
    lp_supply: u64,
    lp_amount: u64,
    precision: u8,
) -> (r: Result<Amounts, AmmError>)
    ensures
        r == amounts_from_lp(reserve_x, reserve_y, lp_supply, lp_amount, precision),
{
    if checked_pow10(precision).is_none() {
        return Err(AmmError::InvalidPrecision);
    }
    if lp_supply == 0 {
        return Err(AmmError::ZeroBalance);
    }
    match (share_of(reserve_x, lp_supply, lp_amount), share_of(reserve_y, lp_supply, lp_amount)) {
        (Some(x), Some(y)) => Ok(Amounts { x, y }),
        _ => Err(AmmError::Overflow),
    }
}

/// The amounts of X and Y that buy `lp_amount` liquidity tokens from a pool
/// that already has liquidity: `lp_amount * reserve / lp_supply` of each,
/// rounded down.
///
/// Refused with `InvalidPrecision` where ten to the `precision` does not fit
/// in 128 bits, with `ZeroBalance` where the supply is zero, with `Overflow`
/// where an amount does not fit in 64 bits, in that order.
pub fn deposit_amounts_from_lp(
    reserve_x: u64,
    reserve_y: u64,
    lp_supply: u64,
    lp_amount: u64,
    precision: u8,
) -> (r: Result<Amounts, AmmError>)
    ensures
        r == amounts_from_lp(reserve_x, reserve_y, lp_supply, lp_amount, precision),
{
    proportional_amounts(reserve_x, reserve_y, lp_supply, lp_amount, precision)
}

/// The amounts of X and Y that `lp_amount` liquidity tokens redeem:
/// `lp_amount * reserve / lp_supply` of each, rounded down, so that the pool
/// never pays out more than the exact share.
///
/// Refused as `deposit_amounts_from_lp` is.
pub fn withdraw_amounts_from_lp(
    reserve_x: u64,
    reserve_y: u64,
    lp_supply: u64,
    lp_amount: u64,
    precision: u8,
) -> (r: Result<Amounts, AmmError>)
    ensures
        r == amounts_from_lp(reserve_x, reserve_y, lp_supply, lp_amount, precision),
{
    proportional_amounts(reserve_x, reserve_y, lp_supply, lp_amount, precision)
}

} // verus!
