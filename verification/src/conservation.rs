//! What the pool's operations conserve.

use vstd::prelude::*;
use crate::curve::{
    amount_after_fee,
    lemma_amount_after_fee,
    lemma_curve_output,
    lemma_lp_share,
    lp_share,
    quote,
    reserve_after,
};
use crate::pool::Pool;
use crate::states::address::Address;

verus! {

/// A withdrawal never lowers what backs a liquidity token: of each asset, and
/// so of the product of the two reserves, the pool holds at least as much per
/// token of the supply afterwards as before. Rounding leaves less than one
/// unit of each asset over the exact proportion.
pub proof fn lemma_withdraw_conserves(pool: Pool, amount: u64, min_x: u64, min_y: u64)
    requires
        pool.withdrawn(amount, min_x, min_y) is Ok,
    ensures
        ({
            let (next, paid) = pool.withdrawn(amount, min_x, min_y).unwrap();
            &&& next.config == pool.config
            &&& next.pooldata == pool.pooldata
            &&& next.lp_supply == pool.lp_supply - amount
            &&& next.reserve_x == pool.reserve_x - paid.x
            &&& next.reserve_y == pool.reserve_y - paid.y
            &&& pool.reserve_x * next.lp_supply <= next.reserve_x * pool.lp_supply
                < pool.reserve_x * next.lp_supply + pool.lp_supply
            &&& pool.reserve_y * next.lp_supply <= next.reserve_y * pool.lp_supply
                < pool.reserve_y * next.lp_supply + pool.lp_supply
            &&& (next.reserve_x * next.reserve_y) * (pool.lp_supply * pool.lp_supply) >= (
            pool.reserve_x * pool.reserve_y) * (next.lp_supply * next.lp_supply)
        }),
{
    let (next, paid) = pool.withdrawn(amount, min_x, min_y).unwrap();
    lemma_lp_share(pool.reserve_x, pool.lp_supply, amount);
    lemma_lp_share(pool.reserve_y, pool.lp_supply, amount);
    let l: int = pool.lp_supply as int;
    let a: int = amount as int;
    let (rx, ry): (int, int) = (pool.reserve_x as int, pool.reserve_y as int);
    let (px, py): (int, int) = (paid.x as int, paid.y as int);
    assert(px == lp_share(pool.reserve_x, pool.lp_supply, amount));
    assert(py == lp_share(pool.reserve_y, pool.lp_supply, amount));
    lemma_backing_after_withdraw(rx, l, a, px);
    lemma_backing_after_withdraw(ry, l, a, py);
    lemma_product_of_backings(rx - px, ry - py, l, rx, ry, l - a);
}

/// A deposit into a pool that has liquidity lowers what backs a liquidity
/// token by rounding alone: of each asset the pool holds, per token of the
/// supply, at most as much afterwards as before, and with one more unit of
/// that asset it would hold more.
pub proof fn lemma_deposit_conserves(pool: Pool, amount: u64, max_x: u64, max_y: u64)
    requires
        pool.deposited(amount, max_x, max_y) is Ok,
        !pool.is_empty(),
    ensures
        ({
            let (next, paid) = pool.deposited(amount, max_x, max_y).unwrap();
            &&& next.config == pool.config
            &&& next.pooldata == pool.pooldata
            &&& next.lp_supply == pool.lp_supply + amount
            &&& next.reserve_x == pool.reserve_x + paid.x
            &&& next.reserve_y == pool.reserve_y + paid.y
            &&& next.reserve_x * pool.lp_supply <= pool.reserve_x * next.lp_supply < (next.reserve_x
                + 1) * pool.lp_supply
            &&& next.reserve_y * pool.lp_supply <= pool.reserve_y * next.lp_supply < (next.reserve_y
                + 1) * pool.lp_supply
            &&& ((next.reserve_x + 1) * (next.reserve_y + 1)) * (pool.lp_supply * pool.lp_supply)
                > (pool.reserve_x * pool.reserve_y) * (next.lp_supply * next.lp_supply)
        }),
{
    let (next, paid) = pool.deposited(amount, max_x, max_y).unwrap();
    lemma_lp_share(pool.reserve_x, pool.lp_supply, amount);
    lemma_lp_share(pool.reserve_y, pool.lp_supply, amount);
    let l: int = pool.lp_supply as int;
    let a: int = amount as int;
    let (rx, ry): (int, int) = (pool.reserve_x as int, pool.reserve_y as int);
    let (px, py): (int, int) = (paid.x as int, paid.y as int);
    assert(px == lp_share(pool.reserve_x, pool.lp_supply, amount));
    assert(py == lp_share(pool.reserve_y, pool.lp_supply, amount));
    lemma_backing_after_deposit(rx, l, a, px);
    lemma_backing_after_deposit(ry, l, a, py);
    lemma_product_of_larger_backings(rx + px + 1, ry + py + 1, l, rx, ry, l + a);
}

proof fn lemma_backing_after_withdraw(r: int, l: int, a: int, p: int)
    by (nonlinear_arith)
    requires
        p * l <= a * r < (p + 1) * l,
    ensures
        r * (l - a) <= (r - p) * l < r * (l - a) + l,
{
}

proof fn lemma_backing_after_deposit(r: int, l: int, a: int, p: int)
    by (nonlinear_arith)
    requires
        p * l <= a * r < (p + 1) * l,
    ensures
        (r + p) * l <= r * (l + a) < (r + p + 1) * l,
{
}

proof fn lemma_product_of_backings(hx: int, hy: int, hl: int, lx: int, ly: int, ll: int)
    by (nonlinear_arith)
    requires
        0 <= lx * ll <= hx * hl,
        0 <= ly * ll <= hy * hl,
    ensures
        (hx * hy) * (hl * hl) >= (lx * ly) * (ll * ll),
{
    assert((lx * ll) * (ly * ll) <= (hx * hl) * (hy * hl));
    assert((hx * hl) * (hy * hl) == (hx * hy) * (hl * hl));
    assert((lx * ll) * (ly * ll) == (lx * ly) * (ll * ll));
}

proof fn lemma_product_of_larger_backings(hx: int, hy: int, hl: int, lx: int, ly: int, ll: int)
    by (nonlinear_arith)
    requires
        0 <= lx * ll < hx * hl,
        0 <= ly * ll < hy * hl,
    ensures
        (hx * hy) * (hl * hl) > (lx * ly) * (ll * ll),
{
    assert((lx * ll) * (ly * ll) < (hx * hl) * (hy * hl));
    assert((hx * hl) * (hy * hl) == (hx * hy) * (hl * hl));
    assert((lx * ll) * (ly * ll) == (lx * ly) * (ll * ll));
}

/// After a swap that pays out no more than the curve quoted, the product of
/// the two reserves is below what it was by rounding at most: with one more
/// unit left of the asset paid out, it would be above what it was.
pub proof fn lemma_swap_product(
    pool: Pool,
    mint_deposit: Address,
    amount_in: u64,
    amount_out_min: u64,
    current_slot: u64,
)
    requires
        pool.swapped(mint_deposit, amount_in, amount_out_min, current_slot) is Ok,
        ({
            let out = pool.swapped(mint_deposit, amount_in, amount_out_min, current_slot).unwrap().1;
            let is_buying_x = pool.direction(mint_deposit).unwrap();
            out.withdraw <= quote(
                pool.reserve_in(is_buying_x),
                pool.reserve_out(is_buying_x),
                pool.lp_supply,
                pool.config.fee,
                amount_in,
                amount_out_min,
            ).unwrap().withdraw
        }),
    ensures
        ({
            let next = pool.swapped(mint_deposit, amount_in, amount_out_min, current_slot).unwrap().0;
            let is_buying_x = pool.direction(mint_deposit).unwrap();
            next.reserve_in(is_buying_x) * (next.reserve_out(is_buying_x) + 1) > pool.reserve_x
                * pool.reserve_y
        }),
{
    let (next, out) = pool.swapped(mint_deposit, amount_in, amount_out_min, current_slot).unwrap();
    let is_buying_x = pool.direction(mint_deposit).unwrap();
    let reserve_in = pool.reserve_in(is_buying_x);
    let reserve_out = pool.reserve_out(is_buying_x);
    let net = amount_after_fee(amount_in, pool.config.fee);
    lemma_amount_after_fee(pool.config.fee, amount_in, amount_in);
    lemma_curve_output(reserve_in, reserve_out, net, net);
    let left = reserve_after(reserve_in, reserve_out, net);
    let x: int = reserve_in as int;
    let y: int = reserve_out as int;
    let a: int = amount_in as int;
    let w: int = out.withdraw as int;
    assert(w <= y - left);
    assert((x + a) * (y - w + 1) > x * y) by (nonlinear_arith)
        requires
            x * y < (x + net) * (left + 1),
            0 <= net <= a,
            0 <= left <= y - w,
            x > 0,
    ;
    assert(next.reserve_in(is_buying_x) == x + a);
    assert(next.reserve_out(is_buying_x) == y - w);
    assert(pool.reserve_x * pool.reserve_y == x * y) by (nonlinear_arith)
        requires
            (pool.reserve_x == x && pool.reserve_y == y) || (pool.reserve_y == x && pool.reserve_x
                == y),
    ;
}

/// What a swap leaves alone and what it promises: the configuration and the
/// supply are unchanged, the caller pays exactly `amount_in` and receives at
/// least `amount_out_min`, which is not zero, and the window afterwards is
/// that of `current_slot` with both ceilings set. The swap pays out less
/// than the reserve, so that a well-formed pool stays well-formed.
pub proof fn lemma_swap_effects(
    pool: Pool,
    mint_deposit: Address,
    amount_in: u64,
    amount_out_min: u64,
    current_slot: u64,
)
    requires
        pool.swapped(mint_deposit, amount_in, amount_out_min, current_slot) is Ok,
    ensures
        ({
            let (next, out) = pool.swapped(
                mint_deposit,
                amount_in,
                amount_out_min,
                current_slot,
            ).unwrap();
            let is_buying_x = pool.direction(mint_deposit).unwrap();
            &&& next.config == pool.config
            &&& next.lp_supply == pool.lp_supply
            &&& out.mint_deposit == mint_deposit
            &&& out.deposit == amount_in
            &&& out.withdraw >= amount_out_min > 0
            &&& next.reserve_in(is_buying_x) == pool.reserve_in(is_buying_x) + amount_in
            &&& next.reserve_out(is_buying_x) == pool.reserve_out(is_buying_x) - out.withdraw
            &&& next.pooldata.last_slot == current_slot
            &&& next.pooldata.precision == pool.pooldata.precision
            &&& next.pooldata.buying_x_high is Some
            &&& next.pooldata.buying_y_high is Some
            &&& out.withdraw < pool.reserve_out(is_buying_x)
            &&& pool.wf() ==> next.wf()
        }),
{
}

} // verus!
