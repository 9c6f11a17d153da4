//! The pool: its reserves and supply, and the operations that change them.
//!
//! An operation first decides, from the pool as it is, whether it can go
//! ahead and what moves. Only then does it change the pool. A refused
//! operation changes nothing.
//!
//! The pool moves no token itself. A host that keeps the tokens elsewhere
//! applies an operation to a copy of the pool, has the ledger carry out
//! every movement that `ledger` lists for it, and keeps the copy only once
//! all of them have succeeded.

use vstd::prelude::*;
use crate::curve::{
    amounts_from_lp,
    deposit_amounts_from_lp,
    lemma_lp_share,
    quote,
    swap_quote,
    withdraw_amounts_from_lp,
    Amounts,
    SwapQuote,
    FEE_DENOMINATOR,
};
use crate::errors::AmmError;
use crate::states::address::Address;
use crate::states::config::Config;
use crate::states::pooldata::PoolData;

verus! {

/// The number of decimal places of the prices of a new pool.
pub const PRICE_PRECISION: u8 = 6;

/// An active pool of two assets.
#[derive(Clone, Copy, Debug, PartialEq, Eq)]
pub struct Pool {
    /// Whose pool it is, what it trades and on what terms.
    pub config: Config,
    /// The price window of the last trade.
    pub pooldata: PoolData,
    /// The amount of X that the pool holds.
    pub reserve_x: u64,
    /// The amount of Y that the pool holds.
    pub reserve_y: u64,
    /// The number of liquidity tokens in circulation.
    pub lp_supply: u64,
}

/// What a swap moves: `deposit` of `mint_deposit` from the caller to the
/// pool, then `withdraw` of `mint_withdraw` from the pool to the caller.
#[derive(Clone, Copy, Debug, PartialEq, Eq)]
pub struct SwapOutcome {
    /// The asset paid in.
    pub mint_deposit: Address,
    /// The amount paid in.
    pub deposit: u64,
    /// The asset paid out.
    pub mint_withdraw: Address,
    /// The amount paid out.
    pub withdraw: u64,
}

impl Pool {
    /// No liquidity has been provided yet, or all of it has been redeemed.
    pub open spec fn is_empty(self) -> bool {
        self.reserve_x == 0 && self.reserve_y == 0 && self.lp_supply == 0
    }

    /// Both reserves and the supply are positive.
    pub open spec fn is_funded(self) -> bool {
        self.reserve_x > 0 && self.reserve_y > 0 && self.lp_supply > 0
    }

    /// The fee is below 10000 basis points, the reserves and the supply are
    /// all zero or all positive, and the price window is well-formed.
    pub open spec fn wf(self) -> bool {
        &&& self.config.fee < FEE_DENOMINATOR
        &&& self.is_empty() || self.is_funded()
        &&& self.pooldata.wf()
    }

    /// The reserve of the asset that a trade pays in.
    pub open spec fn reserve_in(self, is_buying_x: bool) -> u64 {
        if is_buying_x {
            self.reserve_y
        } else {
            self.reserve_x
        }
    }

    /// The reserve of the asset that a trade pays out.
    pub open spec fn reserve_out(self, is_buying_x: bool) -> u64 {
        if is_buying_x {
            self.reserve_x
        } else {
            self.reserve_y
        }
    }

    /// What `save_config` returns.
    pub open spec fn created(admin: Address, mint_x: Address, mint_y: Address, seed: u64, fee: u16) -> Result<
        Pool,
        AmmError,
    > {
        if fee >= FEE_DENOMINATOR {
            Err(AmmError::InvalidFeeSet)
        } else {
            Ok(
                Pool {
                    config: Config { seed, authority: admin, fee, mint_x, mint_y, locked: false },
                    pooldata: PoolData {
                        last_slot: 0,
                        buying_x_high: None,
                        buying_y_high: None,
                        precision: PRICE_PRECISION,
                    },
                    reserve_x: 0,
                    reserve_y: 0,
                    lp_supply: 0,
                },
            )
        }
    }

    /// The record of a new pool: empty, unlocked, owned by `admin`, with no
    /// price window yet and prices of `PRICE_PRECISION` decimal places.
    ///
    /// Refused with `InvalidFeeSet` where the fee is not below 10000 basis
    /// points.
    pub fn save_config(admin: Address, mint_x: Address, mint_y: Address, seed: u64, fee: u16) -> (r:
        Result<Pool, AmmError>)
        ensures
            r == Pool::created(admin, mint_x, mint_y, seed, fee),
            r matches Ok(pool) ==> pool.wf() && pool.is_empty(),
    {
        if fee >= FEE_DENOMINATOR {
            return Err(AmmError::InvalidFeeSet);
        }
        Ok(
            Pool {
                config: Config { seed, authority: admin, fee, mint_x, mint_y, locked: false },
                pooldata: PoolData {
                    last_slot: 0,
                    buying_x_high: None,
                    buying_y_high: None,
                    precision: PRICE_PRECISION,
                },
                reserve_x: 0,
                reserve_y: 0,
                lp_supply: 0,
            },
        )
    }

    /// Whether `caller` is the pool's authority.
    pub fn is_authority(&self, caller: &Address) -> (r: bool)
        ensures
            r == (*caller == self.config.authority),
    {
        self.config.authority.same(caller)
    }

    /// The pool with its lock set to `locked`, if `admin` may do that.
    pub open spec fn with_lock(self, admin: Address, locked: bool) -> Result<Pool, AmmError> {
        if admin != self.config.authority {
            Err(AmmError::Unauthorized)
        } else {
            Ok(Pool { config: Config { locked, ..self.config }, ..self })
        }
    }

    fn set_locked(&mut self, admin: &Address, locked: bool) -> (r: Result<(), AmmError>)
        ensures
            match r {
                Ok(()) => old(self).with_lock(*admin, locked) == Ok::<Pool, AmmError>(*final(self)),
                Err(e) => old(self).with_lock(*admin, locked) == Err::<Pool, AmmError>(e)
                    && *final(self) == *old(self),
            },
    {
        if !self.is_authority(admin) {
            return Err(AmmError::Unauthorized);
        }
        self.config.locked = locked;
        Ok(())
    }

    /// Locks the pool: deposits, withdrawals and swaps are refused until it
    /// is unlocked. Nothing else changes.
    ///
    /// Refused with `Unauthorized` where `admin` is not the pool's authority.
    pub fn lock(&mut self, admin: &Address) -> (r: Result<(), AmmError>)
        ensures
            match r {
                Ok(()) => old(self).with_lock(*admin, true) == Ok::<Pool, AmmError>(*final(self)),
                Err(e) => old(self).with_lock(*admin, true) == Err::<Pool, AmmError>(e) && *final(self) == *old(self),
            },
            old(self).wf() ==> final(self).wf(),
    {
        self.set_locked(admin, true)
    }

    /// Unlocks the pool. Nothing else changes.
    ///
    /// Refused with `Unauthorized` where `admin` is not the pool's authority.
    pub fn unlock(&mut self, admin: &Address) -> (r: Result<(), AmmError>)
        ensures
            match r {
                Ok(()) => old(self).with_lock(*admin, false) == Ok::<Pool, AmmError>(*final(self)),
                Err(e) => old(self).with_lock(*admin, false) == Err::<Pool, AmmError>(e) && *final(self) == *old(self),
            },
            old(self).wf() ==> final(self).wf(),
    {
        self.set_locked(admin, false)
    }

    /// Whether a deposit, a withdrawal or a swap may start: the pool is not
    /// locked and none of the amounts handed in is zero.
    pub open spec fn entry(self, any_zero: bool) -> Result<(), AmmError> {
        if self.config.locked {
            Err(AmmError::PoolLocked)
        } else if any_zero {
            Err(AmmError::ZeroBalance)
        } else {
            Ok(())
        }
    }

    fn check_entry(&self, any_zero: bool) -> (r: Result<(), AmmError>)
        ensures
            r == self.entry(any_zero),
    {
        if self.config.locked {
            Err(AmmError::PoolLocked)
        } else if any_zero {
            Err(AmmError::ZeroBalance)
        } else {
            Ok(())
        }
    }

    /// What a deposit of `amount` liquidity tokens costs: for an empty pool
    /// exactly the two limits, which set the first price; otherwise the
    /// proportional share of each reserve.
    pub open spec fn deposit_cost(self, amount: u64, max_x: u64, max_y: u64) -> Result<Amounts, AmmError> {
        if self.is_empty() {
            Ok(Amounts { x: max_x, y: max_y })
        } else {
            amounts_from_lp(
                self.reserve_x,
                self.reserve_y,
                self.lp_supply,
                amount,
                self.pooldata.precision,
            )
        }
    }

    /// What `deposit` does: the pool afterwards and the amounts paid in, or
    /// the reason why the deposit is refused.
    pub open spec fn deposited(self, amount: u64, max_x: u64, max_y: u64) -> Result<(Pool, Amounts), AmmError> {
        match self.entry(amount == 0 || max_x == 0 || max_y == 0) {
            Err(e) => Err(e),
            Ok(()) => match self.deposit_cost(amount, max_x, max_y) {
                Err(e) => Err(e),
                Ok(cost) => if cost.x > max_x || cost.y > max_y {
                    Err(AmmError::SlippageExceeded)
                } else if self.reserve_x + cost.x > u64::MAX || self.reserve_y + cost.y > u64::MAX
                    || self.lp_supply + amount > u64::MAX {
                    Err(AmmError::Overflow)
                } else {
                    Ok(
                        (
                            Pool {
                                reserve_x: (self.reserve_x + cost.x) as u64,
                                reserve_y: (self.reserve_y + cost.y) as u64,
                                lp_supply: (self.lp_supply + amount) as u64,
                                ..self
                            },
                            cost,
                        ),
                    )
                },
            },
        }
    }

    /// Adds liquidity: the caller pays the returned amounts of X and of Y and
    /// receives `amount` liquidity tokens.
    ///
    /// An empty pool takes exactly `max_x` and `max_y`. Any other pool takes
    /// `amount * reserve / lp_supply` of each asset, rounded down. The
    /// reserves grow by the amounts paid and the supply by `amount`. The host
    /// moves X, then Y, from the caller to the pool, then mints the
    /// liquidity tokens to the caller.
    ///
    /// Refused with `PoolLocked` where the pool is locked; with `ZeroBalance`
    /// where one of the three arguments is zero; with what
    /// `deposit_amounts_from_lp` refuses; with `SlippageExceeded` where an
    /// amount is above its limit; with `Overflow` where a reserve or the
    /// supply would leave 64 bits; in that order.
    pub fn deposit(&mut self, amount: u64, max_x: u64, max_y: u64) -> (r: Result<Amounts, AmmError>)
        ensures
            match r {
                Ok(paid) => old(self).deposited(amount, max_x, max_y) == Ok::<
                    (Pool, Amounts),
                    AmmError,
                >((*final(self), paid)),
                Err(e) => old(self).deposited(amount, max_x, max_y) == Err::<
                    (Pool, Amounts),
                    AmmError,
                >(e) && *final(self) == *old(self),
            },
            old(self).wf() ==> final(self).wf(),
            old(self).wf() && r is Ok ==> final(self).is_funded(),
    {
        match self.check_entry(amount == 0 || max_x == 0 || max_y == 0) {
            Ok(()) => {},
            Err(e) => {
                return Err(e);
            },
        }
        let cost: Amounts = if self.lp_supply == 0 && self.reserve_x == 0 && self.reserve_y == 0 {
            Amounts { x: max_x, y: max_y }
        } else {
            match deposit_amounts_from_lp(
                self.reserve_x,
                self.reserve_y,
                self.lp_supply,
                amount,
                self.pooldata.precision,
            ) {
                Ok(a) => a,
                Err(e) => {
                    return Err(e);
                },
            }
        };
        if cost.x > max_x || cost.y > max_y {
            return Err(AmmError::SlippageExceeded);
        }
        match (
            self.reserve_x.checked_add(cost.x),
            self.reserve_y.checked_add(cost.y),
            self.lp_supply.checked_add(amount),
        ) {
            (Some(x), Some(y), Some(l)) => {
                proof {
                    if !self.is_empty() {
                        lemma_lp_share(self.reserve_x, self.lp_supply, amount);
                        lemma_lp_share(self.reserve_y, self.lp_supply, amount);
                    }
                }
                self.reserve_x = x;
                self.reserve_y = y;
                self.lp_supply = l;
                Ok(cost)
            },
            _ => Err(AmmError::Overflow),
        }
    }

    /// What `withdraw` does: the pool afterwards and the amounts paid out,
    /// or the reason why the withdrawal is refused.
    pub open spec fn withdrawn(self, amount: u64, min_x: u64, min_y: u64) -> Result<(Pool, Amounts), AmmError> {
        match self.entry(amount == 0 || min_x == 0 || min_y == 0) {
            Err(e) => Err(e),
            Ok(()) => match amounts_from_lp(
                self.reserve_x,
                self.reserve_y,
                self.lp_supply,
                amount,
                self.pooldata.precision,
            ) {
                Err(e) => Err(e),
                Ok(share) => if share.x < min_x || share.y < min_y {
                    Err(AmmError::SlippageExceeded)
                } else if share.x > self.reserve_x || share.y > self.reserve_y || amount
                    > self.lp_supply {
                    Err(AmmError::Underflow)
                } else {
                    Ok(
                        (
                            Pool {
                                reserve_x: (self.reserve_x - share.x) as u64,
                                reserve_y: (self.reserve_y - share.y) as u64,
                                lp_supply: (self.lp_supply - amount) as u64,
                                ..self
                            },
                            share,
                        ),
                    )
                },
            },
        }
    }

    /// Redeems liquidity: the caller gives up `amount` liquidity tokens and
    /// receives the returned amounts of X and of Y.
    ///
    /// The pool pays `amount * reserve / lp_supply` of each asset, rounded
    /// down. The reserves shrink by the amounts paid and the supply by
    /// `amount`. The host burns the caller's liquidity tokens, then moves X,
    /// then Y, from the pool to the caller.
    ///
    /// Refused with `PoolLocked` where the pool is locked; with `ZeroBalance`
    /// where one of the three arguments is zero; with what
    /// `withdraw_amounts_from_lp` refuses; with `SlippageExceeded` where an
    /// amount is below its limit; with `Underflow` where `amount` is more
    /// than the supply or a share more than its reserve; in that order.
    pub fn withdraw(&mut self, amount: u64, min_x: u64, min_y: u64) -> (r: Result<Amounts, AmmError>)
        ensures
            match r {
                Ok(paid) => old(self).withdrawn(amount, min_x, min_y) == Ok::<
                    (Pool, Amounts),
                    AmmError,
                >((*final(self), paid)),
                Err(e) => old(self).withdrawn(amount, min_x, min_y) == Err::<
                    (Pool, Amounts),
                    AmmError,
                >(e) && *final(self) == *old(self),
            },
            old(self).wf() ==> final(self).wf(),
    {
        match self.check_entry(amount == 0 || min_x == 0 || min_y == 0) {
            Ok(()) => {},
            Err(e) => {
                return Err(e);
            },
        }
        let share: Amounts = match withdraw_amounts_from_lp(
            self.reserve_x,
            self.reserve_y,
            self.lp_supply,
            amount,
            self.pooldata.precision,
        ) {
            Ok(a) => a,
            Err(e) => {
                return Err(e);
            },
        };
        if share.x < min_x || share.y < min_y {
            return Err(AmmError::SlippageExceeded);
        }
        match (
            self.reserve_x.checked_sub(share.x),
            self.reserve_y.checked_sub(share.y),
            self.lp_supply.checked_sub(amount),
        ) {
            (Some(x), Some(y), Some(l)) => {
                proof {
                    lemma_lp_share(self.reserve_x, self.lp_supply, amount);
                    lemma_lp_share(self.reserve_y, self.lp_supply, amount);
                }
                self.reserve_x = x;
                self.reserve_y = y;
                self.lp_supply = l;
                Ok(share)
            },
            _ => Err(AmmError::Underflow),
        }
    }

    /// The direction of a swap that pays in `mint_deposit`: whether it buys
    /// X. An asset that is neither X nor Y has none.
    pub open spec fn direction(self, mint_deposit: Address) -> Option<bool> {
        if mint_deposit == self.config.mint_x {
            Some(false)
        } else if mint_deposit == self.config.mint_y {
            Some(true)
        } else {
            None
        }
    }

    /// The asset that a swap in the given direction pays out.
    pub open spec fn mint_out(self, is_buying_x: bool) -> Address {
        if is_buying_x {
            self.config.mint_x
        } else {
            self.config.mint_y
        }
    }

    /// What `swap` does: the pool afterwards and what moves, or the reason
    /// why the swap is refused.
    pub open spec fn swapped(
        self,
        mint_deposit: Address,
        amount_in: u64,
        amount_out_min: u64,
        current_slot: u64,
    ) -> Result<(Pool, SwapOutcome), AmmError> {
        match self.entry(amount_in == 0 || amount_out_min == 0) {
            Err(e) => Err(e),
            Ok(()) => match self.direction(mint_deposit) {
                None => Err(AmmError::InvalidInputMint),
                Some(is_buying_x) => match quote(
                    self.reserve_in(is_buying_x),
                    self.reserve_out(is_buying_x),
                    self.lp_supply,
                    self.config.fee,
                    amount_in,
                    amount_out_min,
                ) {
                    Err(e) => Err(e),
                    Ok(quoted) => match self.pooldata.clamped(
                        current_slot,
                        is_buying_x,
                        quoted,
                        self.reserve_x,
                        self.reserve_y,
                        amount_out_min,
                    ) {
                        Err(e) => Err(e),
                        Ok((window, moved)) => if self.reserve_in(is_buying_x) + moved.deposit
                            > u64::MAX {
                            Err(AmmError::Overflow)
                        } else if moved.withdraw >= self.reserve_out(is_buying_x) {
                            Err(AmmError::Underflow)
                        } else {
                            let grown = (self.reserve_in(is_buying_x) + moved.deposit) as u64;
                            let shrunk = (self.reserve_out(is_buying_x) - moved.withdraw) as u64;
                            Ok(
                                (
                                    Pool {
                                        pooldata: window,
                                        reserve_x: if is_buying_x {
                                            shrunk
                                        } else {
                                            grown
                                        },
                                        reserve_y: if is_buying_x {
                                            grown
                                        } else {
                                            shrunk
                                        },
                                        ..self
                                    },
                                    SwapOutcome {
                                        mint_deposit,
                                        deposit: moved.deposit,
                                        mint_withdraw: self.mint_out(is_buying_x),
                                        withdraw: moved.withdraw,
                                    },
                                ),
                            )
                        },
                    },
                },
            },
        }
    }

    /// Swaps `amount_in` of one of the pool's assets for the other.
    ///
    /// The curve quotes the trade against the reserves, the price ratchet
    /// holds the quote to the ceiling of the window of `current_slot`, and
    /// the pool records the new window. The reserve of the asset paid in
    /// grows by `deposit`, which is `amount_in`; the reserve of the other
    /// asset shrinks by `withdraw`. The host moves `deposit` from the caller
    /// to the pool, then `withdraw` from the pool to the caller.
    ///
    /// Refused with `PoolLocked` where the pool is locked; with `ZeroBalance`
    /// where `amount_in` or `amount_out_min` is zero; with `InvalidInputMint`
    /// where `mint_deposit` is neither X nor Y; with what `swap_quote`
    /// refuses; with what `PoolData::clamp` refuses; with `Overflow` where
    /// the reserve paid into would leave 64 bits; with `Underflow` where the
    /// amount paid out is not below its reserve; in that order. A
    /// well-formed pool stays well-formed.
    pub fn swap(
        &mut self,
        mint_deposit: Address,
        amount_in: u64,
        amount_out_min: u64,
        current_slot: u64,
    ) -> (r: Result<SwapOutcome, AmmError>)
        ensures
            match r {
                Ok(out) => old(self).swapped(mint_deposit, amount_in, amount_out_min, current_slot)
                    == Ok::<(Pool, SwapOutcome), AmmError>((*final(self), out)),
                Err(e) => old(self).swapped(mint_deposit, amount_in, amount_out_min, current_slot)
                    == Err::<(Pool, SwapOutcome), AmmError>(e) && *final(self) == *old(self),
            },
            old(self).wf() ==> final(self).wf(),
            r matches Ok(out) ==> out.deposit == amount_in && out.withdraw >= amount_out_min,
    {
        match self.check_entry(amount_in == 0 || amount_out_min == 0) {
            Ok(()) => {},
            Err(e) => {
                return Err(e);
            },
        }
        let is_buying_x: bool = if mint_deposit.same(&self.config.mint_x) {
            false
        } else if mint_deposit.same(&self.config.mint_y) {
            true
        } else {
            return Err(AmmError::InvalidInputMint);
        };
        let (reserve_in, reserve_out): (u64, u64) = if is_buying_x {
            (self.reserve_y, self.reserve_x)
        } else {
            (self.reserve_x, self.reserve_y)
        };
        let quoted: SwapQuote = match swap_quote(
            reserve_in,
            reserve_out,
            self.lp_supply,
            self.config.fee,
            amount_in,
            amount_out_min,
        ) {
            Ok(q) => q,
            Err(e) => {
                return Err(e);
            },
        };
        let mut window: PoolData = self.pooldata;
        let moved: SwapQuote = match window.clamp(
            current_slot,
            is_buying_x,
            quoted,
            self.reserve_x,
            self.reserve_y,
            amount_out_min,
        ) {
            Ok(q) => q,
            Err(e) => {
                return Err(e);
            },
        };
        let grown: u64 = match reserve_in.checked_add(moved.deposit) {
            Some(v) => v,
            None => {
                return Err(AmmError::Overflow);
            },
        };
        if moved.withdraw >= reserve_out {
            return Err(AmmError::Underflow);
        }
        let shrunk: u64 = reserve_out - moved.withdraw;
        self.pooldata = window;
        let mint_withdraw: Address = if is_buying_x {
            self.reserve_x = shrunk;
            self.reserve_y = grown;
            self.config.mint_x
        } else {
            self.reserve_x = grown;
            self.reserve_y = shrunk;
            self.config.mint_y
        };
        Ok(SwapOutcome { mint_deposit, deposit: moved.deposit, mint_withdraw, withdraw: moved.withdraw })
    }
}

} // verus!
