//! What the pool asks of the ledger that holds the tokens.
//!
//! The pool never moves a token itself. For each movement that an operation
//! calls for, it names the asset, the two sides and the amount, and the host
//! carries that out.

use vstd::prelude::*;
use crate::curve::Amounts;
use crate::errors::AmmError;
use crate::pool::{Pool, SwapOutcome};
use crate::states::address::Address;

verus! {

/// A side of a token movement.
#[derive(Clone, Copy, Debug, PartialEq, Eq, Structural)]
pub enum Holder {
    /// The caller of the operation.
    Caller,
    /// The pool's own holdings.
    Vault,
}

/// One request to the ledger.
#[derive(Clone, Copy, Debug, PartialEq, Eq)]
pub enum Movement {
    /// Move `amount` of `asset` from one holder to the other.
    Transfer { asset: Address, from: Holder, to: Holder, amount: u64 },
    /// Create `amount` liquidity tokens for `to`.
    MintLp { to: Holder, amount: u64 },
    /// Destroy `amount` liquidity tokens of `from`.
    BurnLp { from: Holder, amount: u64 },
}

impl Pool {
    /// The asset X or the asset Y.
    pub open spec fn mint(self, is_x: bool) -> Address {
        if is_x {
            self.config.mint_x
        } else {
            self.config.mint_y
        }
    }

    /// Whether `mint` is the pool's X, or else its Y; `InvalidInputMint`
    /// where it is neither.
    pub open spec fn side(self, mint: Address) -> Result<bool, AmmError> {
        if mint == self.config.mint_x {
            Ok(true)
        } else if mint == self.config.mint_y {
            Ok(false)
        } else {
            Err(AmmError::InvalidInputMint)
        }
    }

    fn side_of(&self, mint: &Address) -> (r: Result<bool, AmmError>)
        ensures
            r == self.side(*mint),
    {
        if mint.same(&self.config.mint_x) {
            Ok(true)
        } else if mint.same(&self.config.mint_y) {
            Ok(false)
        } else {
            Err(AmmError::InvalidInputMint)
        }
    }

    /// The payment of one side of a deposit: `amount` of X or of Y from the
    /// caller to the pool.
    pub fn deposit_tokens(&self, is_x: bool, amount: u64) -> (r: Movement)
        ensures
            r == (Movement::Transfer {
                asset: self.mint(is_x),
                from: Holder::Caller,
                to: Holder::Vault,
                amount,
            }),
    {
        let asset: Address = if is_x {
            self.config.mint_x
        } else {
            self.config.mint_y
        };
        Movement::Transfer { asset, from: Holder::Caller, to: Holder::Vault, amount }
    }

    /// The reward of a deposit: `amount` new liquidity tokens for the caller.
    pub fn mint_lp_token(&self, amount: u64) -> (r: Movement)
        ensures
            r == (Movement::MintLp { to: Holder::Caller, amount }),
    {
        Movement::MintLp { to: Holder::Caller, amount }
    }

    /// The payout of one side of a withdrawal: `amount` of X or of Y from the
    /// pool to the caller.
    pub fn withdraw_tokens(&self, is_x: bool, amount: u64) -> (r: Movement)
        ensures
            r == (Movement::Transfer {
                asset: self.mint(is_x),
                from: Holder::Vault,
                to: Holder::Caller,
                amount,
            }),
    {
        let asset: Address = if is_x {
            self.config.mint_x
        } else {
            self.config.mint_y
        };
        Movement::Transfer { asset, from: Holder::Vault, to: Holder::Caller, amount }
    }

    /// The price of a withdrawal: `amount` liquidity tokens of the caller are
    /// destroyed.
    pub fn burn_lp_tokens(&self, amount: u64) -> (r: Movement)
        ensures
            r == (Movement::BurnLp { from: Holder::Caller, amount }),
    {
        Movement::BurnLp { from: Holder::Caller, amount }
    }

    /// The payment of a swap: `amount` of `mint_deposit` from the caller to
    /// the pool.
    ///
    /// Refused with `InvalidInputMint` where `mint_deposit` is neither X nor
    /// Y.
    pub fn deposit_token(&self, mint_deposit: Address, amount: u64) -> (r: Result<
        Movement,
        AmmError,
    >)
        ensures
            r == match self.side(mint_deposit) {
                Ok(_) => Ok(
                    Movement::Transfer {
                        asset: mint_deposit,
                        from: Holder::Caller,
                        to: Holder::Vault,
                        amount,
                    },
                ),
                Err(e) => Err(e),
            },
    {
        match self.side_of(&mint_deposit) {
            Ok(is_x) => Ok(self.deposit_tokens(is_x, amount)),
            Err(e) => Err(e),
        }
    }

    /// The payout of a swap: `amount` of `mint_withdraw` from the pool to the
    /// caller.
    ///
    /// Refused with `InvalidInputMint` where `mint_withdraw` is neither X nor
    /// Y.
    pub fn withdraw_token(&self, mint_withdraw: Address, amount: u64) -> (r: Result<
        Movement,
        AmmError,
    >)
        ensures
            r == match self.side(mint_withdraw) {
                Ok(_) => Ok(
                    Movement::Transfer {
                        asset: mint_withdraw,
                        from: Holder::Vault,
                        to: Holder::Caller,
                        amount,
                    },
                ),
                Err(e) => Err(e),
            },
    {
        match self.side_of(&mint_withdraw) {
            Ok(is_x) => Ok(self.withdraw_tokens(is_x, amount)),
            Err(e) => Err(e),
        }
    }

    /// What a deposit moves, in order: X and then Y from the caller to the
    /// pool, then the new liquidity tokens to the caller.
    pub fn deposit_movements(&self, paid: Amounts, amount: u64) -> (r: [Movement; 3])
        ensures
            r@ == seq![
                Movement::Transfer {
                    asset: self.config.mint_x,
                    from: Holder::Caller,
                    to: Holder::Vault,
                    amount: paid.x,
                },
                Movement::Transfer {
                    asset: self.config.mint_y,
                    from: Holder::Caller,
                    to: Holder::Vault,
                    amount: paid.y,
                },
                Movement::MintLp { to: Holder::Caller, amount },
            ],
    {
        let r: [Movement; 3] = [
            self.deposit_tokens(true, paid.x),
            self.deposit_tokens(false, paid.y),
            self.mint_lp_token(amount),
        ];
        assert(r@ =~= seq![r@[0], r@[1], r@[2]]);
        r
    }

    /// What a withdrawal moves, in order: the caller's liquidity tokens are
    /// destroyed, then X and then Y go from the pool to the caller.
    pub fn withdraw_movements(&self, paid: Amounts, amount: u64) -> (r: [Movement; 3])
        ensures
            r@ == seq![
                Movement::BurnLp { from: Holder::Caller, amount },
                Movement::Transfer {
                    asset: self.config.mint_x,
                    from: Holder::Vault,
                    to: Holder::Caller,
                    amount: paid.x,
                },
                Movement::Transfer {
                    asset: self.config.mint_y,
                    from: Holder::Vault,
                    to: Holder::Caller,
                    amount: paid.y,
                },
            ],
    {
        let r: [Movement; 3] = [
            self.burn_lp_tokens(amount),
            self.withdraw_tokens(true, paid.x),
            self.withdraw_tokens(false, paid.y),
        ];
        assert(r@ =~= seq![r@[0], r@[1], r@[2]]);
        r
    }

    /// What a swap moves, in order: the asset paid in from the caller to the
    /// pool, then the asset paid out from the pool to the caller.
    ///
    /// Refused with `InvalidInputMint` where one of the two assets is neither
    /// X nor Y.
    pub fn swap_movements(&self, moved: SwapOutcome) -> (r: Result<[Movement; 2], AmmError>)
        ensures
            match r {
                Ok(movements) => {
                    &&& self.side(moved.mint_deposit) is Ok
                    &&& self.side(moved.mint_withdraw) is Ok
                    &&& movements@ == seq![
                        Movement::Transfer {
                            asset: moved.mint_deposit,
                            from: Holder::Caller,
                            to: Holder::Vault,
                            amount: moved.deposit,
                        },
                        Movement::Transfer {
                            asset: moved.mint_withdraw,
                            from: Holder::Vault,
                            to: Holder::Caller,
                            amount: moved.withdraw,
                        },
                    ]
                },
                Err(e) => {
                    &&& e == AmmError::InvalidInputMint
                    &&& self.side(moved.mint_deposit) is Err || self.side(moved.mint_withdraw) is Err
                },
            },
    {
        let pay_in: Movement = match self.deposit_token(moved.mint_deposit, moved.deposit) {
            Ok(i) => i,
            Err(e) => {
                return Err(e);
            },
        };
        let pay_out: Movement = match self.withdraw_token(moved.mint_withdraw, moved.withdraw) {
            Ok(i) => i,
            Err(e) => {
                return Err(e);
            },
        };
        let r: [Movement; 2] = [pay_in, pay_out];
        assert(r@ =~= seq![r@[0], r@[1]]);
        Ok(r)
    }
}

} // verus!
