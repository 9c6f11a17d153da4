//! The error kinds of the pool.

use vstd::prelude::*;

verus! {

/// Why an operation was refused. A refused operation changes nothing.
#[derive(Clone, Copy, Debug, PartialEq, Eq, Structural)]
pub enum AmmError {
    /// The fee handed to `initialize` is not below 10000 basis points, or the
    /// pool is already active.
    InvalidFeeSet,
    /// The pool is locked.
    PoolLocked,
    /// An amount, a reserve or the supply that must be positive is zero.
    ZeroBalance,
    /// The recorded authority is not usable.
    InvalidAuthority,
    /// The caller is not the pool's authority.
    Unauthorized,
    /// Ten to the power of the precision does not fit in 128 bits.
    InvalidPrecision,
    /// A result is too large for its width, or a division by zero.
    Overflow,
    /// A subtraction would go below zero, or a swap would leave nothing of a
    /// reserve.
    Underflow,
    /// The fee is not usable by the curve.
    InvalidFee,
    /// A holder has less than an operation needs.
    InsufficientBalance,
    /// The amounts are worse than the limits the caller gave.
    SlippageExceeded,
    /// The asset handed in is neither of the pool's two assets.
    InvalidInputMint,
}

} // verus!
