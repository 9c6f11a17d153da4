//! The pool's configuration.

use vstd::prelude::*;
use crate::states::address::Address;

verus! {

/// Who a pool belongs to, what it trades and on what terms.
#[derive(Clone, Copy, Debug, PartialEq, Eq)]
pub struct Config {
    /// Tells apart several pools of the same pair of assets.
    pub seed: u64,
    /// The only caller who may lock and unlock the pool.
    pub authority: Address,
    /// The swap fee in basis points.
    pub fee: u16,
    /// The asset whose reserve is `reserve_x`.
    pub mint_x: Address,
    /// The asset whose reserve is `reserve_y`.
    pub mint_y: Address,
    /// While set, deposits, withdrawals and swaps are refused.
    pub locked: bool,
}

} // verus!
