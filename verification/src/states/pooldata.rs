//! The price window of a pool.

use vstd::prelude::*;

verus! {

/// The price window: the slot of the last trade, and the highest price
/// charged in that slot to the buyers of each asset.
///
/// A price is a fixed-point number with `precision` decimal places, in units
/// paid per unit bought. A ceiling is `None` until it is set.
#[derive(Clone, Copy, Debug, PartialEq, Eq, Structural)]
pub struct PoolData {
    /// The window that the ceilings belong to.
    pub last_slot: u64,
    /// The ceiling for buyers of X, in Y per X.
    pub buying_x_high: Option<u128>,
    /// The ceiling for buyers of Y, in X per Y.
    pub buying_y_high: Option<u128>,
    /// The number of decimal places of a price.
    pub precision: u8,
}

} // verus!
