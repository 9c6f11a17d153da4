//! Pricing and pool accounting for a two-asset constant-product market maker
//! with a per-window price ratchet.
//!
//! The crate computes the exact token amounts that a deposit, a withdrawal or
//! a swap moves, and keeps the pool's own counters. Token custody, signature
//! checks and the clock belong to the host: every operation takes what it
//! needs as plain values and says what the host has to move.
//!
//! - `curve`: what a swap pays out and what a share of the liquidity is worth.
//! - `helpers`: fixed-point prices.
//! - `ratchet`: the ceiling that holds the price of each direction within a
//!   window.
//! - `pool`: deposits, withdrawals, swaps and the lock.
//! - `lifecycle`: a pool is initialized once.
//! - `conservation`: what the operations conserve.
//! - `ledger`: the token movements that an operation calls for.
//! - `states`, `record`: the records and their byte layout.

pub mod errors;
pub mod helpers;
pub mod curve;
pub mod states;
pub mod ratchet;
pub mod pool;
pub mod lifecycle;
pub mod conservation;
pub mod ledger;
pub mod record;
