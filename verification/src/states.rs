//! The records that a pool keeps between operations.

pub mod address;
pub mod layout;
pub mod config;
pub mod pooldata;
