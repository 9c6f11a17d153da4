//! The life of a pool: uninitialized, then active for good.

use vstd::prelude::*;
use crate::curve::FEE_DENOMINATOR;
use crate::errors::AmmError;
use crate::pool::Pool;
use crate::states::address::Address;

verus! {

/// The life of a pool: it is initialized once, and is active from then on.
#[derive(Clone, Copy, Debug, PartialEq, Eq)]
pub enum PoolState {
    /// No pool has been set up yet.
    Uninitialized,
    /// The pool has been set up and serves operations.
    Active(Pool),
}

impl PoolState {
    /// What `initialize` does: the state afterwards, or the reason why the
    /// call is refused.
    pub open spec fn initialized(
        self,
        admin: Address,
        mint_x: Address,
        mint_y: Address,
        seed: u64,
        fee: u16,
    ) -> Result<PoolState, AmmError> {
        match self {
            PoolState::Active(_) => Err(AmmError::InvalidFeeSet),
            PoolState::Uninitialized => match Pool::created(admin, mint_x, mint_y, seed, fee) {
                Ok(pool) => Ok(PoolState::Active(pool)),
                Err(e) => Err(e),
            },
        }
    }

    /// Makes the pool active: empty, unlocked, owned by `admin`.
    ///
    /// Refused with `InvalidFeeSet` where the pool is already active or the
    /// fee is not below 10000 basis points.
    pub fn initialize(
        &mut self,
        admin: Address,
        mint_x: Address,
        mint_y: Address,
        seed: u64,
        fee: u16,
    ) -> (r: Result<(), AmmError>)
        ensures
            match r {
                Ok(()) => old(self).initialized(admin, mint_x, mint_y, seed, fee) == Ok::<
                    PoolState,
                    AmmError,
                >(*final(self)),
                Err(e) => old(self).initialized(admin, mint_x, mint_y, seed, fee) == Err::<
                    PoolState,
                    AmmError,
                >(e) && *final(self) == *old(self),
            },
            r is Ok <==> *old(self) is Uninitialized && fee < FEE_DENOMINATOR,
            r is Ok ==> *final(self) is Active,
    {
        match self {
            PoolState::Active(_) => Err(AmmError::InvalidFeeSet),
            PoolState::Uninitialized => match Pool::save_config(admin, mint_x, mint_y, seed, fee) {
                Ok(pool) => {
                    *self = PoolState::Active(pool);
                    Ok(())
                },
                Err(e) => Err(e),
            },
        }
    }

    /// The pool, once it is active.
    pub fn pool(&self) -> (r: Option<Pool>)
        ensures
            r == match *self {
                PoolState::Active(pool) => Some(pool),
                PoolState::Uninitialized => None,
            },
    {
        match self {
            PoolState::Active(pool) => Some(*pool),
            PoolState::Uninitialized => None,
        }
    }
}

/// A pool is initialized once: after a call of `initialize` that succeeded,
/// every further call is refused, whatever its arguments.
pub proof fn lemma_initialize_twice_fails(
    state: PoolState,
    admin: Address,
    mint_x: Address,
    mint_y: Address,
    seed: u64,
    fee: u16,
    admin2: Address,
    mint_x2: Address,
    mint_y2: Address,
    seed2: u64,
    fee2: u16,
)
    requires
        state.initialized(admin, mint_x, mint_y, seed, fee) is Ok,
    ensures
        state.initialized(admin, mint_x, mint_y, seed, fee).unwrap().initialized(
            admin2,
            mint_x2,
            mint_y2,
            seed2,
            fee2,
        ) is Err,
{
}

} // verus!
