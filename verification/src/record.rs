//! The byte layout of a whole pool: the configuration, the two reserves and
//! the supply as little-endian integers, then the price window.

use vstd::prelude::*;
use vstd::bytes::{
    lemma_auto_spec_u64_to_from_le_bytes,
    spec_u64_from_le_bytes,
    spec_u64_to_le_bytes,
    u64_from_le_bytes,
    u64_to_le_bytes,
};
use vstd::slice::slice_subrange;
use crate::pool::Pool;
use crate::states::config::Config;
use crate::states::layout::{
    lemma_config_encoding_is_injective,
    lemma_config_encoding_len,
    lemma_encoding_is_injective,
    CONFIG_LEN,
};
use crate::states::pooldata::PoolData;

verus! {

/// The length of the part of an encoded pool that comes before the window.
pub const POOL_HEAD_LEN: usize = 131;

impl Pool {
    /// The encoding of the pool.
    pub open spec fn encoding(self) -> Seq<u8> {
        self.config.encoding() + spec_u64_to_le_bytes(self.reserve_x) + spec_u64_to_le_bytes(
            self.reserve_y,
        ) + spec_u64_to_le_bytes(self.lp_supply) + self.pooldata.encoding()
    }
}

/// Where the parts of an encoded pool stand.
proof fn lemma_pool_parts(pool: Pool)
    ensures
        ({
            let e = pool.encoding();
            &&& e.len() == POOL_HEAD_LEN + pool.pooldata.encoding().len()
            &&& e.subrange(0, 107) == pool.config.encoding()
            &&& e.subrange(107, 115) == spec_u64_to_le_bytes(pool.reserve_x)
            &&& e.subrange(115, 123) == spec_u64_to_le_bytes(pool.reserve_y)
            &&& e.subrange(123, 131) == spec_u64_to_le_bytes(pool.lp_supply)
            &&& e.subrange(131, e.len() as int) == pool.pooldata.encoding()
        }),
{
    lemma_auto_spec_u64_to_from_le_bytes();
    lemma_config_encoding_len(pool.config);
    let e = pool.encoding();
    assert(e.subrange(0, 107) =~= pool.config.encoding());
    assert(e.subrange(107, 115) =~= spec_u64_to_le_bytes(pool.reserve_x));
    assert(e.subrange(115, 123) =~= spec_u64_to_le_bytes(pool.reserve_y));
    assert(e.subrange(123, 131) =~= spec_u64_to_le_bytes(pool.lp_supply));
    assert(e.subrange(131, e.len() as int) =~= pool.pooldata.encoding());
}

/// Two pools with the same encoding are the same.
pub proof fn lemma_pool_encoding_is_injective(a: Pool, b: Pool)
    requires
        a.encoding() == b.encoding(),
    ensures
        a == b,
{
    lemma_auto_spec_u64_to_from_le_bytes();
    lemma_pool_parts(a);
    lemma_pool_parts(b);
    lemma_config_encoding_is_injective(a.config, b.config);
    lemma_encoding_is_injective(a.pooldata, b.pooldata);
    assert(spec_u64_from_le_bytes(spec_u64_to_le_bytes(a.reserve_x)) == a.reserve_x);
    assert(spec_u64_from_le_bytes(spec_u64_to_le_bytes(b.reserve_x)) == b.reserve_x);
    assert(spec_u64_from_le_bytes(spec_u64_to_le_bytes(a.reserve_y)) == a.reserve_y);
    assert(spec_u64_from_le_bytes(spec_u64_to_le_bytes(b.reserve_y)) == b.reserve_y);
    assert(spec_u64_from_le_bytes(spec_u64_to_le_bytes(a.lp_supply)) == a.lp_supply);
    assert(spec_u64_from_le_bytes(spec_u64_to_le_bytes(b.lp_supply)) == b.lp_supply);
}

impl Pool {
    /// Encodes the pool.
    pub fn to_bytes(&self) -> (out: Vec<u8>)
        ensures
            out@ == self.encoding(),
    {
        let mut out: Vec<u8> = self.config.to_bytes();
        let mut reserve_x: Vec<u8> = u64_to_le_bytes(self.reserve_x);
        out.append(&mut reserve_x);
        let mut reserve_y: Vec<u8> = u64_to_le_bytes(self.reserve_y);
        out.append(&mut reserve_y);
        let mut lp_supply: Vec<u8> = u64_to_le_bytes(self.lp_supply);
        out.append(&mut lp_supply);
        let mut window: Vec<u8> = self.pooldata.to_bytes();
        out.append(&mut window);
        out
    }

    /// Decodes a pool: the one that `bytes` encodes, or `None` where `bytes`
    /// is the encoding of no pool.
    pub fn from_bytes(bytes: &[u8]) -> (r: Option<Pool>)
        ensures
            forall|pool: Pool| #[trigger] pool.encoding() == bytes@ ==> r == Some(pool),
            r matches Some(pool) ==> pool.encoding() == bytes@,
    {
        proof {
            lemma_auto_spec_u64_to_from_le_bytes();
            assert forall|pool: Pool| #[trigger] pool.encoding() == bytes@ implies bytes@.len()
                >= POOL_HEAD_LEN && bytes@.subrange(0, 107) == pool.config.encoding()
                && bytes@.subrange(131, bytes@.len() as int) == pool.pooldata.encoding() by {
                lemma_pool_parts(pool);
            }
        }
        if bytes.len() < POOL_HEAD_LEN {
            return None;
        }
        let config: Config = match Config::from_bytes(slice_subrange(bytes, 0, CONFIG_LEN)) {
            Some(c) => c,
            None => {
                return None;
            },
        };
        let pooldata: PoolData = match PoolData::from_bytes(
            slice_subrange(bytes, POOL_HEAD_LEN, bytes.len()),
        ) {
            Some(d) => d,
            None => {
                return None;
            },
        };
        let read = Pool {
            config,
            pooldata,
            reserve_x: u64_from_le_bytes(slice_subrange(bytes, 107, 115)),
            reserve_y: u64_from_le_bytes(slice_subrange(bytes, 115, 123)),
            lp_supply: u64_from_le_bytes(slice_subrange(bytes, 123, 131)),
        };
        proof {
            assert(read.encoding() =~= bytes@) by {
                assert(bytes@ =~= bytes@.subrange(0, 107) + bytes@.subrange(107, 115)
                    + bytes@.subrange(115, 123) + bytes@.subrange(123, 131) + bytes@.subrange(
                    131,
                    bytes@.len() as int,
                ));
            }
            assert forall|pool: Pool| #[trigger] pool.encoding() == bytes@ implies pool == read by {
                lemma_pool_encoding_is_injective(pool, read);
            }
        }
        Some(read)
    }
}

} // verus!
