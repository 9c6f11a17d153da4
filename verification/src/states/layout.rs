//! The byte layout of the records.
//!
//! Integers are little-endian and an identifier is its 32 bytes. A flag is
//! one byte, 0 or 1. A ceiling is one tag byte, 0 for unset and 1 for set,
//! followed for a set ceiling by its 16 bytes, so that an unset ceiling
//! differs from every price. A record has one encoding, and the decoders
//! accept nothing else.

use vstd::prelude::*;
use vstd::bytes::{
    lemma_auto_spec_u128_to_from_le_bytes,
    lemma_auto_spec_u16_to_from_le_bytes,
    lemma_auto_spec_u64_to_from_le_bytes,
    spec_u16_from_le_bytes,
    spec_u16_to_le_bytes,
    u16_from_le_bytes,
    u16_to_le_bytes,
    spec_u128_from_le_bytes,
    spec_u128_to_le_bytes,
    spec_u64_from_le_bytes,
    spec_u64_to_le_bytes,
    u128_from_le_bytes,
    u128_to_le_bytes,
    u64_from_le_bytes,
    u64_to_le_bytes,
};
use vstd::slice::slice_subrange;
use crate::states::address::Address;
use crate::states::config::Config;
use crate::states::pooldata::PoolData;

verus! {

/// The encoding of one ceiling.
pub open spec fn ceiling_encoding(ceiling: Option<u128>) -> Seq<u8> {
    match ceiling {
        None => seq![0u8],
        Some(price) => seq![1u8] + spec_u128_to_le_bytes(price),
    }
}

/// Whether `part` stands in `bytes` at position `at`.
pub open spec fn stands_at(bytes: Seq<u8>, at: int, part: Seq<u8>) -> bool {
    &&& 0 <= at
    &&& at + part.len() <= bytes.len()
    &&& bytes.subrange(at, at + part.len()) == part
}

impl PoolData {
    /// The encoding of the window: the slot, the ceiling for buyers of X,
    /// the ceiling for buyers of Y, the precision.
    pub open spec fn encoding(self) -> Seq<u8> {
        spec_u64_to_le_bytes(self.last_slot) + ceiling_encoding(self.buying_x_high)
            + ceiling_encoding(self.buying_y_high) + seq![self.precision]
    }
}

/// At one position at most one ceiling stands.
proof fn lemma_one_ceiling_stands(bytes: Seq<u8>, at: int, a: Option<u128>, b: Option<u128>)
    requires
        stands_at(bytes, at, ceiling_encoding(a)),
        stands_at(bytes, at, ceiling_encoding(b)),
    ensures
        a == b,
{
    lemma_auto_spec_u128_to_from_le_bytes();
    let ea = ceiling_encoding(a);
    let eb = ceiling_encoding(b);
    assert(ea[0] == bytes.subrange(at, at + ea.len())[0]);
    assert(eb[0] == bytes.subrange(at, at + eb.len())[0]);
    assert(ea[0] == bytes[at]);
    assert(eb[0] == bytes[at]);
    if a is Some && b is Some {
        let pa = spec_u128_to_le_bytes(a.unwrap());
        let pb = spec_u128_to_le_bytes(b.unwrap());
        assert(ea.len() == 17 && eb.len() == 17);
        assert(ea == eb);
        assert(pa =~= ea.subrange(1, 17));
        assert(pb =~= eb.subrange(1, 17));
        assert(spec_u128_from_le_bytes(pa) == a.unwrap());
        assert(spec_u128_from_le_bytes(pb) == b.unwrap());
    }
}

/// Where the parts of an encoded window stand.
proof fn lemma_encoding_parts(data: PoolData)
    ensures
        ({
            let e = data.encoding();
            let x = ceiling_encoding(data.buying_x_high);
            let y = ceiling_encoding(data.buying_y_high);
            let after_x: int = 8 + (x.len() as int);
            let after_y: int = after_x + y.len();
            &&& e.len() == after_y + 1
            &&& x.len() >= 1
            &&& y.len() >= 1
            &&& stands_at(e, 0, spec_u64_to_le_bytes(data.last_slot))
            &&& stands_at(e, 8, x)
            &&& stands_at(e, after_x, y)
            &&& e[after_y] == data.precision
        }),
{
    lemma_auto_spec_u64_to_from_le_bytes();
    lemma_auto_spec_u128_to_from_le_bytes();
    let e = data.encoding();
    let s = spec_u64_to_le_bytes(data.last_slot);
    let x = ceiling_encoding(data.buying_x_high);
    let y = ceiling_encoding(data.buying_y_high);
    let after_x: int = 8 + (x.len() as int);
    let after_y: int = after_x + y.len();
    assert(s.len() == 8);
    assert(e.subrange(0, 8) =~= s);
    assert(e.subrange(8, after_x) =~= x);
    assert(e.subrange(after_x, after_y) =~= y);
}

/// Two windows with the same encoding are the same.
pub proof fn lemma_encoding_is_injective(a: PoolData, b: PoolData)
    requires
        a.encoding() == b.encoding(),
    ensures
        a == b,
{
    lemma_auto_spec_u64_to_from_le_bytes();
    lemma_encoding_parts(a);
    lemma_encoding_parts(b);
    let e = a.encoding();
    assert(spec_u64_from_le_bytes(spec_u64_to_le_bytes(a.last_slot)) == a.last_slot);
    assert(spec_u64_from_le_bytes(spec_u64_to_le_bytes(b.last_slot)) == b.last_slot);
    lemma_one_ceiling_stands(e, 8, a.buying_x_high, b.buying_x_high);
    let after_x: int = 8 + (ceiling_encoding(a.buying_x_high).len() as int);
    lemma_one_ceiling_stands(e, after_x, a.buying_y_high, b.buying_y_high);
}

fn write_ceiling(out: &mut Vec<u8>, ceiling: Option<u128>)
    ensures
        final(out)@ == old(out)@ + ceiling_encoding(ceiling),
{
    match ceiling {
        None => {
            out.push(0);
            assert(out@ =~= old(out)@ + ceiling_encoding(ceiling));
        },
        Some(price) => {
            out.push(1);
            let mut payload: Vec<u8> = u128_to_le_bytes(price);
            out.append(&mut payload);
            assert(out@ =~= old(out)@ + ceiling_encoding(ceiling));
        },
    }
}

fn read_ceiling(bytes: &[u8], at: usize) -> (r: Option<(Option<u128>, usize)>)
    requires
        at <= bytes@.len(),
    ensures
        match r {
            Some((ceiling, next)) => next == at + ceiling_encoding(ceiling).len() && stands_at(
                bytes@,
                at as int,
                ceiling_encoding(ceiling),
            ),
            None => forall|c: Option<u128>| !stands_at(bytes@, at as int, #[trigger] ceiling_encoding(c)),
        },
{
    proof {
        lemma_auto_spec_u128_to_from_le_bytes();
    }
    if at >= bytes.len() {
        return None;
    }
    let tag: u8 = bytes[at];
    if tag == 0 {
        assert(bytes@.subrange(at as int, at + 1) =~= seq![0u8]);
        Some((None, at + 1))
    } else if tag == 1 {
        if bytes.len() - at < 17 {
            assert forall|c: Option<u128>| !stands_at(
                bytes@,
                at as int,
                #[trigger] ceiling_encoding(c),
            ) by {
                let e = ceiling_encoding(c);
                if stands_at(bytes@, at as int, e) {
                    assert(e[0] == bytes@.subrange(at as int, at + e.len())[0]);
                }
            }
            return None;
        }
        let payload: &[u8] = slice_subrange(bytes, at + 1, at + 17);
        let price: u128 = u128_from_le_bytes(payload);
        assert(bytes@.subrange(at as int, at + 17) =~= seq![1u8] + payload@);
        Some((Some(price), at + 17))
    } else {
        assert forall|c: Option<u128>| !stands_at(
            bytes@,
            at as int,
            #[trigger] ceiling_encoding(c),
        ) by {
            let e = ceiling_encoding(c);
            if stands_at(bytes@, at as int, e) {
                assert(e[0] == bytes@.subrange(at as int, at + e.len())[0]);
            }
        }
        None
    }
}

impl PoolData {
    /// Encodes the window.
    pub fn to_bytes(&self) -> (out: Vec<u8>)
        ensures
            out@ == self.encoding(),
    {
        let mut out: Vec<u8> = u64_to_le_bytes(self.last_slot);
        write_ceiling(&mut out, self.buying_x_high);
        write_ceiling(&mut out, self.buying_y_high);
        out.push(self.precision);
        assert(out@ =~= self.encoding());
        out
    }

    /// Decodes a window: the one that `bytes` encodes, or `None` where
    /// `bytes` is the encoding of no window.
    pub fn from_bytes(bytes: &[u8]) -> (r: Option<PoolData>)
        ensures
            forall|data: PoolData| #[trigger] data.encoding() == bytes@ ==> r == Some(data),
            r matches Some(data) ==> data.encoding() == bytes@,
    {
        proof {
            lemma_auto_spec_u64_to_from_le_bytes();
            assert forall|data: PoolData| #[trigger] data.encoding() == bytes@ implies bytes@.len()
                >= 11 by {
                lemma_encoding_parts(data);
            }
        }
        if bytes.len() < 8 {
            return None;
        }
        let last_slot: u64 = u64_from_le_bytes(slice_subrange(bytes, 0, 8));
        let (buying_x_high, after_x): (Option<u128>, usize) = match read_ceiling(bytes, 8) {
            Some(read) => read,
            None => {
                assert forall|data: PoolData| #[trigger] data.encoding() == bytes@ implies false by {
                    lemma_encoding_parts(data);
                }
                return None;
            },
        };
        let (buying_y_high, after_y): (Option<u128>, usize) = match read_ceiling(bytes, after_x) {
            Some(read) => read,
            None => {
                assert forall|data: PoolData| #[trigger] data.encoding() == bytes@ implies false by {
                    lemma_encoding_parts(data);
                    lemma_one_ceiling_stands(bytes@, 8, buying_x_high, data.buying_x_high);
                }
                return None;
            },
        };
        if bytes.len() - after_y != 1 {
            assert forall|data: PoolData| #[trigger] data.encoding() == bytes@ implies false by {
                lemma_encoding_parts(data);
                lemma_one_ceiling_stands(bytes@, 8, buying_x_high, data.buying_x_high);
                lemma_one_ceiling_stands(bytes@, after_x as int, buying_y_high, data.buying_y_high);
            }
            return None;
        }
        let precision: u8 = bytes[after_y];
        let read = PoolData { last_slot, buying_x_high, buying_y_high, precision };
        proof {
            assert(spec_u64_to_le_bytes(last_slot) == bytes@.subrange(0, 8));
            assert(read.encoding() =~= bytes@) by {
                assert(bytes@ =~= bytes@.subrange(0, 8) + bytes@.subrange(8, after_x as int)
                    + bytes@.subrange(after_x as int, after_y as int) + seq![precision]);
            }
            assert forall|data: PoolData| #[trigger] data.encoding() == bytes@ implies data
                == read by {
                lemma_encoding_is_injective(data, read);
            }
        }
        Some(read)
    }
}

/// The length of an encoded configuration.
pub const CONFIG_LEN: usize = 107;

/// The encoding of a flag.
pub open spec fn flag_encoding(flag: bool) -> Seq<u8> {
    if flag {
        seq![1u8]
    } else {
        seq![0u8]
    }
}

impl Config {
    /// The encoding of the configuration: the seed, the authority, the fee,
    /// the two assets, the lock.
    pub open spec fn encoding(self) -> Seq<u8> {
        spec_u64_to_le_bytes(self.seed) + self.authority.bytes@ + spec_u16_to_le_bytes(self.fee)
            + self.mint_x.bytes@ + self.mint_y.bytes@ + flag_encoding(self.locked)
    }
}

/// Where the parts of an encoded configuration stand.
proof fn lemma_config_parts(config: Config)
    ensures
        ({
            let e = config.encoding();
            &&& e.len() == CONFIG_LEN
            &&& e.subrange(0, 8) == spec_u64_to_le_bytes(config.seed)
            &&& e.subrange(8, 40) == config.authority.bytes@
            &&& e.subrange(40, 42) == spec_u16_to_le_bytes(config.fee)
            &&& e.subrange(42, 74) == config.mint_x.bytes@
            &&& e.subrange(74, 106) == config.mint_y.bytes@
            &&& e[106] == if config.locked {
                1u8
            } else {
                0u8
            }
        }),
{
    lemma_auto_spec_u64_to_from_le_bytes();
    lemma_auto_spec_u16_to_from_le_bytes();
    let e = config.encoding();
    assert(e.len() == 107);
    assert(e.subrange(0, 8) =~= spec_u64_to_le_bytes(config.seed));
    assert(e.subrange(8, 40) =~= config.authority.bytes@);
    assert(e.subrange(40, 42) =~= spec_u16_to_le_bytes(config.fee));
    assert(e.subrange(42, 74) =~= config.mint_x.bytes@);
    assert(e.subrange(74, 106) =~= config.mint_y.bytes@);
}

/// Every configuration has an encoding of `CONFIG_LEN` bytes.
pub proof fn lemma_config_encoding_len(config: Config)
    ensures
        config.encoding().len() == CONFIG_LEN,
{
    lemma_config_parts(config);
}

/// Two configurations with the same encoding are the same.
pub proof fn lemma_config_encoding_is_injective(a: Config, b: Config)
    requires
        a.encoding() == b.encoding(),
    ensures
        a == b,
{
    lemma_auto_spec_u64_to_from_le_bytes();
    lemma_auto_spec_u16_to_from_le_bytes();
    lemma_config_parts(a);
    lemma_config_parts(b);
    assert(spec_u64_from_le_bytes(spec_u64_to_le_bytes(a.seed)) == a.seed);
    assert(spec_u64_from_le_bytes(spec_u64_to_le_bytes(b.seed)) == b.seed);
    assert(spec_u16_from_le_bytes(spec_u16_to_le_bytes(a.fee)) == a.fee);
    assert(spec_u16_from_le_bytes(spec_u16_to_le_bytes(b.fee)) == b.fee);
    assert(a.authority.bytes =~= b.authority.bytes);
    assert(a.mint_x.bytes =~= b.mint_x.bytes);
    assert(a.mint_y.bytes =~= b.mint_y.bytes);
}

fn write_address(out: &mut Vec<u8>, address: &Address)
    ensures
        final(out)@ == old(out)@ + address.bytes@,
{
    let mut i: usize = 0;
    while i < 32
        invariant
            i <= 32,
            out@ == old(out)@ + address.bytes@.subrange(0, i as int),
        decreases 32 - i,
    {
        out.push(address.bytes[i]);
        assert(address.bytes@.subrange(0, i + 1) =~= address.bytes@.subrange(0, i as int).push(
            address.bytes@[i as int],
        ));
        i = i + 1;
    }
    assert(address.bytes@.subrange(0, 32) =~= address.bytes@);
}

fn read_address(bytes: &[u8], at: usize) -> (r: Address)
    requires
        at + 32 <= bytes@.len(),
    ensures
        r.bytes@ == bytes@.subrange(at as int, at + 32),
{
    let len: usize = bytes.len();
    let mut read: [u8; 32] = [0u8;32];
    let mut i: usize = 0;
    while i < 32
        invariant
            i <= 32,
            at + 32 <= len == bytes@.len(),
            forall|j: int| 0 <= j < i ==> read@[j] == bytes@[at + j],
        decreases 32 - i,
    {
        read[i] = bytes[at + i];
        i = i + 1;
    }
    assert(read@ =~= bytes@.subrange(at as int, at + 32));
    Address { bytes: read }
}

impl Config {
    /// Encodes the configuration.
    pub fn to_bytes(&self) -> (out: Vec<u8>)
        ensures
            out@ == self.encoding(),
    {
        let mut out: Vec<u8> = u64_to_le_bytes(self.seed);
        write_address(&mut out, &self.authority);
        let mut fee: Vec<u8> = u16_to_le_bytes(self.fee);
        out.append(&mut fee);
        write_address(&mut out, &self.mint_x);
        write_address(&mut out, &self.mint_y);
        out.push(
            if self.locked {
                1
            } else {
                0
            },
        );
        assert(out@ =~= self.encoding());
        out
    }

    /// Decodes a configuration: the one that `bytes` encodes, or `None`
    /// where `bytes` is the encoding of no configuration.
    pub fn from_bytes(bytes: &[u8]) -> (r: Option<Config>)
        ensures
            forall|config: Config| #[trigger] config.encoding() == bytes@ ==> r == Some(config),
            r matches Some(config) ==> config.encoding() == bytes@,
    {
        proof {
            lemma_auto_spec_u64_to_from_le_bytes();
            lemma_auto_spec_u16_to_from_le_bytes();
            assert forall|config: Config| #[trigger] config.encoding() == bytes@ implies bytes@.len()
                == CONFIG_LEN && bytes@[106] <= 1 by {
                lemma_config_parts(config);
            }
        }
        if bytes.len() != CONFIG_LEN || bytes[106] > 1 {
            return None;
        }
        let read = Config {
            seed: u64_from_le_bytes(slice_subrange(bytes, 0, 8)),
            authority: read_address(bytes, 8),
            fee: u16_from_le_bytes(slice_subrange(bytes, 40, 42)),
            mint_x: read_address(bytes, 42),
            mint_y: read_address(bytes, 74),
            locked: bytes[106] == 1,
        };
        proof {
            assert(read.encoding() =~= bytes@) by {
                assert(bytes@ =~= bytes@.subrange(0, 8) + bytes@.subrange(8, 40) + bytes@.subrange(
                    40,
                    42,
                ) + bytes@.subrange(42, 74) + bytes@.subrange(74, 106) + seq![bytes@[106]]);
            }
            assert forall|config: Config| #[trigger] config.encoding() == bytes@ implies config
                == read by {
                lemma_config_encoding_is_injective(config, read);
            }
        }
        Some(read)
    }
}

} // verus!
