//! The hashing collaborator: a deterministic service that names a pattern
//! record by a hash of its canonical serialization. The host chooses the
//! implementation; `Fnv1aHasher` is a plain verified one over FNV-1a.
use vstd::prelude::*;
use crate::PatternId;
use crate::seed::PatternSeed;
use crate::seed::encode_seed;
use crate::seed::encoded_seed;

verus! {

/// A deterministic hashing service: two calls on equal records give equal
/// identifiers, and the identifier is a function of the record alone.
pub trait PatternHasher {
    /// The identifier this service assigns to a record.
    spec fn hash_spec(&self, seed: PatternSeed) -> PatternId;

    /// Computes the identifier of `seed`.
    fn hash_of(&self, seed: &PatternSeed) -> (r: PatternId)
        ensures
            r == self.hash_spec(*seed),
    ;
}

/// One FNV-1a update step: fold one byte into the running 64-bit state.
pub open spec fn fnv_update(h: u64, b: u8) -> u64 {
    ((((h ^ (b as u64)) as int) * 0x100000001b3) % 0x10000000000000000) as u64
}

/// The FNV-1a state after folding in the first `i` bytes.
pub open spec fn fnv_hash(bytes: Seq<u8>, i: int) -> u64
    decreases i,
{
    if i <= 0 {
        0xcbf29ce484222325u64
    } else {
        fnv_update(fnv_hash(bytes, i - 1), bytes[i - 1])
    }
}

/// The 64-bit FNV-1a digest of `bytes`.
pub fn fnv64(bytes: &Vec<u8>) -> (r: u64)
    ensures
        r == fnv_hash(bytes@, bytes@.len() as int),
{
    let mut h: u64 = 0xcbf29ce484222325;
    let mut i: usize = 0;
    while i < bytes.len()
        invariant
            0 <= i <= bytes@.len(),
            h == fnv_hash(bytes@, i as int),
        decreases bytes@.len() - i,
    {
        let x: u64 = h ^ (bytes[i] as u64);
        proof {
            assert((x as int) * 0x100000001b3 <= 0xffffffffffffffff * 0x100000001b3)
                by (nonlinear_arith)
                requires
                    x <= 0xffffffffffffffffu64,
            ;
        }
        let wide: u128 = (x as u128) * 0x100000001b3u128;
        h = (wide % 0x10000000000000000u128) as u64;
        i = i + 1;
    }
    h
}

/// The default hashing service: FNV-1a over the canonical record bytes.
pub struct Fnv1aHasher;

impl PatternHasher for Fnv1aHasher {
    open spec fn hash_spec(&self, seed: PatternSeed) -> PatternId {
        fnv_hash(encoded_seed(seed), encoded_seed(seed).len() as int)
    }

    fn hash_of(&self, seed: &PatternSeed) -> (r: PatternId) {
        let bytes = encode_seed(seed);
        fnv64(&bytes)
    }
}

} // verus!
