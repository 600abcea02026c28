//! The pattern record: key, IV, generated payload, optional ask price and
//! owner, together with its canonical byte encoding. The encoding is what
//! the hashing collaborator identifies a record by at mint time.
use vstd::prelude::*;
use crate::AccountId;

verus! {

/// One minted pattern: the symmetric key and IV that generated it, the
/// masked payload, the optional ask price, and the owning account.
pub struct PatternSeed {
    pub key: [u8; 16],
    pub iv: [u8; 8],
    pub cipher: Vec<u8>,
    pub price: Option<u64>,
    pub owner: AccountId,
}

/// The eight little-endian bytes of `x`.
pub open spec fn u64_le_bytes(x: u64) -> Seq<u8> {
    seq![
        (x % 256) as u8,
        ((x / 256) % 256) as u8,
        ((x / 65536) % 256) as u8,
        ((x / 16777216) % 256) as u8,
        ((x / 4294967296) % 256) as u8,
        ((x / 1099511627776) % 256) as u8,
        ((x / 281474976710656) % 256) as u8,
        ((x / 72057594037927936) % 256) as u8,
    ]
}

/// A tag byte telling an absent price from a present one, then the
/// price's bytes when present.
pub open spec fn price_bytes(price: Option<u64>) -> Seq<u8> {
    match price {
        Option::None => seq![0u8],
        Option::Some(v) => seq![1u8] + u64_le_bytes(v),
    }
}

/// The canonical serialization of a record: key, IV, payload length,
/// payload, price and owner, in that order.
pub open spec fn encoded_seed(seed: PatternSeed) -> Seq<u8> {
    seed.key@ + seed.iv@ + u64_le_bytes(seed.cipher@.len() as u64) + seed.cipher@ + price_bytes(
        seed.price,
    ) + u64_le_bytes(seed.owner)
}

fn push_u64_le(out: &mut Vec<u8>, x: u64)
    ensures
        final(out)@ == old(out)@ + u64_le_bytes(x),
{
    out.push((x % 256) as u8);
    out.push(((x / 256) % 256) as u8);
    out.push(((x / 65536) % 256) as u8);
    out.push(((x / 16777216) % 256) as u8);
    out.push(((x / 4294967296) % 256) as u8);
    out.push(((x / 1099511627776) % 256) as u8);
    out.push(((x / 281474976710656) % 256) as u8);
    out.push(((x / 72057594037927936) % 256) as u8);
    assert(out@ =~= old(out)@ + u64_le_bytes(x));
}

/// The canonical bytes of `seed`, as `encoded_seed` lays them out.
pub fn encode_seed(seed: &PatternSeed) -> (r: Vec<u8>)
    ensures
        r@ == encoded_seed(*seed),
{
    let mut out: Vec<u8> = Vec::new();
    let mut i: usize = 0;
    while i < 16
        invariant
            0 <= i <= 16,
            out@ == seed.key@.take(i as int),
        decreases 16 - i,
    {
        out.push(seed.key[i]);
        i = i + 1;
    }
    assert(out@ =~= seed.key@);
    let ghost after_key = out@;
    i = 0;
    while i < 8
        invariant
            0 <= i <= 8,
            out@ == after_key + seed.iv@.take(i as int),
        decreases 8 - i,
    {
        out.push(seed.iv[i]);
        i = i + 1;
    }
    assert(out@ =~= seed.key@ + seed.iv@);
    push_u64_le(&mut out, seed.cipher.len() as u64);
    let ghost after_len = out@;
    i = 0;
    while i < seed.cipher.len()
        invariant
            0 <= i <= seed.cipher@.len(),
            out@ == after_len + seed.cipher@.take(i as int),
        decreases seed.cipher@.len() - i,
    {
        out.push(seed.cipher[i]);
        i = i + 1;
    }
    assert(out@ =~= after_len + seed.cipher@);
    match seed.price {
        Option::None => {
            out.push(0u8);
        },
        Option::Some(v) => {
            out.push(1u8);
            push_u64_le(&mut out, v);
        },
    }
    push_u64_le(&mut out, seed.owner);
    assert(out@ =~= encoded_seed(*seed));
    out
}

} // verus!
