//! Content generation: a fresh key and IV drawn from a caller-supplied
//! randomness source, and an opaque payload derived by masking a fixed
//! text template with the Enocoro-128 v2 keystream seeded by that key
//! and IV. The masking is self-inverse, so any holder of the stored key
//! and IV can recover the template from the payload.
use vstd::prelude::*;
use enocoro128v2::Enocoro128;
use nanorand::Rng;
use nanorand::WyRand;

verus! {

/// Byte `i` of the Enocoro-128 v2 keystream that `key` and `iv` determine.
/// The stream depends on the key and IV alone; nothing further is assumed
/// about its values.
pub uninterp spec fn keystream_byte(key: Seq<u8>, iv: Seq<u8>, i: int) -> u8;

/// Declares enocoro128v2::Enocoro128, the stream-cipher instance, as an
/// opaque outside type: it only carries keystream state between draws.
#[verifier::external_type_specification]
#[verifier::external_body]
pub struct ExEnocoro128(Enocoro128);

/// Declares nanorand::WyRand, the caller-supplied randomness source, as
/// an opaque outside type.
#[verifier::external_type_specification]
#[verifier::external_body]
pub struct ExWyRand(WyRand);

/// Relies on enocoro128v2::Enocoro128::apply_keystream_static: XORs the
/// buffer in place, byte by byte, with the keystream that the key and IV
/// alone determine (a fresh cipher instance is made on every call, so the
/// stream always starts at byte 0).
#[verifier::external_body]
fn apply_keystream(key: &[u8; 16], iv: &[u8; 8], buf: &mut Vec<u8>)
    ensures
        final(buf)@.len() == old(buf)@.len(),
        forall|i: int|
            0 <= i < old(buf)@.len() ==> final(buf)@[i] == (old(buf)@[i] ^ keystream_byte(
                key@,
                iv@,
                i,
            )),
{
    Enocoro128::apply_keystream_static(key, iv, buf.as_mut_slice());
}

/// Relies on enocoro128v2::Enocoro128::new: builds a cipher instance from
/// the key and IV. The instance is opaque here; it only serves to draw
/// pseudorandom bytes.
#[verifier::external_body]
fn enocoro_new(key: &[u8; 16], iv: &[u8; 8]) -> Enocoro128 {
    Enocoro128::new(key, iv)
}

/// Relies on enocoro128v2::Enocoro128::rand_u8: the next keystream byte.
/// It is used only as a pseudorandom value, so nothing is assumed of it.
#[verifier::external_body]
fn enocoro_u8(e128: &mut Enocoro128) -> u8 {
    e128.rand_u8()
}

/// Relies on nanorand::Rng::generate::<u8> on WyRand: one byte from a
/// non-cryptographic generator. Nothing is assumed of its value.
#[verifier::external_body]
fn wyrand_u8(rng: &mut WyRand) -> u8 {
    rng.generate::<u8>()
}

/// `text` masked byte by byte with the keystream of `(key, iv)`.
pub open spec fn masked_bytes(key: Seq<u8>, iv: Seq<u8>, text: Seq<u8>) -> Seq<u8> {
    Seq::new(text.len(), |i: int| text[i] ^ keystream_byte(key, iv, i))
}

/// Masking with the same key and IV twice gives the original bytes back:
/// the keystream mask is self-inverse, so a payload made from the text
/// template yields that template again under the same key and IV.
pub proof fn lemma_mask_round_trip(key: Seq<u8>, iv: Seq<u8>, text: Seq<u8>)
    ensures
        masked_bytes(key, iv, masked_bytes(key, iv, text)) == text,
{
    let twice = masked_bytes(key, iv, masked_bytes(key, iv, text));
    assert forall|i: int| 0 <= i < text.len() implies twice[i] == text[i] by {
        let t = text[i];
        let k = keystream_byte(key, iv, i);
        assert(((t ^ k) ^ k) == t) by (bit_vector);
    }
    assert(twice =~= text);
}

/// A fresh 16-byte key: random bytes drawn from the caller's generator,
/// whitened through an Enocoro-128 v2 instance, as the content generator
/// mints them. The result is a pseudorandom value; nothing is promised
/// of it.
pub fn generate_random_key(rng: &mut WyRand) -> [u8; 16] {
    let key: [u8; 16] = [
        wyrand_u8(rng),
        wyrand_u8(rng),
        wyrand_u8(rng),
        wyrand_u8(rng),
        wyrand_u8(rng),
        wyrand_u8(rng),
        wyrand_u8(rng),
        wyrand_u8(rng),
        wyrand_u8(rng),
        wyrand_u8(rng),
        wyrand_u8(rng),
        wyrand_u8(rng),
        wyrand_u8(rng),
        wyrand_u8(rng),
        wyrand_u8(rng),
        wyrand_u8(rng),
    ];
    let iv: [u8; 8] = [
        wyrand_u8(rng),
        wyrand_u8(rng),
        wyrand_u8(rng),
        wyrand_u8(rng),
        wyrand_u8(rng),
        wyrand_u8(rng),
        wyrand_u8(rng),
        wyrand_u8(rng),
    ];
    let mut e128 = enocoro_new(&key, &iv);
    let ret: [u8; 16] = [
        enocoro_u8(&mut e128),
        enocoro_u8(&mut e128),
        enocoro_u8(&mut e128),
        enocoro_u8(&mut e128),
        enocoro_u8(&mut e128),
        enocoro_u8(&mut e128),
        enocoro_u8(&mut e128),
        enocoro_u8(&mut e128),
        enocoro_u8(&mut e128),
        enocoro_u8(&mut e128),
        enocoro_u8(&mut e128),
        enocoro_u8(&mut e128),
        enocoro_u8(&mut e128),
        enocoro_u8(&mut e128),
        enocoro_u8(&mut e128),
        enocoro_u8(&mut e128),
    ];
    ret
}

/// A fresh 8-byte IV, drawn and whitened the same way as the key.
pub fn generate_random_iv(rng: &mut WyRand) -> [u8; 8] {
    let key: [u8; 16] = [
        wyrand_u8(rng),
        wyrand_u8(rng),
        wyrand_u8(rng),
        wyrand_u8(rng),
        wyrand_u8(rng),
        wyrand_u8(rng),
        wyrand_u8(rng),
        wyrand_u8(rng),
        wyrand_u8(rng),
        wyrand_u8(rng),
        wyrand_u8(rng),
        wyrand_u8(rng),
        wyrand_u8(rng),
        wyrand_u8(rng),
        wyrand_u8(rng),
        wyrand_u8(rng),
    ];
    let iv: [u8; 8] = [
        wyrand_u8(rng),
        wyrand_u8(rng),
        wyrand_u8(rng),
        wyrand_u8(rng),
        wyrand_u8(rng),
        wyrand_u8(rng),
        wyrand_u8(rng),
        wyrand_u8(rng),
    ];
    let mut e128 = enocoro_new(&key, &iv);
    let ret: [u8; 8] = [
        enocoro_u8(&mut e128),
        enocoro_u8(&mut e128),
        enocoro_u8(&mut e128),
        enocoro_u8(&mut e128),
        enocoro_u8(&mut e128),
        enocoro_u8(&mut e128),
        enocoro_u8(&mut e128),
        enocoro_u8(&mut e128),
    ];
    ret
}

/// The opaque payload for `(key, iv)`: the text template masked with the
/// keystream. Applying the same function to its own result recovers the
/// template (`lemma_mask_round_trip`), and the payload length always
/// equals the template length.
pub fn cipher_code(key: [u8; 16], iv: [u8; 8], text_base: &Vec<u8>) -> (r: Vec<u8>)
    ensures
        r@ == masked_bytes(key@, iv@, text_base@),
        r@.len() == text_base@.len(),
{
    let mut msg: Vec<u8> = Vec::new();
    let mut i: usize = 0;
    while i < text_base.len()
        invariant
            0 <= i <= text_base@.len(),
            msg@ == text_base@.take(i as int),
        decreases text_base@.len() - i,
    {
        msg.push(text_base[i]);
        i = i + 1;
    }
    assert(msg@ =~= text_base@);
    apply_keystream(&key, &iv, &mut msg);
    assert(msg@ =~= masked_bytes(key@, iv@, text_base@));
    msg
}

} // verus!
