//! Tests of the content generator: keystream masking, its round trip,
//! payload lengths and the deterministic record encoding.
use nanorand::WyRand;
use patternities::cipher::cipher_code;
use patternities::cipher::generate_random_iv;
use patternities::cipher::generate_random_key;
use patternities::hashing::fnv64;
use patternities::hashing::Fnv1aHasher;
use patternities::hashing::PatternHasher;
use patternities::pallet::Config;
use patternities::pallet::Pallet;
use patternities::seed::encode_seed;
use patternities::seed::PatternSeed;

fn small_template() -> Vec<u8> {
    vec![10, 9, 9, 9, 9, 9, 117, 115, 101, 32, 116, 105, 110, 121, 95, 115, 107, 105, 97, 58]
}

#[test]
fn cipher_round_trip_recovers_template() {
    let key: [u8; 16] = [
        0x4b, 0x8e, 0x29, 0x87, 0x80, 0x95, 0x96, 0xa3, 0xbb, 0x23, 0x82, 0x49, 0x9f, 0x1c, 0xe7,
        0xc2,
    ];
    let iv: [u8; 8] = [0x3c, 0x1d, 0xbb, 0x05, 0xe3, 0xca, 0x60, 0xd9];
    let text = small_template();
    let cipher = cipher_code(key, iv, &text);
    assert_eq!(cipher.len(), text.len());
    // the mask really changes the bytes: a cipher that handed its input
    // back unchanged would fail here
    assert_ne!(cipher, text);
    let recovered = cipher_code(key, iv, &cipher);
    assert_eq!(recovered, text);
}

#[test]
fn round_trip_from_minted_record() {
    let config = Config {
        max_patternity_owned: 5,
        max_byte_cipher: 64,
        text_base: small_template(),
    };
    let mut pallet = Pallet::new(config);
    let mut rng = WyRand::new_seed(42);
    let hasher = Fnv1aHasher;
    let id = pallet
        .create_pattern(&mut rng, &hasher, 1, None)
        .expect("mint");
    let record = pallet.patternity(id).expect("stored");
    assert_eq!(record.cipher.len(), small_template().len());
    let recovered = cipher_code(record.key, record.iv, &record.cipher);
    assert_eq!(recovered, small_template());
}

#[test]
fn payload_length_is_constant_across_mints() {
    let config = Config {
        max_patternity_owned: 5,
        max_byte_cipher: 64,
        text_base: small_template(),
    };
    let mut pallet = Pallet::new(config);
    let mut rng = WyRand::new_seed(7);
    let hasher = Fnv1aHasher;
    let a = pallet
        .create_pattern(&mut rng, &hasher, 1, None)
        .expect("mint a");
    let b = pallet
        .create_pattern(&mut rng, &hasher, 2, Some(3))
        .expect("mint b");
    assert_ne!(a, b);
    assert_eq!(pallet.patternity(a).unwrap().cipher.len(), 20);
    assert_eq!(pallet.patternity(b).unwrap().cipher.len(), 20);
}

#[test]
fn full_size_template_round_trips() {
    let text: Vec<u8> = (0..2000u32).map(|i| (i % 251) as u8).collect();
    let config = Config {
        max_patternity_owned: 2,
        max_byte_cipher: 2000,
        text_base: text.clone(),
    };
    let mut pallet = Pallet::new(config);
    let mut rng = WyRand::new_seed(8);
    let hasher = Fnv1aHasher;
    let id = pallet
        .create_pattern(&mut rng, &hasher, 3, None)
        .expect("mint");
    let record = pallet.patternity(id).expect("stored");
    assert_eq!(record.cipher.len(), 2000);
    assert_ne!(record.cipher, text);
    assert_eq!(cipher_code(record.key, record.iv, &record.cipher), text);
}

#[test]
fn empty_template_gives_empty_payload() {
    let key = [0u8; 16];
    let iv = [1u8; 8];
    let empty: Vec<u8> = Vec::new();
    let cipher = cipher_code(key, iv, &empty);
    assert!(cipher.is_empty());
}

#[test]
fn key_and_iv_generation_is_seed_deterministic() {
    let mut rng_a = WyRand::new_seed(99);
    let mut rng_b = WyRand::new_seed(99);
    let key_a = generate_random_key(&mut rng_a);
    let key_b = generate_random_key(&mut rng_b);
    assert_eq!(key_a, key_b);
    let iv_a = generate_random_iv(&mut rng_a);
    let iv_b = generate_random_iv(&mut rng_b);
    assert_eq!(iv_a, iv_b);
    // drawing again moves the generator on
    let key_c = generate_random_key(&mut rng_a);
    assert_ne!(key_a, key_c);
}

#[test]
fn encoding_separates_records() {
    let seed_a = PatternSeed {
        key: [0u8; 16],
        iv: [0u8; 8],
        cipher: vec![1, 2, 3],
        price: None,
        owner: 1,
    };
    let seed_b = PatternSeed {
        key: [0u8; 16],
        iv: [0u8; 8],
        cipher: vec![1, 2, 3],
        price: None,
        owner: 2,
    };
    let bytes_a = encode_seed(&seed_a);
    let bytes_b = encode_seed(&seed_b);
    assert_ne!(bytes_a, bytes_b);
    // key, iv, payload length, payload, price tag, owner
    assert_eq!(bytes_a.len(), 16 + 8 + 8 + 3 + 1 + 8);
    let hasher = Fnv1aHasher;
    assert_eq!(hasher.hash_of(&seed_a), hasher.hash_of(&seed_a));
    assert_ne!(hasher.hash_of(&seed_a), hasher.hash_of(&seed_b));
}

#[test]
fn fnv64_matches_known_values() {
    // FNV-1a 64-bit of the empty input is the offset basis
    let empty: Vec<u8> = Vec::new();
    assert_eq!(fnv64(&empty), 0xcbf29ce484222325);
    // and of "a": (basis ^ 0x61) * prime, truncated to 64 bits
    let a = vec![0x61u8];
    assert_eq!(fnv64(&a), 0xaf63dc4c8601ec8c);
}
