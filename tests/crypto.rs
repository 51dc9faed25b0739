use sha2::Digest;
use wallet_backend::crypto::{
    calculate_checksum, encode_stellar_public, encode_stellar_secret, generate_stellar_keypair,
    mask_string, validate_stellar_address,
};

fn expected_address(version: u8, key: &[u8; 32]) -> String {
    let mut data = vec![version];
    data.extend_from_slice(key);
    let first = sha2::Sha256::digest(&data);
    let second = sha2::Sha256::digest(first);
    data.extend_from_slice(&second[..2]);
    base32::encode(base32::Alphabet::RFC4648 { padding: false }, &data)
}

#[test]
fn test_mask_string() {
    assert_eq!(mask_string("1234567890", 4), "******7890");
    assert_eq!(mask_string("123", 4), "***");
}

#[test]
fn test_validate_stellar_address() {
    assert!(validate_stellar_address("GABC...").is_ok());
    assert!(!validate_stellar_address("SABC...").unwrap());
}

#[test]
fn mask_string_edge_cases() {
    assert_eq!(mask_string("", 4), "");
    assert_eq!(mask_string("1234", 4), "****");
    assert_eq!(mask_string("12345", 4), "*2345");
    assert_eq!(mask_string("ñandú-cuenta", 3), "*********nta");
    assert_eq!(mask_string("abc", 0), "***");
}

#[test]
fn validate_accepts_account_shape_only() {
    let address = encode_stellar_public(&[7u8; 32]);
    assert!(validate_stellar_address(&address).unwrap());
    let seed = encode_stellar_secret(&[7u8; 32]);
    assert!(!validate_stellar_address(&seed).unwrap());
    let short: String = address.chars().take(55).collect();
    assert!(!validate_stellar_address(&short).unwrap());
    assert!(!validate_stellar_address("").unwrap());
}

#[test]
fn checksum_is_start_of_double_sha256() {
    let data = b"wallet".to_vec();
    let first = sha2::Sha256::digest(&data);
    let second = sha2::Sha256::digest(first);
    assert_eq!(calculate_checksum(&data), second[..2].to_vec());
    assert_eq!(calculate_checksum(&[]).len(), 2);
}

#[test]
fn public_address_matches_reference_encoding() {
    let key = [0u8; 32];
    let address = encode_stellar_public(&key);
    assert_eq!(address, expected_address(48, &key));
    assert_eq!(address.len(), 56);
    assert!(address.starts_with('G'));
    assert!(address[1..52].chars().all(|c| c == 'A'));
}

#[test]
fn seed_matches_reference_encoding() {
    let mut key = [0u8; 32];
    for (i, b) in key.iter_mut().enumerate() {
        *b = (i * 37 + 5) as u8;
    }
    let seed = encode_stellar_secret(&key);
    assert_eq!(seed, expected_address(144, &key));
    assert_eq!(seed.len(), 56);
    assert!(seed.starts_with('S'));
}

#[test]
fn every_key_gives_56_characters_starting_with_g() {
    for fill in [0u8, 1, 0x7f, 0x80, 0xff] {
        let address = encode_stellar_public(&[fill; 32]);
        assert_eq!(address.chars().count(), 56);
        assert!(address.starts_with('G'));
    }
}

#[test]
fn flipping_one_bit_changes_checksum_suffix() {
    let key = [0x5au8; 32];
    let base = encode_stellar_public(&key);
    for byte in [0usize, 13, 31] {
        for bit in [0u8, 3, 7] {
            let mut flipped = key;
            flipped[byte] ^= 1 << bit;
            let other = encode_stellar_public(&flipped);
            assert_ne!(other, base);
            assert_ne!(other[52..], base[52..]);
        }
    }
}

#[test]
fn generated_keypair_is_consistent() {
    let (public, secret) = generate_stellar_keypair();
    assert_eq!(public.len(), 56);
    assert_eq!(secret.len(), 56);
    assert!(public.starts_with('G'));
    assert!(secret.starts_with('S'));
    let raw = base32::decode(base32::Alphabet::RFC4648 { padding: false }, &secret).unwrap();
    assert_eq!(raw[0], 144);
    let sk = ed25519_dalek::SecretKey::from_bytes(&raw[1..33]).unwrap();
    let pk = ed25519_dalek::PublicKey::from(&sk);
    assert_eq!(encode_stellar_public(pk.as_bytes()), public);
    let (public2, _) = generate_stellar_keypair();
    assert_ne!(public, public2);
}
