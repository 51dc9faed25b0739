//! Address codec: versioned, checksummed base32 text for raw ed25519 keys,
//! plus the masking and address-shape helpers used around it.
use vstd::prelude::*;

use crate::error::AppError;

verus! {

/// Version byte of an account (public key) address: `6 << 3`.
pub const ACCOUNT_VERSION_BYTE: u8 = 48;

/// Version byte of a seed (secret key): `18 << 3`.
pub const SEED_VERSION_BYTE: u8 = 144;

/// Number of characters of an encoded address or seed.
pub const ADDRESS_LENGTH: usize = 56;

/// The RFC 4648 base32 digit of a 5-bit value.
pub open spec fn base32_digit(v: u16) -> char {
    if v < 26 {
        (65 + v) as char
    } else {
        (50 + (v - 26)) as char
    }
}

/// The `i`-th group of five bits of `data`, most significant bit first,
/// with zero bits past the end.
pub open spec fn five_bits(data: Seq<u8>, i: int) -> u16 {
    let bit = 5 * i;
    let b = bit / 8;
    let lo: u8 = if b + 1 < data.len() {
        data[b + 1]
    } else {
        0
    };
    let window: u16 = ((data[b] as u16) << 8u16) | (lo as u16);
    (window >> ((11 - bit % 8) as u16)) & 31u16
}

/// Length of the unpadded base32 text of `n` bytes.
pub open spec fn base32_len(n: nat) -> nat {
    (8 * n + 4) / 5
}

/// Unpadded RFC 4648 base32 text of `data`.
pub open spec fn base32_of(data: Seq<u8>) -> Seq<char> {
    Seq::new(base32_len(data.len()), |i: int| base32_digit(five_bits(data, i)))
}

/// SHA-256 digest of `data`.
pub uninterp spec fn sha256_of(data: Seq<u8>) -> Seq<u8>;

/// The two checksum bytes of `data`: the start of `SHA-256(SHA-256(data))`.
pub open spec fn checksum_of(data: Seq<u8>) -> Seq<u8> {
    let h = sha256_of(sha256_of(data));
    seq![h[0], h[1]]
}

/// Version byte, key, then the checksum of both.
pub open spec fn address_payload(version: u8, key: Seq<u8>) -> Seq<u8> {
    let body = seq![version] + key;
    body + checksum_of(body)
}

/// The text form of `key` under `version`.
pub open spec fn encoded_address(version: u8, key: Seq<u8>) -> Seq<char> {
    base32_of(address_payload(version, key))
}

/// Public key derived from a 32-byte ed25519 secret key.
pub uninterp spec fn ed25519_public_of(secret: Seq<u8>) -> Seq<u8>;

/// Relies on `sha2::Sha256::digest`: the SHA-256 digest of `data`, 32 bytes.
#[verifier::external_body]
fn sha256(data: &[u8]) -> (r: Vec<u8>)
    ensures
        r@ == sha256_of(data@),
        r@.len() == 32,
{
    <sha2::Sha256 as sha2::Digest>::digest(data).to_vec()
}

/// Relies on `base32::encode` with the RFC 4648 alphabet and no padding:
/// each group of five bits becomes one digit, the last group filled with zero bits.
#[verifier::external_body]
fn base32_encode(data: &[u8]) -> (r: String)
    ensures
        r@ == base32_of(data@),
{
    base32::encode(base32::Alphabet::RFC4648 { padding: false }, data)
}

/// Relies on `ed25519_dalek::SecretKey::generate` fed by `rand::rngs::OsRng`:
/// 32 bytes from the operating system's generator.
#[verifier::external_body]
fn random_secret_key() -> (r: [u8; 32]) {
    *ed25519_dalek::SecretKey::generate(&mut rand::rngs::OsRng).as_bytes()
}

/// Relies on `ed25519_dalek::PublicKey::from(&SecretKey)`: the public key that
/// belongs to a secret key, a function of the secret's bytes alone.
/// `SecretKey::from_bytes` fails only on a length other than 32.
#[verifier::external_body]
fn derive_public_key(secret: &[u8; 32]) -> (r: [u8; 32])
    ensures
        r@ == ed25519_public_of(secret@),
{
    let sk = ed25519_dalek::SecretKey::from_bytes(secret).unwrap();
    *ed25519_dalek::PublicKey::from(&sk).as_bytes()
}

/// The two checksum bytes of `data`.
pub fn calculate_checksum(data: &[u8]) -> (r: Vec<u8>)
    ensures
        r@ == checksum_of(data@),
{
    let first = sha256(data);
    let second = sha256(first.as_slice());
    let mut out: Vec<u8> = Vec::new();
    out.push(second[0]);
    out.push(second[1]);
    assert(out@ =~= checksum_of(data@));
    out
}

fn encode_with_version(version: u8, key: &[u8; 32]) -> (r: String)
    ensures
        r@ == encoded_address(version, key@),
{
    let mut data: Vec<u8> = Vec::new();
    data.push(version);
    let mut i: usize = 0;
    while i < 32
        invariant
            i <= 32,
            key@.len() == 32,
            data@ =~= seq![version] + key@.subrange(0, i as int),
        decreases 32 - i,
    {
        data.push(key[i]);
        i = i + 1;
        assert(data@ =~= seq![version] + key@.subrange(0, i as int));
    }
    assert(key@.subrange(0, 32) =~= key@);
    let checksum = calculate_checksum(data.as_slice());
    data.push(checksum[0]);
    data.push(checksum[1]);
    assert(data@ =~= address_payload(version, key@));
    base32_encode(data.as_slice())
}

/// Address of an account (public) key: it starts with `G`.
pub fn encode_stellar_public(key: &[u8; 32]) -> (r: String)
    ensures
        r@ == encoded_address(ACCOUNT_VERSION_BYTE, key@),
{
    encode_with_version(ACCOUNT_VERSION_BYTE, key)
}

/// Text form of a seed (secret key): it starts with `S`.
pub fn encode_stellar_secret(key: &[u8; 32]) -> (r: String)
    ensures
        r@ == encoded_address(SEED_VERSION_BYTE, key@),
{
    encode_with_version(SEED_VERSION_BYTE, key)
}

/// A fresh keypair: the account address of the public key and the seed text
/// of the secret key it was derived from.
pub fn generate_stellar_keypair() -> (r: (String, String))
    ensures
        exists|s: Seq<u8>|
            s.len() == 32 && r.0@ == encoded_address(ACCOUNT_VERSION_BYTE, ed25519_public_of(s))
                && r.1@ == encoded_address(SEED_VERSION_BYTE, s),
{
    let secret = random_secret_key();
    let public = derive_public_key(&secret);
    let public_text = encode_stellar_public(&public);
    let secret_text = encode_stellar_secret(&secret);
    assert(secret@.len() == 32);
    (public_text, secret_text)
}

/// Every 32-byte key encodes to 56 characters, starting with `G` for an
/// account and with `S` for a seed.
pub proof fn lemma_address_shape(key: Seq<u8>)
    requires
        key.len() == 32,
    ensures
        encoded_address(ACCOUNT_VERSION_BYTE, key).len() == ADDRESS_LENGTH,
        encoded_address(ACCOUNT_VERSION_BYTE, key)[0] == 'G',
        encoded_address(SEED_VERSION_BYTE, key).len() == ADDRESS_LENGTH,
        encoded_address(SEED_VERSION_BYTE, key)[0] == 'S',
{
    let pa = address_payload(ACCOUNT_VERSION_BYTE, key);
    let ps = address_payload(SEED_VERSION_BYTE, key);
    assert(pa.len() == 35 && pa[0] == 48);
    assert(ps.len() == 35 && ps[0] == 144);
    let la = pa[1];
    let ls = ps[1];
    assert((((48u8 as u16) << 8u16 | (la as u16)) >> 11u16) & 31u16 == 6) by (bit_vector);
    assert((((144u8 as u16) << 8u16 | (ls as u16)) >> 11u16) & 31u16 == 18) by (bit_vector);
    assert(five_bits(pa, 0) == 6);
    assert(five_bits(ps, 0) == 18);
}

/// Bytes `5c .. 5c + 5` of `d` as one 40-bit number, first byte highest.
pub open spec fn chunk_value(d: Seq<u8>, c: int) -> u64 {
    ((d[5 * c] as u64) << 32u64) | ((d[5 * c + 1] as u64) << 24u64) | ((d[5 * c + 2] as u64)
        << 16u64) | ((d[5 * c + 3] as u64) << 8u64) | (d[5 * c + 4] as u64)
}

proof fn lemma_chunk_groups(b0: u8, b1: u8, b2: u8, b3: u8, b4: u8, next: u8, x: u64)
    requires
        x == ((b0 as u64) << 32u64) | ((b1 as u64) << 24u64) | ((b2 as u64) << 16u64) | ((
        b3 as u64) << 8u64) | (b4 as u64),
    ensures
        (((((b0 as u16) << 8u16) | (b1 as u16)) >> 11u16) & 31u16) as u64 == (x >> 35u64) & 31u64,
        (((((b0 as u16) << 8u16) | (b1 as u16)) >> 6u16) & 31u16) as u64 == (x >> 30u64) & 31u64,
        (((((b1 as u16) << 8u16) | (b2 as u16)) >> 9u16) & 31u16) as u64 == (x >> 25u64) & 31u64,
        (((((b1 as u16) << 8u16) | (b2 as u16)) >> 4u16) & 31u16) as u64 == (x >> 20u64) & 31u64,
        (((((b2 as u16) << 8u16) | (b3 as u16)) >> 7u16) & 31u16) as u64 == (x >> 15u64) & 31u64,
        (((((b3 as u16) << 8u16) | (b4 as u16)) >> 10u16) & 31u16) as u64 == (x >> 10u64) & 31u64,
        (((((b3 as u16) << 8u16) | (b4 as u16)) >> 5u16) & 31u16) as u64 == (x >> 5u64) & 31u64,
        (((((b4 as u16) << 8u16) | (next as u16)) >> 8u16) & 31u16) as u64 == x & 31u64,
{
    assert((((((b0 as u16) << 8u16) | (b1 as u16)) >> 11u16) & 31u16) as u64 == (x >> 35u64)
        & 31u64) by (bit_vector)
        requires
            x == ((b0 as u64) << 32u64) | ((b1 as u64) << 24u64) | ((b2 as u64) << 16u64) | ((
            b3 as u64) << 8u64) | (b4 as u64),
    ;
    assert((((((b0 as u16) << 8u16) | (b1 as u16)) >> 6u16) & 31u16) as u64 == (x >> 30u64)
        & 31u64) by (bit_vector)
        requires
            x == ((b0 as u64) << 32u64) | ((b1 as u64) << 24u64) | ((b2 as u64) << 16u64) | ((
            b3 as u64) << 8u64) | (b4 as u64),
    ;
    assert((((((b1 as u16) << 8u16) | (b2 as u16)) >> 9u16) & 31u16) as u64 == (x >> 25u64)
        & 31u64) by (bit_vector)
        requires
            x == ((b0 as u64) << 32u64) | ((b1 as u64) << 24u64) | ((b2 as u64) << 16u64) | ((
            b3 as u64) << 8u64) | (b4 as u64),
    ;
    assert((((((b1 as u16) << 8u16) | (b2 as u16)) >> 4u16) & 31u16) as u64 == (x >> 20u64)
        & 31u64) by (bit_vector)
        requires
            x == ((b0 as u64) << 32u64) | ((b1 as u64) << 24u64) | ((b2 as u64) << 16u64) | ((
            b3 as u64) << 8u64) | (b4 as u64),
    ;
    assert((((((b2 as u16) << 8u16) | (b3 as u16)) >> 7u16) & 31u16) as u64 == (x >> 15u64)
        & 31u64) by (bit_vector)
        requires
            x == ((b0 as u64) << 32u64) | ((b1 as u64) << 24u64) | ((b2 as u64) << 16u64) | ((
            b3 as u64) << 8u64) | (b4 as u64),
    ;
    assert((((((b3 as u16) << 8u16) | (b4 as u16)) >> 10u16) & 31u16) as u64 == (x >> 10u64)
        & 31u64) by (bit_vector)
        requires
            x == ((b0 as u64) << 32u64) | ((b1 as u64) << 24u64) | ((b2 as u64) << 16u64) | ((
            b3 as u64) << 8u64) | (b4 as u64),
    ;
    assert((((((b3 as u16) << 8u16) | (b4 as u16)) >> 5u16) & 31u16) as u64 == (x >> 5u64)
        & 31u64) by (bit_vector)
        requires
            x == ((b0 as u64) << 32u64) | ((b1 as u64) << 24u64) | ((b2 as u64) << 16u64) | ((
            b3 as u64) << 8u64) | (b4 as u64),
    ;
    assert((((((b4 as u16) << 8u16) | (next as u16)) >> 8u16) & 31u16) as u64 == x & 31u64)
        by (bit_vector)
        requires
            x == ((b0 as u64) << 32u64) | ((b1 as u64) << 24u64) | ((b2 as u64) << 16u64) | ((
            b3 as u64) << 8u64) | (b4 as u64),
    ;
}

proof fn lemma_chunk_bytes(x: u64, b0: u8, b1: u8, b2: u8, b3: u8, b4: u8)
    requires
        x == ((b0 as u64) << 32u64) | ((b1 as u64) << 24u64) | ((b2 as u64) << 16u64) | ((
        b3 as u64) << 8u64) | (b4 as u64),
    ensures
        b0 == ((x >> 32u64) & 255u64) as u8,
        b1 == ((x >> 24u64) & 255u64) as u8,
        b2 == ((x >> 16u64) & 255u64) as u8,
        b3 == ((x >> 8u64) & 255u64) as u8,
        b4 == (x & 255u64) as u8,
{
    assert(b0 == ((x >> 32u64) & 255u64) as u8 && b1 == ((x >> 24u64) & 255u64) as u8 && b2 == ((
    x >> 16u64) & 255u64) as u8 && b3 == ((x >> 8u64) & 255u64) as u8 && b4 == (x & 255u64) as u8)
        by (bit_vector)
        requires
            x == ((b0 as u64) << 32u64) | ((b1 as u64) << 24u64) | ((b2 as u64) << 16u64) | ((
            b3 as u64) << 8u64) | (b4 as u64),
    ;
}

proof fn lemma_fields_determine(x: u64, y: u64)
    requires
        x < 0x100_0000_0000u64,
        y < 0x100_0000_0000u64,
        (x >> 35u64) & 31u64 == (y >> 35u64) & 31u64,
        (x >> 30u64) & 31u64 == (y >> 30u64) & 31u64,
        (x >> 25u64) & 31u64 == (y >> 25u64) & 31u64,
        (x >> 20u64) & 31u64 == (y >> 20u64) & 31u64,
        (x >> 15u64) & 31u64 == (y >> 15u64) & 31u64,
        (x >> 10u64) & 31u64 == (y >> 10u64) & 31u64,
        (x >> 5u64) & 31u64 == (y >> 5u64) & 31u64,
        x & 31u64 == y & 31u64,
    ensures
        x == y,
{
    assert(x == y) by (bit_vector)
        requires
            x < 0x100_0000_0000u64,
            y < 0x100_0000_0000u64,
            (x >> 35u64) & 31u64 == (y >> 35u64) & 31u64,
            (x >> 30u64) & 31u64 == (y >> 30u64) & 31u64,
            (x >> 25u64) & 31u64 == (y >> 25u64) & 31u64,
            (x >> 20u64) & 31u64 == (y >> 20u64) & 31u64,
            (x >> 15u64) & 31u64 == (y >> 15u64) & 31u64,
            (x >> 10u64) & 31u64 == (y >> 10u64) & 31u64,
            (x >> 5u64) & 31u64 == (y >> 5u64) & 31u64,
            x & 31u64 == y & 31u64,
    ;
}

proof fn lemma_chunk_value_bound(d: Seq<u8>, c: int)
    requires
        0 <= c,
        5 * c + 4 < d.len(),
    ensures
        chunk_value(d, c) < 0x100_0000_0000u64,
{
    let (b0, b1, b2, b3, b4) = (d[5 * c], d[5 * c + 1], d[5 * c + 2], d[5 * c + 3], d[5 * c + 4]);
    assert((((b0 as u64) << 32u64) | ((b1 as u64) << 24u64) | ((b2 as u64) << 16u64) | ((
    b3 as u64) << 8u64) | (b4 as u64)) < 0x100_0000_0000u64) by (bit_vector);
}

proof fn lemma_digit_injective(v: u16, w: u16)
    requires
        v < 32,
        w < 32,
        base32_digit(v) == base32_digit(w),
    ensures
        v == w,
{
}

proof fn lemma_five_bits_bound(d: Seq<u8>, i: int)
    ensures
        five_bits(d, i) < 32,
{
    let bit = 5 * i;
    let b = bit / 8;
    let lo: u8 = if b + 1 < d.len() {
        d[b + 1]
    } else {
        0
    };
    let window: u16 = ((d[b] as u16) << 8u16) | (lo as u16);
    let shift = (11 - bit % 8) as u16;
    assert(((window >> shift) & 31u16) < 32u16) by (bit_vector);
}

proof fn lemma_same_group(d1: Seq<u8>, d2: Seq<u8>, i: int)
    requires
        d1.len() == d2.len(),
        0 <= i < base32_len(d1.len()),
        base32_of(d1)[i] == base32_of(d2)[i],
    ensures
        five_bits(d1, i) == five_bits(d2, i),
{
    assert(base32_of(d1)[i] == base32_digit(five_bits(d1, i)));
    assert(base32_of(d2)[i] == base32_digit(five_bits(d2, i)));
    lemma_five_bits_bound(d1, i);
    lemma_five_bits_bound(d2, i);
    lemma_digit_injective(five_bits(d1, i), five_bits(d2, i));
}

/// Equal base32 text of equally long data of whole 5-byte chunks means
/// equal data.
proof fn lemma_base32_injective(d1: Seq<u8>, d2: Seq<u8>)
    requires
        d1.len() == d2.len(),
        d1.len() % 5 == 0,
        base32_of(d1) == base32_of(d2),
    ensures
        d1 == d2,
{
    let n = d1.len();
    assert forall|j: int| 0 <= j < n implies d1[j] == d2[j] by {
        let c = j / 5;
        assert(0 <= c && 5 * c + 4 < n);
        let x1 = chunk_value(d1, c);
        let x2 = chunk_value(d2, c);
        let nx1: u8 = if 5 * c + 5 < n { d1[5 * c + 5] } else { 0 };
        let nx2: u8 = if 5 * c + 5 < n { d2[5 * c + 5] } else { 0 };
        lemma_chunk_groups(d1[5 * c], d1[5 * c + 1], d1[5 * c + 2], d1[5 * c + 3], d1[5 * c + 4], nx1, x1);
        lemma_chunk_groups(d2[5 * c], d2[5 * c + 1], d2[5 * c + 2], d2[5 * c + 3], d2[5 * c + 4], nx2, x2);
        assert(base32_len(n) >= 8 * c + 8) by {
            assert(n == 5 * (n / 5));
        }
        lemma_same_group(d1, d2, 8 * c);
        lemma_same_group(d1, d2, 8 * c + 1);
        lemma_same_group(d1, d2, 8 * c + 2);
        lemma_same_group(d1, d2, 8 * c + 3);
        lemma_same_group(d1, d2, 8 * c + 4);
        lemma_same_group(d1, d2, 8 * c + 5);
        lemma_same_group(d1, d2, 8 * c + 6);
        lemma_same_group(d1, d2, 8 * c + 7);
        assert(five_bits(d1, 8 * c) as u64 == (x1 >> 35u64) & 31u64);
        assert(five_bits(d1, 8 * c + 1) as u64 == (x1 >> 30u64) & 31u64);
        assert(five_bits(d1, 8 * c + 2) as u64 == (x1 >> 25u64) & 31u64);
        assert(five_bits(d1, 8 * c + 3) as u64 == (x1 >> 20u64) & 31u64);
        assert(five_bits(d1, 8 * c + 4) as u64 == (x1 >> 15u64) & 31u64);
        assert(five_bits(d1, 8 * c + 5) as u64 == (x1 >> 10u64) & 31u64);
        assert(five_bits(d1, 8 * c + 6) as u64 == (x1 >> 5u64) & 31u64);
        assert(five_bits(d1, 8 * c + 7) as u64 == x1 & 31u64);
        assert(five_bits(d2, 8 * c) as u64 == (x2 >> 35u64) & 31u64);
        assert(five_bits(d2, 8 * c + 1) as u64 == (x2 >> 30u64) & 31u64);
        assert(five_bits(d2, 8 * c + 2) as u64 == (x2 >> 25u64) & 31u64);
        assert(five_bits(d2, 8 * c + 3) as u64 == (x2 >> 20u64) & 31u64);
        assert(five_bits(d2, 8 * c + 4) as u64 == (x2 >> 15u64) & 31u64);
        assert(five_bits(d2, 8 * c + 5) as u64 == (x2 >> 10u64) & 31u64);
        assert(five_bits(d2, 8 * c + 6) as u64 == (x2 >> 5u64) & 31u64);
        assert(five_bits(d2, 8 * c + 7) as u64 == x2 & 31u64);
        lemma_chunk_value_bound(d1, c);
        lemma_chunk_value_bound(d2, c);
        lemma_fields_determine(x1, x2);
        lemma_chunk_bytes(x1, d1[5 * c], d1[5 * c + 1], d1[5 * c + 2], d1[5 * c + 3], d1[5 * c + 4]);
        lemma_chunk_bytes(x2, d2[5 * c], d2[5 * c + 1], d2[5 * c + 2], d2[5 * c + 3], d2[5 * c + 4]);
    }
    assert(d1 =~= d2);
}

proof fn lemma_low_fields_determine(x: u64, y: u64)
    requires
        (x >> 15u64) & 31u64 == (y >> 15u64) & 31u64,
        (x >> 10u64) & 31u64 == (y >> 10u64) & 31u64,
        (x >> 5u64) & 31u64 == (y >> 5u64) & 31u64,
        x & 31u64 == y & 31u64,
    ensures
        (x >> 8u64) & 255u64 == (y >> 8u64) & 255u64,
        x & 255u64 == y & 255u64,
{
    assert((x >> 8u64) & 255u64 == (y >> 8u64) & 255u64 && x & 255u64 == y & 255u64)
        by (bit_vector)
        requires
            (x >> 15u64) & 31u64 == (y >> 15u64) & 31u64,
            (x >> 10u64) & 31u64 == (y >> 10u64) & 31u64,
            (x >> 5u64) & 31u64 == (y >> 5u64) & 31u64,
            x & 31u64 == y & 31u64,
    ;
}

/// When two keys' checksums differ, so do the last four characters of their
/// encodings: those characters carry the checksum's sixteen bits.
pub proof fn lemma_checksum_change_shows_in_suffix(version: u8, k1: Seq<u8>, k2: Seq<u8>)
    requires
        k1.len() == 32,
        k2.len() == 32,
        checksum_of(seq![version] + k1) != checksum_of(seq![version] + k2),
    ensures
        encoded_address(version, k1).subrange(52, 56) != encoded_address(version, k2).subrange(
            52,
            56,
        ),
{
    let p1 = address_payload(version, k1);
    let p2 = address_payload(version, k2);
    let e1 = encoded_address(version, k1);
    let e2 = encoded_address(version, k2);
    if e1.subrange(52, 56) == e2.subrange(52, 56) {
        assert(p1.len() == 35 && p2.len() == 35);
        assert(base32_len(35) == 56);
        assert(e1[52] == e1.subrange(52, 56)[0] && e2[52] == e2.subrange(52, 56)[0]);
        assert(e1[53] == e1.subrange(52, 56)[1] && e2[53] == e2.subrange(52, 56)[1]);
        assert(e1[54] == e1.subrange(52, 56)[2] && e2[54] == e2.subrange(52, 56)[2]);
        assert(e1[55] == e1.subrange(52, 56)[3] && e2[55] == e2.subrange(52, 56)[3]);
        lemma_same_group(p1, p2, 52);
        lemma_same_group(p1, p2, 53);
        lemma_same_group(p1, p2, 54);
        lemma_same_group(p1, p2, 55);
        let x1 = chunk_value(p1, 6);
        let x2 = chunk_value(p2, 6);
        lemma_chunk_groups(p1[30], p1[31], p1[32], p1[33], p1[34], 0, x1);
        lemma_chunk_groups(p2[30], p2[31], p2[32], p2[33], p2[34], 0, x2);
        assert(five_bits(p1, 52) as u64 == (x1 >> 15u64) & 31u64);
        assert(five_bits(p1, 53) as u64 == (x1 >> 10u64) & 31u64);
        assert(five_bits(p1, 54) as u64 == (x1 >> 5u64) & 31u64);
        assert(five_bits(p1, 55) as u64 == x1 & 31u64);
        assert(five_bits(p2, 52) as u64 == (x2 >> 15u64) & 31u64);
        assert(five_bits(p2, 53) as u64 == (x2 >> 10u64) & 31u64);
        assert(five_bits(p2, 54) as u64 == (x2 >> 5u64) & 31u64);
        assert(five_bits(p2, 55) as u64 == x2 & 31u64);
        lemma_low_fields_determine(x1, x2);
        lemma_chunk_bytes(x1, p1[30], p1[31], p1[32], p1[33], p1[34]);
        lemma_chunk_bytes(x2, p2[30], p2[31], p2[32], p2[33], p2[34]);
        assert(checksum_of(seq![version] + k1) =~= p1.subrange(33, 35));
        assert(checksum_of(seq![version] + k2) =~= p2.subrange(33, 35));
        assert(p1.subrange(33, 35) =~= p2.subrange(33, 35));
    }
}

/// Two different 32-byte keys never share an encoding: changing any bit of a
/// key changes its address. (Whether the change reaches the checksum digits
/// rests on SHA-256 and is not stated here.)
pub proof fn lemma_distinct_keys_distinct_addresses(version: u8, k1: Seq<u8>, k2: Seq<u8>)
    requires
        k1.len() == 32,
        k2.len() == 32,
        k1 != k2,
    ensures
        encoded_address(version, k1) != encoded_address(version, k2),
{
    let p1 = address_payload(version, k1);
    let p2 = address_payload(version, k2);
    if encoded_address(version, k1) == encoded_address(version, k2) {
        assert(p1.len() == 35 && p2.len() == 35);
        lemma_base32_injective(p1, p2);
        assert(k1 =~= p1.subrange(1, 33));
        assert(k2 =~= p2.subrange(1, 33));
    }
}

/// `n` asterisks.
pub open spec fn stars(n: nat) -> Seq<char> {
    Seq::new(n, |_i: int| '*')
}

/// `s` with all but its last `visible` characters replaced by asterisks;
/// all of it when it is no longer than `visible`.
pub open spec fn masked(s: Seq<char>, visible: nat) -> Seq<char> {
    if s.len() <= visible {
        stars(s.len())
    } else {
        stars((s.len() - visible) as nat) + s.subrange(s.len() - visible, s.len() as int)
    }
}

/// Appends `n` asterisks to `out`.
pub fn push_stars(out: &mut String, n: usize)
    ensures
        final(out)@ == old(out)@ + stars(n as nat),
{
    proof {
        reveal_strlit("*");
    }
    let mut i: usize = 0;
    while i < n
        invariant
            i <= n,
            "*"@ == seq!['*'],
            out@ == old(out)@ + stars(i as nat),
        decreases n - i,
    {
        out.append("*");
        i = i + 1;
        assert(out@ =~= old(out)@ + stars(i as nat));
    }
}

/// Hides all but the last `visible_chars` characters of `s`.
pub fn mask_string(s: &str, visible_chars: usize) -> (r: String)
    ensures
        r@ == masked(s@, visible_chars as nat),
{
    let n = s.unicode_len();
    let mut out = String::new();
    if n <= visible_chars {
        push_stars(&mut out, n);
        assert(out@ =~= masked(s@, visible_chars as nat));
    } else {
        push_stars(&mut out, n - visible_chars);
        let tail = s.substring_char(n - visible_chars, n);
        out.append(tail);
        assert(out@ =~= masked(s@, visible_chars as nat));
    }
    out
}

/// Whether `address` has the shape of an account address: 56 characters
/// starting with `G`. No checksum is checked.
pub open spec fn has_account_address_shape(address: Seq<char>) -> bool {
    address.len() == ADDRESS_LENGTH && address[0] == 'G'
}

/// Tells whether `address` has the shape of an account address; never fails.
pub fn validate_stellar_address(address: &str) -> (r: Result<bool, AppError>)
    ensures
        r == Ok::<bool, AppError>(has_account_address_shape(address@)),
{
    let n = address.unicode_len();
    if n != ADDRESS_LENGTH {
        return Ok(false);
    }
    let first = address.get_char(0);
    Ok(first == 'G')
}

} // verus!
