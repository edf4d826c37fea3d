//! The cryptographic primitives the ledger relies on: SHA-256 digests,
//! Ed25519 keys and signatures, hex encoding of signatures, and the secure
//! randomness that key generation consumes. The primitives themselves are
//! outside code; each is reached through one small trusted wrapper whose
//! contract states what its source shows, and everything around them is
//! verified.

use ed25519_dalek::Signer;
use rand::RngCore;
use sha2::Digest;
use vstd::prelude::*;

verus! {

/// The SHA-256 digest of a byte sequence; a function of the bytes alone.
pub uninterp spec fn sha256_of(bytes: Seq<u8>) -> Seq<u8>;

/// The Ed25519 public key derived from a 32-byte secret key.
pub uninterp spec fn ed25519_pub_of(sk: Seq<u8>) -> Seq<u8>;

/// The Ed25519 signature over `msg` under a 32-byte secret key. Ed25519
/// signing is deterministic, so this is a function of its arguments alone.
pub uninterp spec fn ed25519_sig_of(sk: Seq<u8>, msg: Seq<u8>) -> Seq<u8>;

/// Whether Ed25519 verification accepts `sig` as a signature over `msg`
/// under the public key `pk`; false whenever `pk` is not a valid 32-byte
/// key or `sig` is not 64 bytes long.
pub uninterp spec fn ed25519_verify_ok(pk: Seq<u8>, msg: Seq<u8>, sig: Seq<u8>) -> bool;

/// Is `c` an ASCII hexadecimal digit, either case?
pub open spec fn is_hex_digit(c: char) -> bool {
    (48 <= c as u32 && c as u32 <= 57) || (97 <= c as u32 && c as u32 <= 102) || (65 <= c as u32
        && c as u32 <= 70)
}

/// The numeric value of a hexadecimal digit.
pub open spec fn hex_digit_value(c: char) -> int {
    if 48 <= c as u32 && c as u32 <= 57 {
        c as u32 - 48
    } else if 97 <= c as u32 && c as u32 <= 102 {
        c as u32 - 87
    } else {
        c as u32 - 55
    }
}

/// Is `s` a well-formed hex string: even length, hex digits throughout?
pub open spec fn is_hex_str(s: Seq<char>) -> bool {
    s.len() % 2 == 0 && (forall|i: int| 0 <= i < s.len() ==> is_hex_digit(#[trigger] s[i]))
}

/// The bytes a well-formed hex string denotes, two digits per byte.
pub open spec fn hex_vals(s: Seq<char>) -> Seq<u8> {
    Seq::new(s.len() / 2, |i: int| (hex_digit_value(s[2 * i]) * 16 + hex_digit_value(s[2 * i + 1])) as u8)
}

/// The lowercase hexadecimal digit for a value below sixteen.
pub open spec fn hex_char_of(d: int) -> char {
    if d == 0 { '0' } else if d == 1 { '1' } else if d == 2 { '2' } else if d == 3 { '3' }
    else if d == 4 { '4' } else if d == 5 { '5' } else if d == 6 { '6' } else if d == 7 { '7' }
    else if d == 8 { '8' } else if d == 9 { '9' } else if d == 10 { 'a' } else if d == 11 { 'b' }
    else if d == 12 { 'c' } else if d == 13 { 'd' } else if d == 14 { 'e' } else { 'f' }
}

/// The lowercase hex encoding of a byte sequence, two digits per byte,
/// most significant nibble first.
pub open spec fn hex_of(b: Seq<u8>) -> Seq<char>
    decreases b.len(),
{
    if b.len() == 0 {
        Seq::empty()
    } else {
        hex_of(b.drop_last()) + seq![
            hex_char_of(b.last() as int / 16),
            hex_char_of(b.last() as int % 16),
        ]
    }
}

/// A hex digit's character is a hex digit and decodes to its value.
proof fn lemma_hex_char_of_value(d: int)
    requires
        0 <= d < 16,
    ensures
        is_hex_digit(hex_char_of(d)),
        hex_digit_value(hex_char_of(d)) == d,
{
}

/// Decoding inverts encoding: the hex string of any byte sequence is
/// well-formed and denotes exactly those bytes.
pub proof fn lemma_hex_round_trip(b: Seq<u8>)
    ensures
        hex_of(b).len() == 2 * b.len(),
        is_hex_str(hex_of(b)),
        hex_vals(hex_of(b)) == b,
    decreases b.len(),
{
    if b.len() == 0 {
        assert(hex_vals(hex_of(b)) =~= b);
    } else {
        let front = b.drop_last();
        lemma_hex_round_trip(front);
        let s = hex_of(b);
        let hi = hex_char_of(b.last() as int / 16);
        let lo = hex_char_of(b.last() as int % 16);
        lemma_hex_char_of_value(b.last() as int / 16);
        lemma_hex_char_of_value(b.last() as int % 16);
        assert forall|i: int| 0 <= i < s.len() implies is_hex_digit(#[trigger] s[i]) by {
            if i < hex_of(front).len() {
                assert(s[i] == hex_of(front)[i]);
            } else if i == s.len() - 2 {
                assert(s[i] == hi);
            } else {
                assert(s[i] == lo);
            }
        }
        assert forall|i: int| 0 <= i < b.len() implies hex_vals(s)[i] == b[i] by {
            if i < front.len() {
                assert(s[2 * i] == hex_of(front)[2 * i]);
                assert(s[2 * i + 1] == hex_of(front)[2 * i + 1]);
                assert(hex_vals(hex_of(front))[i] == front[i]);
            } else {
                assert(s[2 * i] == hi);
                assert(s[2 * i + 1] == lo);
            }
        }
        assert(hex_vals(s) =~= b);
    }
}

/// Relies on `hex::encode`: lowercase output, two digits per byte, most
/// significant nibble first.
#[verifier::external_body]
pub(crate) fn hex_encode(b: &Vec<u8>) -> (r: String)
    ensures
        r@ == hex_of(b@),
{
    hex::encode(b.as_slice())
}

/// Relies on `hex::decode`: it succeeds exactly on strings of even length
/// made of hex digits of either case, and then yields their bytes.
#[verifier::external_body]
pub(crate) fn hex_decode(s: &str) -> (r: Option<Vec<u8>>)
    ensures
        r is Some <==> is_hex_str(s@),
        r matches Some(v) ==> v@ == hex_vals(s@),
{
    match hex::decode(s) {
        Ok(v) => Some(v),
        Err(_) => None,
    }
}

/// Relies on `sha2::Sha256`: a deterministic 32-byte digest of the input.
#[verifier::external_body]
pub(crate) fn sha256(bytes: &Vec<u8>) -> (r: Vec<u8>)
    ensures
        r@ == sha256_of(bytes@),
        r@.len() == 32,
{
    let mut hasher = sha2::Sha256::new();
    hasher.update(bytes.as_slice());
    hasher.finalize().to_vec()
}

/// Relies on `rand::rngs::OsRng`: fills a buffer from the operating
/// system's secure randomness source. Nothing is promised of the value
/// beyond its length.
#[verifier::external_body]
pub(crate) fn random_secret_bytes() -> (r: Vec<u8>)
    ensures
        r@.len() == 32,
{
    let mut buf = [0u8; 32];
    rand::rngs::OsRng.fill_bytes(&mut buf);
    buf.to_vec()
}

/// Relies on `ed25519_dalek::SigningKey::from_bytes` (any 32 bytes form a
/// secret key) and `verifying_key`: the public key is derived from the
/// secret key alone and is 32 bytes long.
#[verifier::external_body]
pub(crate) fn ed25519_derive_public(sk: &Vec<u8>) -> (r: Vec<u8>)
    requires
        sk@.len() == 32,
    ensures
        r@ == ed25519_pub_of(sk@),
        r@.len() == 32,
{
    let arr: [u8; 32] = sk.as_slice().try_into().unwrap();
    let key = ed25519_dalek::SigningKey::from_bytes(&arr);
    key.verifying_key().to_bytes().to_vec()
}

/// Relies on `ed25519_dalek::SigningKey` and its `Signer` impl: signing is
/// deterministic (RFC 8032), yields 64 bytes, and an honestly produced
/// signature verifies under the corresponding public key.
#[verifier::external_body]
pub(crate) fn ed25519_sign(sk: &Vec<u8>, msg: &Vec<u8>) -> (r: Vec<u8>)
    requires
        sk@.len() == 32,
    ensures
        r@ == ed25519_sig_of(sk@, msg@),
        r@.len() == 64,
        ed25519_verify_ok(ed25519_pub_of(sk@), msg@, r@),
{
    let arr: [u8; 32] = sk.as_slice().try_into().unwrap();
    let key = ed25519_dalek::SigningKey::from_bytes(&arr);
    key.sign(msg.as_slice()).to_bytes().to_vec()
}

/// Relies on `ed25519_dalek::VerifyingKey::from_bytes`,
/// `Signature::from_bytes` and `Verifier::verify`: acceptance is a
/// deterministic function of the key bytes, the message and the signature;
/// a key or signature of the wrong length, or an invalid key encoding, is
/// never accepted.
#[verifier::external_body]
pub(crate) fn ed25519_verify(pk: &Vec<u8>, msg: &Vec<u8>, sig: &Vec<u8>) -> (r: bool)
    ensures
        r == ed25519_verify_ok(pk@, msg@, sig@),
{
    let pk_arr: [u8; 32] = match pk.as_slice().try_into() {
        Ok(a) => a,
        Err(_) => return false,
    };
    let key = match ed25519_dalek::VerifyingKey::from_bytes(&pk_arr) {
        Ok(k) => k,
        Err(_) => return false,
    };
    let sig_arr: [u8; 64] = match sig.as_slice().try_into() {
        Ok(a) => a,
        Err(_) => return false,
    };
    let signature = ed25519_dalek::Signature::from_bytes(&sig_arr);
    ed25519_dalek::Verifier::verify(&key, msg.as_slice(), &signature).is_ok()
}

} // verus!
