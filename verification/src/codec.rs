//! The identifier codec: a public key is carried as a self-describing
//! string, `did:key:` followed by the base58btc multibase marker `z` and
//! the base58 encoding of the Ed25519 multicodec tag `0xED 0x01` plus the
//! 32 raw key bytes. Decoding strips and checks each layer and reports a
//! distinct error for each way the string can be malformed.

use vstd::prelude::*;
use vstd::string::*;

use crate::errors::DecodeError;

verus! {

/// What multibase's base58btc decoder yields on a string: `Some` of the
/// denoted bytes exactly when the string is a valid base58btc encoding.
pub uninterp spec fn b58_bytes_of(s: Seq<char>) -> Option<Seq<u8>>;

/// Relies on `multibase::Base::Base58Btc.encode` and `.decode` being
/// mutually inverse: decoding an encoder output yields the encoder input.
#[verifier::external_body]
fn base58btc_encode(d: &Vec<u8>) -> (r: String)
    ensures
        b58_bytes_of(r@) == Some(d@),
{
    multibase::Base::Base58Btc.encode(d.as_slice())
}

/// Relies on `multibase::Base::Base58Btc.decode`: it fails exactly on
/// strings that are not valid base58btc, and otherwise yields the bytes
/// the string denotes.
#[verifier::external_body]
fn base58btc_decode(s: &str) -> (r: Option<Vec<u8>>)
    ensures
        r is Some <==> b58_bytes_of(s@) is Some,
        r matches Some(v) ==> b58_bytes_of(s@) == Some(v@),
{
    match multibase::Base::Base58Btc.decode(s) {
        Ok(d) => Some(d),
        Err(_) => None,
    }
}

/// The scheme marker every identifier starts with, multibase marker
/// included.
pub open spec fn did_marker() -> Seq<char> {
    "did:key:z"@
}

/// The two-byte multicodec tag for an Ed25519 public key.
pub open spec fn multicodec_tag() -> Seq<u8> {
    seq![0xedu8, 0x01u8]
}

/// Does the string carry exactly the public key `pk`: the scheme marker,
/// then a base58btc string denoting the Ed25519 tag plus the key bytes?
pub open spec fn valid_did_for(s: Seq<char>, pk: Seq<u8>) -> bool {
    &&& s.len() >= 9
    &&& s.take(9) == did_marker()
    &&& b58_bytes_of(s.skip(9)) == Some(multicodec_tag() + pk)
}

/// What decoding an identifier yields, layer by layer: the marker is
/// checked, the remainder is base58-decoded, and the decoded bytes must be
/// the Ed25519 tag followed by exactly 32 key bytes.
pub open spec fn spec_decode_identifier(s: Seq<char>) -> Result<Seq<u8>, DecodeError> {
    if !(s.len() >= 9 && s.take(9) == did_marker()) {
        Err(DecodeError::MissingPrefix)
    } else {
        match b58_bytes_of(s.skip(9)) {
            None => Err(DecodeError::InvalidBase58),
            Some(d) => if d.len() != 34 {
                Err(DecodeError::InvalidLength)
            } else if !(d[0] == 0xed && d[1] == 0x01) {
                Err(DecodeError::InvalidTag)
            } else {
                Ok(d.skip(2))
            },
        }
    }
}

/// Round-trip: an identifier that carries a 32-byte public key decodes to
/// exactly that key.
pub proof fn lemma_identifier_round_trip(s: Seq<char>, pk: Seq<u8>)
    requires
        pk.len() == 32,
        valid_did_for(s, pk),
    ensures
        spec_decode_identifier(s) == Ok::<Seq<u8>, DecodeError>(pk),
{
    let d = multicodec_tag() + pk;
    assert(d.len() == 34);
    assert(d[0] == 0xed && d[1] == 0x01);
    assert(d.skip(2) =~= pk);
}

/// Encodes a 32-byte Ed25519 public key as its `did:key` identifier,
/// which decodes back to exactly that key.
pub fn public_key_to_did(pk: &Vec<u8>) -> (r: String)
    requires
        pk@.len() == 32,
    ensures
        valid_did_for(r@, pk@),
        spec_decode_identifier(r@) == Ok::<Seq<u8>, DecodeError>(pk@),
{
    let mut tagged: Vec<u8> = Vec::new();
    tagged.push(0xed);
    tagged.push(0x01);
    tagged.extend_from_slice(pk.as_slice());
    proof {
        assert(tagged@ =~= multicodec_tag() + pk@);
    }
    let encoded = base58btc_encode(&tagged);
    let mut out = String::from_str("did:key:z");
    out.append(encoded.as_str());
    proof {
        reveal_strlit("did:key:z");
        assert(out@.take(9) =~= did_marker());
        assert(out@.skip(9) =~= encoded@);
        lemma_identifier_round_trip(out@, pk@);
    }
    out
}

/// Recovers the Ed25519 public key carried by a `did:key` identifier, or
/// says which layer of the encoding is malformed.
pub fn did_to_public_key(s: &str) -> (r: Result<Vec<u8>, DecodeError>)
    ensures
        r matches Ok(pk) ==> spec_decode_identifier(s@) == Ok::<Seq<u8>, DecodeError>(pk@)
            && pk@.len() == 32 && valid_did_for(s@, pk@),
        r matches Err(e) ==> spec_decode_identifier(s@) == Err::<Seq<u8>, DecodeError>(e),
{
    let n: usize = s.unicode_len();
    let marker = "did:key:z";
    proof {
        reveal_strlit("did:key:z");
    }
    if n < 9 {
        return Err(DecodeError::MissingPrefix);
    }
    let mut i: usize = 0;
    while i < 9
        invariant
            i <= 9,
            n == s@.len(),
            n >= 9,
            marker@ == did_marker(),
            did_marker().len() == 9,
            forall|j: int| 0 <= j < i ==> s@[j] == did_marker()[j],
        decreases 9 - i,
    {
        if s.get_char(i) != marker.get_char(i) {
            proof {
                assert(s@.take(9)[i as int] != did_marker()[i as int]);
            }
            return Err(DecodeError::MissingPrefix);
        }
        i = i + 1;
    }
    proof {
        assert(s@.take(9) =~= did_marker());
    }
    let rest = s.substring_char(9, n);
    proof {
        assert(rest@ =~= s@.skip(9));
    }
    match base58btc_decode(rest) {
        None => Err(DecodeError::InvalidBase58),
        Some(d) => {
            if d.len() != 34 {
                Err(DecodeError::InvalidLength)
            } else if !(d[0] == 0xed && d[1] == 0x01) {
                Err(DecodeError::InvalidTag)
            } else {
                let mut pk: Vec<u8> = Vec::new();
                let mut k: usize = 2;
                while k < 34
                    invariant
                        2 <= k <= 34,
                        d@.len() == 34,
                        pk@ =~= d@.subrange(2, k as int),
                    decreases 34 - k,
                {
                    pk.push(d[k]);
                    k = k + 1;
                }
                proof {
                    assert(pk@ =~= d@.skip(2));
                    assert(d@ =~= multicodec_tag() + pk@);
                }
                Ok(pk)
            }
        },
    }
}

} // verus!
