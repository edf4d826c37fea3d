//! The error taxonomy of the ledger core. Every failure is a typed value
//! returned to the caller; no function of this library panics.

use vstd::prelude::*;

verus! {

/// Why an identifier string could not be decoded back to a public key.
#[derive(Clone, Copy, Debug, PartialEq, Eq, Structural)]
pub enum DecodeError {
    /// The string does not begin with the `did:key:` scheme marker followed
    /// by the base58btc multibase marker.
    MissingPrefix,
    /// The remainder of the string is not a valid base58btc encoding.
    InvalidBase58,
    /// The decoded bytes are not exactly a two-byte tag plus a 32-byte key.
    InvalidLength,
    /// The decoded bytes do not begin with the Ed25519 multicodec tag.
    InvalidTag,
}

/// Why a signed transaction failed verification. Each variant names the
/// check that failed, in the fixed order the verifier runs them.
#[derive(Clone, Copy, Debug, PartialEq, Eq, Structural)]
pub enum VerificationError {
    /// Recovering the author's public key from `author_did` failed.
    IdentityError(DecodeError),
    /// The stored signature is not a hex string of exactly 64 bytes.
    SignatureFormatError,
    /// The cryptographic check failed: the payload was tampered with or the
    /// signature was made under a different key (indistinguishable by design).
    SignatureInvalidError,
    /// Some entry's debit or credit is not a well-formed decimal amount.
    AmountFormatError,
    /// Total debits differ from total credits. The totals are reported in
    /// minor units of one ten-thousandth of a whole unit.
    ImbalanceError { total_debits: u128, total_credits: u128 },
}

} // verus!
