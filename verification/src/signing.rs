//! Identities and signing. An account holds a 32-byte Ed25519 signing key
//! and the `did:key` identifier derived from its public key; signing a
//! transaction hashes its canonical bytes and stores the hex-encoded
//! detached signature beside the payload.

use vstd::prelude::*;

use crate::canon::tx_digest;
use crate::codec::public_key_to_did;
use crate::codec::valid_did_for;
use crate::crypto::ed25519_derive_public;
use crate::crypto::ed25519_pub_of;
use crate::crypto::ed25519_sig_of;
use crate::crypto::ed25519_sign;
use crate::crypto::ed25519_verify_ok;
use crate::crypto::hex_encode;
use crate::crypto::hex_of;
use crate::crypto::random_secret_bytes;
use crate::model::SignedTransaction;
use crate::model::Transaction;

verus! {

/// A key pair owner: the private signing key, which never leaves the
/// producing process, and the public `did:key` identifier embedded in
/// every transaction the account authors.
pub struct Account {
    pub signing_key: Vec<u8>,
    pub did: String,
}

impl Account {
    /// A well-formed account: a 32-byte signing key whose derived public
    /// key is exactly the one the identifier carries.
    pub open spec fn wf(self) -> bool {
        &&& self.signing_key@.len() == 32
        &&& valid_did_for(self.did@, ed25519_pub_of(self.signing_key@))
    }

    /// Generates a new account from the secure randomness source and
    /// derives its identifier.
    pub fn new() -> (r: Account)
        ensures
            r.wf(),
    {
        let signing_key = random_secret_bytes();
        let public_key = ed25519_derive_public(&signing_key);
        let did = public_key_to_did(&public_key);
        Account { signing_key, did }
    }

    /// The public verification key derived from this account's signing
    /// key; for a well-formed account it is the key the identifier
    /// carries.
    pub fn public_key(&self) -> (r: Vec<u8>)
        requires
            self.signing_key@.len() == 32,
        ensures
            r@ == ed25519_pub_of(self.signing_key@),
            r@.len() == 32,
    {
        ed25519_derive_public(&self.signing_key)
    }
}

/// Signs a payload: hashes its canonical bytes, signs the digest with the
/// 32-byte key, and bundles the payload with the hex-encoded signature.
/// The signature is deterministic in the key and the payload, and the
/// cryptographic check accepts it under the key's own public key; with
/// `lemma_valid_path` this gives the valid path: a bundle whose
/// `author_did` carries the signer's public key passes the verifier's
/// cryptographic checks.
pub fn sign_transaction(signing_key: &Vec<u8>, payload: Transaction) -> (st: SignedTransaction)
    requires
        signing_key@.len() == 32,
    ensures
        st.payload == payload,
        st.signature@ == hex_of(ed25519_sig_of(signing_key@, tx_digest(payload@))),
        ed25519_verify_ok(
            ed25519_pub_of(signing_key@),
            tx_digest(payload@),
            ed25519_sig_of(signing_key@, tx_digest(payload@)),
        ),
{
    let digest = payload.get_hash();
    let sig = ed25519_sign(signing_key, &digest);
    let signature = hex_encode(&sig);
    SignedTransaction { payload, signature }
}

} // verus!
