//! A minimal verifiable-ledger transaction core: a key-derived identity
//! encoded as a `did:key` string, a double-entry accounting record, a
//! deterministic content hash over a canonical byte form, and a detached
//! Ed25519 signature over that hash.
//!
//! One collaborator builds and signs a transaction ([`signing`]) and
//! persists its canonical bytes ([`canon`]); an independent collaborator
//! recovers the author's public key from the identifier ([`codec`]),
//! re-derives the hash, checks the signature, and checks that debits
//! equal credits under exact decimal arithmetic ([`verify`], [`amount`]).

pub mod amount;
pub mod canon;
pub mod codec;
pub mod crypto;
pub mod errors;
pub mod model;
pub mod signing;
pub mod verify;
