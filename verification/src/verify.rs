//! Verification of a signed transaction: recover the author's public key
//! from the identifier, re-derive the canonical hash, check the detached
//! signature, and independently check that total debits equal total
//! credits under exact decimal arithmetic. Each check fails with its own
//! typed error, in a fixed order.

use vstd::prelude::*;

use crate::amount::amount_units;
use crate::amount::is_amount;
use crate::amount::parse_amount;
use crate::canon::tx_digest;
use crate::codec::did_to_public_key;
use crate::codec::lemma_identifier_round_trip;
use crate::codec::spec_decode_identifier;
use crate::codec::valid_did_for;
use crate::crypto::ed25519_verify;
use crate::crypto::ed25519_verify_ok;
use crate::crypto::hex_decode;
use crate::crypto::hex_of;
use crate::crypto::hex_vals;
use crate::crypto::is_hex_str;
use crate::crypto::lemma_hex_round_trip;
use crate::errors::VerificationError;
use crate::model::EntryView;
use crate::model::SignedTransaction;
use crate::model::SignedTxView;
use crate::model::Transaction;
use crate::model::TxView;

verus! {

/// Do all entries carry well-formed debit and credit amounts?
pub open spec fn entries_amounts_ok(es: Seq<EntryView>) -> bool {
    forall|i: int| 0 <= i < es.len() ==> is_amount(#[trigger] es[i].debit) && is_amount(es[i].credit)
}

/// The sum of all debit amounts, in minor units.
pub open spec fn sum_debit_units(es: Seq<EntryView>) -> nat
    decreases es.len(),
{
    if es.len() == 0 {
        0
    } else {
        sum_debit_units(es.drop_last()) + amount_units(es.last().debit)
    }
}

/// The sum of all credit amounts, in minor units.
pub open spec fn sum_credit_units(es: Seq<EntryView>) -> nat
    decreases es.len(),
{
    if es.len() == 0 {
        0
    } else {
        sum_credit_units(es.drop_last()) + amount_units(es.last().credit)
    }
}

/// What the balance check yields: a format error if any amount is
/// malformed, the two exact totals if they differ, and success otherwise.
pub open spec fn spec_verify_balance(t: TxView) -> Result<(), VerificationError> {
    if !entries_amounts_ok(t.entries) {
        Err(VerificationError::AmountFormatError)
    } else if sum_debit_units(t.entries) != sum_credit_units(t.entries) {
        Err(
            VerificationError::ImbalanceError {
                total_debits: sum_debit_units(t.entries) as u128,
                total_credits: sum_credit_units(t.entries) as u128,
            },
        )
    } else {
        Ok(())
    }
}

/// What the cryptographic check yields: identity recovery first, then the
/// shape of the stored signature, then the signature itself against the
/// re-derived digest.
pub open spec fn spec_verify_signature(st: SignedTxView) -> Result<(), VerificationError> {
    match spec_decode_identifier(st.payload.author_did) {
        Err(e) => Err(VerificationError::IdentityError(e)),
        Ok(pk) => if !(is_hex_str(st.signature) && hex_vals(st.signature).len() == 64) {
            Err(VerificationError::SignatureFormatError)
        } else if !ed25519_verify_ok(pk, tx_digest(st.payload), hex_vals(st.signature)) {
            Err(VerificationError::SignatureInvalidError)
        } else {
            Ok(())
        },
    }
}

/// What full verification yields: the cryptographic checks first, then
/// the balance check, surfacing the first failure.
pub open spec fn spec_verify_transaction(st: SignedTxView) -> Result<(), VerificationError> {
    match spec_verify_signature(st) {
        Err(e) => Err(e),
        Ok(_) => spec_verify_balance(st.payload),
    }
}

/// Extending the entries extends both sums by the new entry's amounts.
proof fn lemma_sums_snoc(es: Seq<EntryView>, i: int)
    requires
        0 <= i < es.len(),
    ensures
        sum_debit_units(es.take(i + 1)) == sum_debit_units(es.take(i)) + amount_units(
            es[i].debit,
        ),
        sum_credit_units(es.take(i + 1)) == sum_credit_units(es.take(i)) + amount_units(
            es[i].credit,
        ),
{
    let t = es.take(i + 1);
    assert(t.drop_last() =~= es.take(i));
    assert(t.last() == es[i]);
}

/// Checks that total debits equal total credits, exactly, under
/// fixed-point decimal arithmetic. Returns `AmountFormatError` if any
/// debit or credit is not a well-formed amount, and the two differing
/// totals otherwise.
pub fn verify_balance(tx: &Transaction) -> (r: Result<(), VerificationError>)
    ensures
        r == spec_verify_balance(tx@),
{
    let ghost es = tx@.entries;
    let m: usize = tx.entries.len();
    let mut td: u128 = 0;
    let mut tc: u128 = 0;
    let mut i: usize = 0;
    while i < m
        invariant
            i <= m,
            m == tx.entries.len(),
            es == tx@.entries,
            es.len() == m,
            forall|j: int| 0 <= j < m ==> es[j] == #[trigger] tx.entries@[j]@,
            forall|j: int| 0 <= j < i ==> is_amount(#[trigger] es[j].debit) && is_amount(
                es[j].credit,
            ),
            td as nat == sum_debit_units(es.take(i as int)),
            tc as nat == sum_credit_units(es.take(i as int)),
            (td as nat) <= (i as nat) * 1_000_000_000_000_000_000,
            (tc as nat) <= (i as nat) * 1_000_000_000_000_000_000,
        decreases m - i,
    {
        let entry = &tx.entries[i];
        proof {
            assert(entry@ == es[i as int]);
        }
        let vd = match parse_amount(entry.debit.as_str()) {
            Some(v) => v,
            None => {
                proof {
                    assert(!is_amount(es[i as int].debit));
                }
                return Err(VerificationError::AmountFormatError);
            },
        };
        let vc = match parse_amount(entry.credit.as_str()) {
            Some(v) => v,
            None => {
                proof {
                    assert(is_amount(es[i as int].debit) && !is_amount(es[i as int].credit));
                }
                return Err(VerificationError::AmountFormatError);
            },
        };
        proof {
            assert(is_amount(es[i as int].debit) && is_amount(es[i as int].credit));
        }
        proof {
            lemma_sums_snoc(es, i as int);
            assert((td + vd) as nat <= (i + 1) as nat * 1_000_000_000_000_000_000
                && td + vd <= u128::MAX && (tc + vc) as nat <= (i + 1) as nat
                * 1_000_000_000_000_000_000 && tc + vc <= u128::MAX) by (nonlinear_arith)
                requires
                    (td as nat) <= (i as nat) * 1_000_000_000_000_000_000,
                    (tc as nat) <= (i as nat) * 1_000_000_000_000_000_000,
                    (vd as nat) < 1_000_000_000_000_000_000,
                    (vc as nat) < 1_000_000_000_000_000_000,
                    0 <= i,
                    i < m,
                    m <= 0xFFFF_FFFF_FFFF_FFFFu64,
            ;
        }
        td = td + vd as u128;
        tc = tc + vc as u128;
        i = i + 1;
    }
    proof {
        assert(es.take(m as int) =~= es);
    }
    if td == tc {
        Ok(())
    } else {
        Err(VerificationError::ImbalanceError { total_debits: td, total_credits: tc })
    }
}

/// Runs the cryptographic checks: identity recovery, signature format,
/// digest recomputation, and the signature check, failing with the first
/// error in that order.
pub fn verify_signature(st: &SignedTransaction) -> (r: Result<(), VerificationError>)
    ensures
        r == spec_verify_signature(st@),
{
    let pk = match did_to_public_key(st.payload.author_did.as_str()) {
        Ok(pk) => pk,
        Err(e) => {
            return Err(VerificationError::IdentityError(e));
        },
    };
    let sig = match hex_decode(st.signature.as_str()) {
        Some(sig) => sig,
        None => {
            return Err(VerificationError::SignatureFormatError);
        },
    };
    if sig.len() != 64 {
        return Err(VerificationError::SignatureFormatError);
    }
    let digest = st.payload.get_hash();
    if ed25519_verify(&pk, &digest, &sig) {
        Ok(())
    } else {
        Err(VerificationError::SignatureInvalidError)
    }
}

/// Verifies a signed transaction in full: the cryptographic checks, then
/// the balance check. Both must pass; the first failure is surfaced.
pub fn verify_transaction(st: &SignedTransaction) -> (r: Result<(), VerificationError>)
    ensures
        r == spec_verify_transaction(st@),
{
    match verify_signature(st) {
        Err(e) => Err(e),
        Ok(_) => verify_balance(&st.payload),
    }
}

/// The valid path: a payload whose identifier carries the public key
/// `pk`, bundled with the hex encoding of any signature that the
/// cryptographic check accepts over the payload's digest, passes the
/// cryptographic checks.
pub proof fn lemma_valid_path(t: TxView, pk: Seq<u8>, sig: Seq<u8>)
    requires
        pk.len() == 32,
        valid_did_for(t.author_did, pk),
        sig.len() == 64,
        ed25519_verify_ok(pk, tx_digest(t), sig),
    ensures
        spec_verify_signature(SignedTxView { payload: t, signature: hex_of(sig) })
            == Ok::<(), VerificationError>(()),
{
    lemma_identifier_round_trip(t.author_did, pk);
    lemma_hex_round_trip(sig);
}

/// The valid path, in full: if additionally the payload balances, full
/// verification succeeds.
pub proof fn lemma_valid_transaction(t: TxView, pk: Seq<u8>, sig: Seq<u8>)
    requires
        pk.len() == 32,
        valid_did_for(t.author_did, pk),
        sig.len() == 64,
        ed25519_verify_ok(pk, tx_digest(t), sig),
        spec_verify_balance(t) == Ok::<(), VerificationError>(()),
    ensures
        spec_verify_transaction(SignedTxView { payload: t, signature: hex_of(sig) })
            == Ok::<(), VerificationError>(()),
{
    lemma_valid_path(t, pk, sig);
}

} // verus!
