//! End-to-end and component tests for the ledger core, run against the
//! real outside crates.

use ed25519_dalek::Signer;
use sha2::Digest;
use true_ledger::amount::parse_amount;
use true_ledger::codec::{did_to_public_key, public_key_to_did};
use true_ledger::errors::{DecodeError, VerificationError};
use true_ledger::model::{JournalEntry, SignedTransaction, Transaction};
use true_ledger::signing::{sign_transaction, Account};
use true_ledger::verify::{verify_balance, verify_signature, verify_transaction};

fn entry(account_id: &str, debit: &str, credit: &str) -> JournalEntry {
    JournalEntry {
        account_id: account_id.to_string(),
        debit: debit.to_string(),
        credit: credit.to_string(),
    }
}

fn balanced_transaction(author_did: String) -> Transaction {
    Transaction {
        timestamp: 1730814442,
        author_did,
        entries: vec![
            entry("10100", "10000.00", "0.00"),
            entry("30100", "0.00", "10000.00"),
        ],
        memo: "Initial capital contribution by owner.".to_string(),
    }
}

#[test]
fn identifier_round_trip() {
    let account = Account::new();
    let pk = did_to_public_key(account.did.as_str()).expect("a fresh identifier must decode");
    assert_eq!(pk.len(), 32);
    assert_eq!(pk, account.public_key());
    assert_eq!(public_key_to_did(&pk), account.did);
}

#[test]
fn identifier_matches_multibase_layout() {
    let account = Account::new();
    let pk = account.public_key();
    let mut tagged = vec![0xed, 0x01];
    tagged.extend_from_slice(&pk);
    let expected = format!(
        "did:key:z{}",
        multibase::Base::Base58Btc.encode(&tagged)
    );
    assert_eq!(account.did, expected);
}

#[test]
fn identifier_rejects_missing_prefix() {
    let account = Account::new();
    let bare = account.did["did:key:".len()..].to_string();
    assert_eq!(
        did_to_public_key(bare.as_str()),
        Err(DecodeError::MissingPrefix)
    );
    assert_eq!(did_to_public_key(""), Err(DecodeError::MissingPrefix));
    assert_eq!(did_to_public_key("did:key:"), Err(DecodeError::MissingPrefix));
}

#[test]
fn identifier_rejects_bad_base58() {
    // 0, O, I and l are outside the base58btc alphabet.
    assert_eq!(
        did_to_public_key("did:key:z0OIl"),
        Err(DecodeError::InvalidBase58)
    );
}

#[test]
fn identifier_rejects_wrong_length() {
    let mut tagged = vec![0xed, 0x01];
    tagged.extend_from_slice(&[7u8; 31]);
    let did = format!("did:key:z{}", multibase::Base::Base58Btc.encode(&tagged));
    assert_eq!(did_to_public_key(did.as_str()), Err(DecodeError::InvalidLength));
}

#[test]
fn identifier_rejects_wrong_tag() {
    let mut tagged = vec![0x01, 0x01];
    tagged.extend_from_slice(&[7u8; 32]);
    let did = format!("did:key:z{}", multibase::Base::Base58Btc.encode(&tagged));
    assert_eq!(did_to_public_key(did.as_str()), Err(DecodeError::InvalidTag));
}

#[test]
fn canonical_json_is_exact() {
    let tx = balanced_transaction("did:key:zABC".to_string());
    let expected = "{\"timestamp\":1730814442,\"author_did\":\"did:key:zABC\",\"entries\":[\
                    {\"account_id\":\"10100\",\"debit\":\"10000.00\",\"credit\":\"0.00\"},\
                    {\"account_id\":\"30100\",\"debit\":\"0.00\",\"credit\":\"10000.00\"}\
                    ],\"memo\":\"Initial capital contribution by owner.\"}";
    assert_eq!(tx.canonical_json(), expected.as_bytes().to_vec());
}

#[test]
fn canonical_json_escapes_strings() {
    let tx = Transaction {
        timestamp: 0,
        author_did: String::new(),
        entries: vec![],
        memo: "a\"b\\c\nd\u{00e9}".to_string(),
    };
    let expected = "{\"timestamp\":0,\"author_did\":\"\",\"entries\":[],\
                    \"memo\":\"a\\\"b\\\\c\\u000ad\\u00e9\"}";
    assert_eq!(tx.canonical_json(), expected.as_bytes().to_vec());
}

#[test]
fn canonical_json_handles_extremes() {
    let tx = Transaction {
        timestamp: u64::MAX,
        author_did: String::new(),
        entries: vec![],
        memo: "\t\u{1f680}".to_string(),
    };
    // The tab becomes a four-digit escape; the rocket, outside the basic
    // plane, becomes a surrogate pair.
    let expected = "{\"timestamp\":18446744073709551615,\"author_did\":\"\",\
                    \"entries\":[],\"memo\":\"\\u0009\\ud83d\\ude80\"}";
    assert_eq!(tx.canonical_json(), expected.as_bytes().to_vec());
}

#[test]
fn hash_is_sha256_of_canonical_bytes() {
    let tx = balanced_transaction("did:key:zABC".to_string());
    let expected = sha2::Sha256::digest(&tx.canonical_json()).to_vec();
    assert_eq!(tx.get_hash(), expected);
    // Determinism: repeated calls agree.
    assert_eq!(tx.get_hash(), tx.get_hash());
}

#[test]
fn signature_matches_ed25519_directly() {
    let account = Account::new();
    let tx = balanced_transaction(account.did.clone());
    let st = sign_transaction(&account.signing_key, tx.clone());
    let arr: [u8; 32] = account.signing_key.as_slice().try_into().unwrap();
    let key = ed25519_dalek::SigningKey::from_bytes(&arr);
    let expected = key.sign(&tx.get_hash()).to_bytes().to_vec();
    assert_eq!(hex::decode(&st.signature).unwrap(), expected);
    // Signing is deterministic: a second signature is identical.
    let again = sign_transaction(&account.signing_key, tx);
    assert_eq!(again.signature, st.signature);
}

#[test]
fn valid_path_verifies() {
    let account = Account::new();
    let tx = balanced_transaction(account.did.clone());
    let st = sign_transaction(&account.signing_key, tx);
    assert_eq!(verify_signature(&st), Ok(()));
    assert_eq!(verify_transaction(&st), Ok(()));
}

#[test]
fn uppercase_signature_hex_still_verifies() {
    let account = Account::new();
    let tx = balanced_transaction(account.did.clone());
    let mut st = sign_transaction(&account.signing_key, tx);
    st.signature = st.signature.to_uppercase();
    assert_eq!(verify_signature(&st), Ok(()));
}

#[test]
fn tampering_any_field_breaks_the_signature() {
    let account = Account::new();
    let tx = balanced_transaction(account.did.clone());
    let st = sign_transaction(&account.signing_key, tx);

    let mut tampered = st.payload.clone();
    tampered.timestamp += 1;
    let bad = SignedTransaction { payload: tampered, signature: st.signature.clone() };
    assert_eq!(verify_signature(&bad), Err(VerificationError::SignatureInvalidError));

    let mut tampered = st.payload.clone();
    tampered.memo = "Initial capital contribution by owner".to_string();
    let bad = SignedTransaction { payload: tampered, signature: st.signature.clone() };
    assert_eq!(verify_signature(&bad), Err(VerificationError::SignatureInvalidError));

    let mut tampered = st.payload.clone();
    tampered.entries[0].debit = "10000.01".to_string();
    let bad = SignedTransaction { payload: tampered, signature: st.signature.clone() };
    assert_eq!(verify_signature(&bad), Err(VerificationError::SignatureInvalidError));

    let mut tampered = st.payload.clone();
    tampered.entries[1].account_id = "30200".to_string();
    let bad = SignedTransaction { payload: tampered, signature: st.signature.clone() };
    assert_eq!(verify_signature(&bad), Err(VerificationError::SignatureInvalidError));
}

#[test]
fn wrong_key_is_rejected() {
    let signer = Account::new();
    let other = Account::new();
    // The payload names the other identity, but the signer's key signs it.
    let tx = balanced_transaction(other.did.clone());
    let st = sign_transaction(&signer.signing_key, tx);
    assert_eq!(verify_signature(&st), Err(VerificationError::SignatureInvalidError));
}

#[test]
fn malformed_identifier_fails_before_the_signature_check() {
    let account = Account::new();
    let mut tx = balanced_transaction(account.did.clone());
    tx.author_did = account.did["did:key:".len()..].to_string();
    let st = sign_transaction(&account.signing_key, tx);
    assert_eq!(
        verify_signature(&st),
        Err(VerificationError::IdentityError(DecodeError::MissingPrefix))
    );

    let mut tagged = vec![0x01, 0x01];
    tagged.extend_from_slice(&account.public_key());
    let mut tx = balanced_transaction(account.did.clone());
    tx.author_did = format!("did:key:z{}", multibase::Base::Base58Btc.encode(&tagged));
    let st = sign_transaction(&account.signing_key, tx);
    assert_eq!(
        verify_signature(&st),
        Err(VerificationError::IdentityError(DecodeError::InvalidTag))
    );
}

#[test]
fn malformed_signature_hex_is_a_format_error() {
    let account = Account::new();
    let tx = balanced_transaction(account.did.clone());
    let st = sign_transaction(&account.signing_key, tx);

    let mut bad = st.clone();
    bad.signature = "zz".repeat(64);
    assert_eq!(verify_signature(&bad), Err(VerificationError::SignatureFormatError));

    let mut bad = st.clone();
    bad.signature = st.signature[..st.signature.len() - 1].to_string();
    assert_eq!(verify_signature(&bad), Err(VerificationError::SignatureFormatError));

    let mut bad = st.clone();
    bad.signature = st.signature[..126].to_string();
    assert_eq!(verify_signature(&bad), Err(VerificationError::SignatureFormatError));
}

#[test]
fn balance_boundary() {
    let balanced = Transaction {
        timestamp: 0,
        author_did: String::new(),
        entries: vec![
            entry("10100", "10000.00", "0.00"),
            entry("30100", "0.00", "10000.00"),
        ],
        memo: String::new(),
    };
    assert_eq!(verify_balance(&balanced), Ok(()));

    let imbalanced = Transaction {
        timestamp: 0,
        author_did: String::new(),
        entries: vec![
            entry("10100", "10000.00", "0.00"),
            entry("30100", "0.00", "9999.99"),
        ],
        memo: String::new(),
    };
    // Totals are reported in minor units of one ten-thousandth.
    assert_eq!(
        verify_balance(&imbalanced),
        Err(VerificationError::ImbalanceError {
            total_debits: 100_000_000,
            total_credits: 99_999_900,
        })
    );
}

#[test]
fn empty_transaction_balances() {
    let tx = Transaction {
        timestamp: 0,
        author_did: String::new(),
        entries: vec![],
        memo: String::new(),
    };
    assert_eq!(verify_balance(&tx), Ok(()));
}

#[test]
fn malformed_amount_is_a_format_error() {
    let tx = Transaction {
        timestamp: 0,
        author_did: String::new(),
        entries: vec![entry("10100", "abc", "0.00")],
        memo: String::new(),
    };
    assert_eq!(verify_balance(&tx), Err(VerificationError::AmountFormatError));

    // The same error surfaces through full verification, after the
    // signature checks pass.
    let account = Account::new();
    let mut tx = balanced_transaction(account.did.clone());
    tx.entries[0].debit = "abc".to_string();
    let st = sign_transaction(&account.signing_key, tx);
    assert_eq!(verify_signature(&st), Ok(()));
    assert_eq!(
        verify_transaction(&st),
        Err(VerificationError::AmountFormatError)
    );
}

#[test]
fn amounts_parse_exactly() {
    assert_eq!(parse_amount("10000.00"), Some(100_000_000));
    assert_eq!(parse_amount("0.00"), Some(0));
    assert_eq!(parse_amount("007"), Some(70_000));
    assert_eq!(parse_amount("1.2345"), Some(12_345));
    assert_eq!(parse_amount("99999999999999.9999"), Some(999_999_999_999_999_999));
    assert_eq!(parse_amount(""), None);
    assert_eq!(parse_amount("abc"), None);
    assert_eq!(parse_amount("1."), None);
    assert_eq!(parse_amount(".5"), None);
    assert_eq!(parse_amount("1.23456"), None);
    assert_eq!(parse_amount("1.2.3"), None);
    assert_eq!(parse_amount("-1.00"), None);
    assert_eq!(parse_amount("1e3"), None);
    assert_eq!(parse_amount("123456789012345"), None);
}

fn string_after<'a>(text: &'a str, key: &str) -> &'a str {
    let start = text.find(key).expect("key present") + key.len();
    let rest = &text[start..];
    let end = rest.find('"').expect("closing quote");
    &rest[..end]
}

/// A minimal reader for the canonical persisted form, good enough to load
/// back what `SignedTransaction::to_json` wrote for these tests.
fn parse_signed(text: &str) -> SignedTransaction {
    let timestamp_start = text.find("\"timestamp\":").expect("timestamp") + "\"timestamp\":".len();
    let timestamp: u64 = text[timestamp_start..]
        .chars()
        .take_while(|c| c.is_ascii_digit())
        .collect::<String>()
        .parse()
        .unwrap();
    let author_did = string_after(text, "\"author_did\":\"").to_string();
    let memo = string_after(text, "\"memo\":\"").to_string();
    let signature = string_after(text, "\"signature\":\"").to_string();
    let mut entries = Vec::new();
    let mut rest = text;
    while let Some(pos) = rest.find("{\"account_id\":\"") {
        let body = &rest[pos..];
        entries.push(JournalEntry {
            account_id: string_after(body, "\"account_id\":\"").to_string(),
            debit: string_after(body, "\"debit\":\"").to_string(),
            credit: string_after(body, "\"credit\":\"").to_string(),
        });
        rest = &body[1..];
    }
    SignedTransaction {
        payload: Transaction { timestamp, author_did, entries, memo },
        signature,
    }
}

#[test]
fn end_to_end_scenario() {
    let account = Account::new();
    let tx = balanced_transaction(account.did.clone());
    let st = sign_transaction(&account.signing_key, tx);

    // Serialize, reload, verify.
    let stored = String::from_utf8(st.to_json()).unwrap();
    let loaded = parse_signed(&stored);
    assert_eq!(loaded.payload.timestamp, st.payload.timestamp);
    assert_eq!(loaded.signature, st.signature);
    assert_eq!(verify_transaction(&loaded), Ok(()));

    // Flip one character of the signature hex and verify again.
    let mut sig = loaded.signature.clone().into_bytes();
    sig[0] = if sig[0] == b'0' { b'1' } else { b'0' };
    let corrupted = SignedTransaction {
        payload: loaded.payload,
        signature: String::from_utf8(sig).unwrap(),
    };
    let outcome = verify_transaction(&corrupted);
    assert!(
        outcome == Err(VerificationError::SignatureInvalidError)
            || outcome == Err(VerificationError::SignatureFormatError),
        "unexpected outcome: {:?}",
        outcome
    );
}

#[test]
fn distinct_accounts_get_distinct_identifiers() {
    let a = Account::new();
    let b = Account::new();
    assert_ne!(a.did, b.did);
}
