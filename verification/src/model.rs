//! The ledger data model: journal entries, transactions, and signed
//! transactions, together with their mathematical views.

use vstd::prelude::*;

verus! {

/// One accounting line: an opaque account code and a debit and a credit
/// amount, both kept as exact-precision decimal strings.
#[derive(Clone, Debug)]
pub struct JournalEntry {
    pub account_id: String,
    pub debit: String,
    pub credit: String,
}

/// The payload that is hashed and signed. The order of `entries` is part of
/// the canonical byte representation and therefore affects the hash.
#[derive(Clone, Debug)]
pub struct Transaction {
    pub timestamp: u64,
    pub author_did: String,
    pub entries: Vec<JournalEntry>,
    pub memo: String,
}

/// A transaction together with a detached signature over its canonical
/// hash, hex-encoded for storage.
#[derive(Clone, Debug)]
pub struct SignedTransaction {
    pub payload: Transaction,
    pub signature: String,
}

/// The mathematical view of a journal entry.
pub ghost struct EntryView {
    pub account_id: Seq<char>,
    pub debit: Seq<char>,
    pub credit: Seq<char>,
}

/// The mathematical view of a transaction payload.
pub ghost struct TxView {
    pub timestamp: u64,
    pub author_did: Seq<char>,
    pub entries: Seq<EntryView>,
    pub memo: Seq<char>,
}

/// The mathematical view of a signed transaction.
pub ghost struct SignedTxView {
    pub payload: TxView,
    pub signature: Seq<char>,
}

impl View for JournalEntry {
    type V = EntryView;

    open spec fn view(&self) -> EntryView {
        EntryView { account_id: self.account_id@, debit: self.debit@, credit: self.credit@ }
    }
}

impl View for Transaction {
    type V = TxView;

    open spec fn view(&self) -> TxView {
        TxView {
            timestamp: self.timestamp,
            author_did: self.author_did@,
            entries: self.entries@.map_values(|e: JournalEntry| e@),
            memo: self.memo@,
        }
    }
}

impl View for SignedTransaction {
    type V = SignedTxView;

    open spec fn view(&self) -> SignedTxView {
        SignedTxView { payload: self.payload@, signature: self.signature@ }
    }
}

} // verus!
