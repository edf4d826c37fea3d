//! The canonical byte representation of a transaction: a JSON text with a
//! fixed field order, fixed number formatting and fixed string escaping,
//! reproducible byte-for-byte by producer and verifier. The digest that
//! gets signed is the SHA-256 hash of exactly these bytes, so the writer
//! is specified down to each byte.
//!
//! Field order: `timestamp`, `author_did`, `entries` (each entry
//! `account_id`, `debit`, `credit`), `memo`. Numbers are plain decimal.
//! Strings escape the quote and the backslash with a backslash, keep
//! printable ASCII as is, and write every other character as a `\u`
//! escape, using a surrogate pair above the basic plane.

use vstd::prelude::*;
use vstd::string::*;

use crate::crypto::sha256;
use crate::crypto::sha256_of;
use crate::model::EntryView;
use crate::model::JournalEntry;
use crate::model::SignedTransaction;
use crate::model::SignedTxView;
use crate::model::Transaction;
use crate::model::TxView;

verus! {

/// The bytes of an ASCII literal, character by character (characters
/// beyond ASCII would be truncated, but every literal written below is
/// plain ASCII).
pub open spec fn lit_bytes(s: Seq<char>) -> Seq<u8> {
    Seq::new(s.len(), |i: int| s[i] as u8)
}

/// The byte value of an ASCII lowercase hexadecimal digit.
pub open spec fn hex_digit_byte(d: int) -> u8 {
    if d < 10 {
        (48 + d) as u8
    } else {
        (87 + d) as u8
    }
}

/// Emits the ASCII byte of a single hexadecimal digit, lowercase.
fn hex_digit(d: u8) -> (b: u8)
    requires
        d < 16,
    ensures
        b == hex_digit_byte(d as int),
{
    if d < 10 {
        48 + d
    } else {
        87 + d
    }
}

/// The four hex digits of a value below `0x10000`, most significant first.
pub open spec fn hex4(u: int) -> Seq<u8> {
    seq![
        hex_digit_byte(u / 4096 % 16),
        hex_digit_byte(u / 256 % 16),
        hex_digit_byte(u / 16 % 16),
        hex_digit_byte(u % 16),
    ]
}

/// A `\uXXXX` escape.
pub open spec fn u_escape(u: int) -> Seq<u8> {
    seq![92u8, 117u8] + hex4(u)
}

/// The canonical encoding of one character inside a JSON string.
pub open spec fn esc_char(c: char) -> Seq<u8> {
    if c == '"' {
        seq![92u8, 34u8]
    } else if c == '\\' {
        seq![92u8, 92u8]
    } else if 0x20 <= c as u32 && c as u32 <= 0x7e {
        seq![c as u8]
    } else if (c as u32) < 0x10000 {
        u_escape(c as u32 as int)
    } else {
        u_escape(0xd800 + (c as u32 - 0x10000) as int / 0x400) + u_escape(
            0xdc00 + (c as u32 - 0x10000) as int % 0x400,
        )
    }
}

/// The canonical encoding of a whole character sequence.
pub open spec fn esc_chars(s: Seq<char>) -> Seq<u8>
    decreases s.len(),
{
    if s.len() == 0 {
        Seq::empty()
    } else {
        esc_chars(s.drop_last()) + esc_char(s.last())
    }
}

/// A canonical JSON string: quote, escaped characters, quote.
pub open spec fn json_string_bytes(s: Seq<char>) -> Seq<u8> {
    seq![34u8] + esc_chars(s) + seq![34u8]
}

/// The canonical decimal digits of a number, most significant first.
pub open spec fn dec_bytes(n: nat) -> Seq<u8>
    decreases n,
{
    if n < 10 {
        seq![(48 + n) as u8]
    } else {
        dec_bytes(n / 10) + seq![(48 + n % 10) as u8]
    }
}

/// The canonical bytes of one journal entry.
pub open spec fn entry_bytes(e: EntryView) -> Seq<u8> {
    lit_bytes("{\"account_id\":"@) + json_string_bytes(e.account_id) + lit_bytes(",\"debit\":"@)
        + json_string_bytes(e.debit) + lit_bytes(",\"credit\":"@) + json_string_bytes(e.credit)
        + seq![125u8]
}

/// The canonical bytes of the entry list, comma separated.
pub open spec fn entries_bytes(es: Seq<EntryView>) -> Seq<u8>
    decreases es.len(),
{
    if es.len() == 0 {
        Seq::empty()
    } else if es.len() == 1 {
        entry_bytes(es[0])
    } else {
        entries_bytes(es.drop_last()) + seq![44u8] + entry_bytes(es.last())
    }
}

/// The canonical bytes of a transaction payload.
pub open spec fn tx_bytes(t: TxView) -> Seq<u8> {
    lit_bytes("{\"timestamp\":"@) + dec_bytes(t.timestamp as nat) + lit_bytes(",\"author_did\":"@)
        + json_string_bytes(t.author_did) + lit_bytes(",\"entries\":["@) + entries_bytes(t.entries)
        + lit_bytes("],\"memo\":"@) + json_string_bytes(t.memo) + seq![125u8]
}

/// The digest that gets signed: SHA-256 over the canonical bytes, a
/// function of the payload alone.
pub open spec fn tx_digest(t: TxView) -> Seq<u8> {
    sha256_of(tx_bytes(t))
}

/// The canonical bytes of a signed transaction, payload first.
pub open spec fn signed_bytes(st: SignedTxView) -> Seq<u8> {
    lit_bytes("{\"payload\":"@) + tx_bytes(st.payload) + lit_bytes(",\"signature\":"@)
        + json_string_bytes(st.signature) + seq![125u8]
}

/// Determinism of the hash: the digest is a function of the payload view
/// alone, so equal payloads always hash to equal digests.
pub proof fn lemma_hash_deterministic(a: TxView, b: TxView)
    requires
        a == b,
    ensures
        tx_digest(a) == tx_digest(b),
{
}

/// Appends the bytes of an ASCII literal.
fn push_lit(out: &mut Vec<u8>, s: &str)
    ensures
        final(out)@ == old(out)@ + lit_bytes(s@),
{
    let n: usize = s.unicode_len();
    let mut i: usize = 0;
    while i < n
        invariant
            i <= n,
            n == s@.len(),
            out@ == old(out)@ + lit_bytes(s@).take(i as int),
        decreases n - i,
    {
        let c = s.get_char(i);
        let u = c as u32;
        out.push(#[verifier::truncate] (u as u8));
        proof {
            assert(out@ =~= old(out)@ + lit_bytes(s@).take(i + 1));
        }
        i = i + 1;
    }
    proof {
        assert(lit_bytes(s@).take(n as int) =~= lit_bytes(s@));
    }
}

/// Appends the four hex digits of a value below `0x10000`.
fn push_hex4(out: &mut Vec<u8>, u: u32)
    requires
        u < 0x10000,
    ensures
        final(out)@ == old(out)@ + hex4(u as int),
{
    out.push(hex_digit(((u / 4096) % 16) as u8));
    out.push(hex_digit(((u / 256) % 16) as u8));
    out.push(hex_digit(((u / 16) % 16) as u8));
    out.push(hex_digit((u % 16) as u8));
    proof {
        assert(out@ =~= old(out)@ + hex4(u as int));
    }
}

/// Appends one character in its canonical escaped form.
fn push_escaped_char(out: &mut Vec<u8>, c: char)
    ensures
        final(out)@ == old(out)@ + esc_char(c),
{
    let u = c as u32;
    if c == '"' {
        out.push(92);
        out.push(34);
    } else if c == '\\' {
        out.push(92);
        out.push(92);
    } else if 0x20 <= u && u <= 0x7e {
        out.push(#[verifier::truncate] (u as u8));
        proof {
            assert(esc_char(c) == seq![c as u8]);
        }
    } else if u < 0x10000 {
        out.push(92);
        out.push(117);
        push_hex4(out, u);
    } else {
        let hi = 0xd800 + (u - 0x10000) / 0x400;
        let lo = 0xdc00 + (u - 0x10000) % 0x400;
        out.push(92);
        out.push(117);
        push_hex4(out, hi);
        out.push(92);
        out.push(117);
        push_hex4(out, lo);
    }
    proof {
        assert(out@ =~= old(out)@ + esc_char(c));
    }
}

/// Appending one character extends the escaped form by that character's
/// encoding.
proof fn lemma_esc_chars_snoc(s: Seq<char>, i: int)
    requires
        0 <= i < s.len(),
    ensures
        esc_chars(s.take(i + 1)) == esc_chars(s.take(i)) + esc_char(s[i]),
{
    let t = s.take(i + 1);
    assert(t.drop_last() =~= s.take(i));
    assert(t.last() == s[i]);
}

/// Appends a string in its canonical JSON form, quotes and escapes
/// included.
fn push_json_string(out: &mut Vec<u8>, s: &str)
    ensures
        final(out)@ == old(out)@ + json_string_bytes(s@),
{
    let n: usize = s.unicode_len();
    out.push(34);
    let mut i: usize = 0;
    while i < n
        invariant
            i <= n,
            n == s@.len(),
            out@ == old(out)@ + seq![34u8] + esc_chars(s@.take(i as int)),
        decreases n - i,
    {
        push_escaped_char(out, s.get_char(i));
        proof {
            lemma_esc_chars_snoc(s@, i as int);
        }
        i = i + 1;
    }
    out.push(34);
    proof {
        assert(s@.take(n as int) =~= s@);
        assert(out@ =~= old(out)@ + json_string_bytes(s@));
    }
}

/// Appends the canonical decimal digits of a number.
fn push_u64_dec(out: &mut Vec<u8>, n: u64)
    ensures
        final(out)@ == old(out)@ + dec_bytes(n as nat),
    decreases n,
{
    if n < 10 {
        out.push(48 + n as u8);
    } else {
        push_u64_dec(out, n / 10);
        out.push(48 + (n % 10) as u8);
        proof {
            assert(out@ =~= old(out)@ + dec_bytes(n as nat));
        }
    }
}

/// Appends the canonical bytes of one journal entry.
fn push_entry(out: &mut Vec<u8>, e: &JournalEntry)
    ensures
        final(out)@ == old(out)@ + entry_bytes(e@),
{
    push_lit(out, "{\"account_id\":");
    push_json_string(out, e.account_id.as_str());
    push_lit(out, ",\"debit\":");
    push_json_string(out, e.debit.as_str());
    push_lit(out, ",\"credit\":");
    push_json_string(out, e.credit.as_str());
    out.push(125);
    proof {
        assert(out@ =~= old(out)@ + entry_bytes(e@));
    }
}

/// Appending one entry extends the list form by a separating comma when
/// the list was not empty.
proof fn lemma_entries_bytes_snoc(es: Seq<EntryView>, i: int)
    requires
        0 <= i < es.len(),
    ensures
        entries_bytes(es.take(i + 1)) == if i == 0 {
            entries_bytes(es.take(i)) + entry_bytes(es[i])
        } else {
            entries_bytes(es.take(i)) + seq![44u8] + entry_bytes(es[i])
        },
{
    let t = es.take(i + 1);
    assert(t.drop_last() =~= es.take(i));
    assert(t.last() == es[i]);
    if i == 0 {
        assert(entries_bytes(es.take(0)) =~= Seq::<u8>::empty());
        assert(entries_bytes(es.take(1)) =~= entry_bytes(es[0]));
    }
}

impl Transaction {
    /// The canonical byte representation of this payload, exactly as
    /// specified by `tx_bytes`.
    pub fn canonical_json(&self) -> (r: Vec<u8>)
        ensures
            r@ == tx_bytes(self@),
    {
        let mut out: Vec<u8> = Vec::new();
        push_lit(&mut out, "{\"timestamp\":");
        push_u64_dec(&mut out, self.timestamp);
        push_lit(&mut out, ",\"author_did\":");
        push_json_string(&mut out, self.author_did.as_str());
        push_lit(&mut out, ",\"entries\":[");
        let ghost prefix = out@;
        let ghost es = self@.entries;
        let m: usize = self.entries.len();
        let mut i: usize = 0;
        while i < m
            invariant
                i <= m,
                m == self.entries.len(),
                es == self@.entries,
                es.len() == m,
                forall|j: int| 0 <= j < m ==> es[j] == #[trigger] self.entries@[j]@,
                out@ == prefix + entries_bytes(es.take(i as int)),
            decreases m - i,
        {
            if i > 0 {
                out.push(44);
            }
            push_entry(&mut out, &self.entries[i]);
            proof {
                lemma_entries_bytes_snoc(es, i as int);
            }
            i = i + 1;
        }
        proof {
            assert(es.take(m as int) =~= es);
        }
        push_lit(&mut out, "],\"memo\":");
        push_json_string(&mut out, self.memo.as_str());
        out.push(125);
        proof {
            assert(out@ =~= tx_bytes(self@));
        }
        out
    }

    /// The canonical hash of this payload: a deterministic 32-byte digest
    /// of its canonical byte representation. This is the value that gets
    /// signed.
    pub fn get_hash(&self) -> (h: Vec<u8>)
        ensures
            h@ == tx_digest(self@),
            h@.len() == 32,
    {
        let bytes = self.canonical_json();
        sha256(&bytes)
    }
}

impl SignedTransaction {
    /// The canonical byte representation of the persisted artifact:
    /// payload first, then the hex-encoded signature.
    pub fn to_json(&self) -> (r: Vec<u8>)
        ensures
            r@ == signed_bytes(self@),
    {
        let mut out: Vec<u8> = Vec::new();
        push_lit(&mut out, "{\"payload\":");
        let mut payload = self.payload.canonical_json();
        out.append(&mut payload);
        push_lit(&mut out, ",\"signature\":");
        push_json_string(&mut out, self.signature.as_str());
        out.push(125);
        proof {
            assert(out@ =~= signed_bytes(self@));
        }
        out
    }
}

} // verus!
