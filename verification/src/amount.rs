//! Exact decimal amounts. A well-formed amount is a non-negative decimal
//! string: one to fourteen digits, optionally followed by a dot and one to
//! four fractional digits. An amount is valued in minor units of one
//! ten-thousandth of a whole unit, so sums compare exactly, with no
//! floating-point rounding anywhere.

use vstd::prelude::*;
use vstd::string::*;

verus! {

/// Is `c` an ASCII decimal digit?
pub open spec fn is_dec_digit(c: char) -> bool {
    48 <= c as u32 && c as u32 <= 57
}

/// Are all characters of `s` ASCII decimal digits?
pub open spec fn all_dec_digits(s: Seq<char>) -> bool {
    forall|i: int| 0 <= i < s.len() ==> is_dec_digit(#[trigger] s[i])
}

/// The number denoted by a sequence of decimal digits, most significant first.
pub open spec fn digits_value(s: Seq<char>) -> nat
    decreases s.len(),
{
    if s.len() == 0 {
        0
    } else {
        digits_value(s.drop_last()) * 10 + (s.last() as u32 - 48) as nat
    }
}

/// Ten to the `n`.
pub open spec fn pow10(n: nat) -> nat
    decreases n,
{
    if n == 0 {
        1
    } else {
        10 * pow10((n - 1) as nat)
    }
}

/// The handful of powers of ten the proofs need, evaluated by unfolding.
proof fn lemma_pow10_values()
    ensures
        pow10(0) == 1,
        pow10(1) == 10,
        pow10(2) == 100,
        pow10(3) == 1000,
        pow10(4) == 10000,
        pow10(14) == 100_000_000_000_000,
{
    reveal_with_fuel(pow10, 16);
}

/// An amount with no fractional part: one to fourteen digits.
pub open spec fn is_plain_amount(s: Seq<char>) -> bool {
    1 <= s.len() <= 14 && all_dec_digits(s)
}

/// An amount split by a dot at position `i`: one to fourteen integer digits,
/// then `.`, then one to four fractional digits.
pub open spec fn is_split_amount_at(s: Seq<char>, i: int) -> bool {
    &&& 1 <= i <= 14
    &&& i < s.len()
    &&& s[i] == '.'
    &&& 1 <= s.len() - i - 1 <= 4
    &&& all_dec_digits(s.take(i))
    &&& all_dec_digits(s.skip(i + 1))
}

/// Is `s` a well-formed non-negative decimal amount?
pub open spec fn is_amount(s: Seq<char>) -> bool {
    is_plain_amount(s) || (exists|i: int| is_split_amount_at(s, i))
}

/// The value of a well-formed amount in minor units (ten-thousandths).
pub open spec fn amount_units(s: Seq<char>) -> nat {
    if is_plain_amount(s) {
        digits_value(s) * 10000
    } else {
        let i = choose|i: int| is_split_amount_at(s, i);
        digits_value(s.take(i)) * 10000 + digits_value(s.skip(i + 1)) * pow10(
            (4 - (s.len() - i - 1)) as nat,
        )
    }
}

/// A dot can split an amount at one position only: everything before the
/// split is a digit, so no second dot fits.
proof fn lemma_split_unique(s: Seq<char>, i: int, j: int)
    requires
        is_split_amount_at(s, i),
        is_split_amount_at(s, j),
    ensures
        i == j,
{
    if i < j {
        assert(s.skip(i + 1)[j - i - 1] == s[j]);
        assert(is_dec_digit('.'));
    } else if j < i {
        assert(s.skip(j + 1)[i - j - 1] == s[i]);
        assert(is_dec_digit('.'));
    }
}

/// A sequence of `n` digits denotes a value below ten to the `n`.
proof fn lemma_digits_value_bound(s: Seq<char>)
    requires
        all_dec_digits(s),
    ensures
        digits_value(s) < pow10(s.len()),
    decreases s.len(),
{
    if s.len() > 0 {
        assert(all_dec_digits(s.drop_last()));
        lemma_digits_value_bound(s.drop_last());
        assert(is_dec_digit(s.last()));
    }
}

/// Ten to the power is monotone.
proof fn lemma_pow10_mono(a: nat, b: nat)
    requires
        a <= b,
    ensures
        pow10(a) <= pow10(b),
    decreases b,
{
    if a < b {
        lemma_pow10_mono(a, (b - 1) as nat);
        assert(pow10(b) == 10 * pow10((b - 1) as nat));
        assert(pow10((b - 1) as nat) >= 1) by {
            lemma_pow10_mono(0, (b - 1) as nat);
        }
    }
}

/// Every well-formed amount is below ten to the eighteen minor units, so a
/// single amount always fits in a `u64`.
pub proof fn lemma_amount_units_bound(s: Seq<char>)
    requires
        is_amount(s),
    ensures
        amount_units(s) < 1_000_000_000_000_000_000,
{
    lemma_pow10_values();
    if is_plain_amount(s) {
        lemma_digits_value_bound(s);
        lemma_pow10_mono(s.len(), 14);
    } else {
        let i = choose|i: int| is_split_amount_at(s, i);
        let frac = s.skip(i + 1);
        lemma_digits_value_bound(s.take(i));
        assert(s.take(i).len() == i);
        lemma_pow10_mono(i as nat, 14);
        lemma_digits_value_bound(frac);
        let f = frac.len();
        assert(1 <= f <= 4);
        assert(digits_value(frac) * pow10((4 - f) as nat) < 10000) by {
            lemma_pow10_values();
            if f == 1 {
                vstd::arithmetic::mul::lemma_mul_inequality(
                    digits_value(frac) as int,
                    9,
                    pow10(3) as int,
                );
            } else if f == 2 {
                vstd::arithmetic::mul::lemma_mul_inequality(
                    digits_value(frac) as int,
                    99,
                    pow10(2) as int,
                );
            } else if f == 3 {
                vstd::arithmetic::mul::lemma_mul_inequality(
                    digits_value(frac) as int,
                    999,
                    pow10(1) as int,
                );
            } else {
                vstd::arithmetic::mul::lemma_mul_inequality(
                    digits_value(frac) as int,
                    9999,
                    pow10(0) as int,
                );
            }
        }
    }
}

/// Appending one digit multiplies the value by ten and adds the digit.
proof fn lemma_digits_value_snoc(s: Seq<char>, t: Seq<char>, c: char)
    requires
        t == s.push(c),
    ensures
        digits_value(t) == digits_value(s) * 10 + (c as u32 - 48) as nat,
{
    assert(t.drop_last() =~= s);
    assert(t.last() == c);
}

/// Parses the digit run `s[from..to]`, rejecting any non-digit character.
fn parse_digits(s: &str, from: usize, to: usize) -> (r: Option<u64>)
    requires
        from <= to,
        to <= s@.len(),
        to - from <= 14,
    ensures
        r is Some <==> all_dec_digits(s@.subrange(from as int, to as int)),
        r matches Some(v) ==> v as nat == digits_value(s@.subrange(from as int, to as int)) && v
            < 100_000_000_000_000,
{
    let ghost sub = s@.subrange(from as int, to as int);
    let mut acc: u64 = 0;
    let mut j: usize = from;
    while j < to
        invariant
            from <= j <= to,
            to <= s@.len(),
            to - from <= 14,
            sub == s@.subrange(from as int, to as int),
            all_dec_digits(s@.subrange(from as int, j as int)),
            acc as nat == digits_value(s@.subrange(from as int, j as int)),
            (acc as nat) < pow10((j - from) as nat),
        decreases to - j,
    {
        let c = s.get_char(j);
        let u = c as u32;
        if u < 48 || u > 57 {
            proof {
                assert(sub[j - from] == s@[j as int]);
                assert(!is_dec_digit(sub[j - from]));
            }
            return None;
        }
        let d = (u - 48) as u64;
        proof {
            assert(s@.subrange(from as int, j + 1 as int) =~= s@.subrange(
                from as int,
                j as int,
            ).push(s@[j as int]));
            lemma_digits_value_snoc(
                s@.subrange(from as int, j as int),
                s@.subrange(from as int, j + 1 as int),
                s@[j as int],
            );
            lemma_pow10_mono((j + 1 - from) as nat, 14);
            lemma_pow10_values();
        }
        acc = acc * 10 + d;
        j = j + 1;
    }
    proof {
        assert(sub =~= s@.subrange(from as int, to as int));
        lemma_pow10_mono((to - from) as nat, 14);
        lemma_pow10_values();
    }
    Some(acc)
}

/// Parses a decimal amount string into minor units (ten-thousandths of a
/// whole unit). Returns `None` exactly when the string is not a well-formed
/// amount: empty, a misplaced or repeated dot, a non-digit character, more
/// than fourteen integer digits, or more than four fractional digits.
pub fn parse_amount(s: &str) -> (r: Option<u64>)
    ensures
        r is Some <==> is_amount(s@),
        r matches Some(v) ==> v as nat == amount_units(s@) && v < 1_000_000_000_000_000_000,
{
    let n: usize = s.unicode_len();
    // Find the first dot, if any.
    let mut dot: usize = n;
    let mut i: usize = 0;
    while i < n
        invariant
            i <= n,
            n == s@.len(),
            dot <= n,
            dot == n ==> forall|j: int| 0 <= j < i ==> s@[j] != '.',
            dot < n ==> dot < i && s@[dot as int] == '.' && (forall|j: int|
                0 <= j < dot ==> s@[j] != '.'),
        decreases n - i,
    {
        if dot == n && s.get_char(i) == '.' {
            dot = i;
        }
        i = i + 1;
    }
    if dot == n {
        // No fractional part.
        if n < 1 || n > 14 {
            proof {
                assert(!is_plain_amount(s@));
                assert forall|k: int| !is_split_amount_at(s@, k) by {
                    if 0 <= k < n {
                        assert(s@[k] != '.');
                    }
                }
            }
            return None;
        }
        let r = parse_digits(s, 0, n);
        proof {
            assert(s@.subrange(0, n as int) =~= s@);
            if all_dec_digits(s@) {
                assert(is_plain_amount(s@));
            } else {
                assert forall|k: int| !is_split_amount_at(s@, k) by {
                    if 0 <= k < n {
                        assert(s@[k] != '.');
                    }
                }
            }
        }
        match r {
            None => None,
            Some(v) => {
                proof {
                    lemma_amount_units_bound(s@);
                }
                Some(v * 10000)
            },
        }
    } else {
        // A dot at position `dot`; `is_split_amount_at` can only hold there,
        // since the integer digits admit no earlier dot and the fractional
        // digits admit no later one.
        proof {
            assert forall|k: int| is_split_amount_at(s@, k) implies k == dot as int by {
                if k < dot {
                    assert(s@[k] == '.');
                } else if k > dot {
                    assert(s@.take(k)[dot as int] == s@[dot as int]);
                    assert(is_dec_digit('.'));
                }
            }
            assert(!is_plain_amount(s@));
        }
        let frac_len = n - dot - 1;
        if dot < 1 || dot > 14 || frac_len < 1 || frac_len > 4 {
            return None;
        }
        let ri = parse_digits(s, 0, dot);
        let ghost int_part = s@.subrange(0, dot as int);
        proof {
            assert(int_part =~= s@.take(dot as int));
        }
        match ri {
            None => {
                proof {
                    assert forall|k: int| !is_split_amount_at(s@, k) by {
                        if k == dot as int {
                            assert(!all_dec_digits(s@.take(dot as int)));
                        }
                    }
                }
                None
            },
            Some(vi) => {
                let rf = parse_digits(s, dot + 1, n);
                let ghost frac_part = s@.subrange(dot + 1 as int, n as int);
                proof {
                    assert(frac_part =~= s@.skip(dot + 1));
                }
                match rf {
                    None => {
                        proof {
                            assert forall|k: int| !is_split_amount_at(s@, k) by {
                                if k == dot as int {
                                    assert(!all_dec_digits(s@.skip(dot + 1)));
                                }
                            }
                        }
                        None
                    },
                    Some(vf) => {
                        proof {
                            assert(is_split_amount_at(s@, dot as int));
                            lemma_split_unique(
                                s@,
                                dot as int,
                                choose|k: int| is_split_amount_at(s@, k),
                            );
                            lemma_amount_units_bound(s@);
                            lemma_digits_value_bound(frac_part);
                        }
                        let scale: u64 = if frac_len == 1 {
                            1000
                        } else if frac_len == 2 {
                            100
                        } else if frac_len == 3 {
                            10
                        } else {
                            1
                        };
                        proof {
                            lemma_pow10_values();
                        }
                        Some(vi * 10000 + vf * scale)
                    },
                }
            },
        }
    }
}

} // verus!
