//! Decimal text of integers, as Rust's `to_string` writes it and `parse` reads it.

use vstd::prelude::*;

verus! {

pub open spec fn digit_char(d: nat) -> char
    recommends
        d < 10,
{
    if d == 0 {
        '0'
    } else if d == 1 {
        '1'
    } else if d == 2 {
        '2'
    } else if d == 3 {
        '3'
    } else if d == 4 {
        '4'
    } else if d == 5 {
        '5'
    } else if d == 6 {
        '6'
    } else if d == 7 {
        '7'
    } else if d == 8 {
        '8'
    } else {
        '9'
    }
}

fn digit_to_char(d: u64) -> (c: char)
    requires
        d < 10,
    ensures
        c == digit_char(d as nat),
{
    if d == 0 {
        '0'
    } else if d == 1 {
        '1'
    } else if d == 2 {
        '2'
    } else if d == 3 {
        '3'
    } else if d == 4 {
        '4'
    } else if d == 5 {
        '5'
    } else if d == 6 {
        '6'
    } else if d == 7 {
        '7'
    } else if d == 8 {
        '8'
    } else {
        '9'
    }
}

pub open spec fn is_digit(c: char) -> bool {
    '0' <= c && c <= '9'
}

pub open spec fn digit_value(c: char) -> int {
    (c as u32) - ('0' as u32)
}

/// The decimal digits of `n`, without leading zeros.
pub open spec fn nat_text(n: nat) -> Seq<char>
    decreases n,
{
    if n < 10 {
        seq![digit_char(n)]
    } else {
        nat_text(n / 10).push(digit_char(n % 10))
    }
}

/// The decimal text of `i`: `to_string` of an integer.
pub open spec fn int_text(i: int) -> Seq<char> {
    if i < 0 {
        seq!['-'] + nat_text((-i) as nat)
    } else {
        nat_text(i as nat)
    }
}

pub open spec fn all_digits(s: Seq<char>) -> bool {
    forall|k: int| 0 <= k < s.len() ==> is_digit(#[trigger] s[k])
}

/// The value of a string of decimal digits.
pub open spec fn digits_value(s: Seq<char>) -> int
    decreases s.len(),
{
    if s.len() == 0 {
        0
    } else {
        digits_value(s.drop_last()) * 10 + digit_value(s.last())
    }
}

/// What `str::parse::<i64>` accepts: an optional sign, then one or more
/// decimal digits, whose value fits in an `i64`.
pub open spec fn parse_i64_text(s: Seq<char>) -> Option<i64> {
    let negative = s.len() > 0 && s[0] == '-';
    let signed = s.len() > 0 && (s[0] == '-' || s[0] == '+');
    let digits = if signed {
        s.drop_first()
    } else {
        s
    };
    let value = if negative {
        -digits_value(digits)
    } else {
        digits_value(digits)
    };
    if digits.len() == 0 || !all_digits(digits) || value < i64::MIN || value > i64::MAX {
        None
    } else {
        Some(value as i64)
    }
}

fn push_nat_text(n: u64, out: &mut Vec<char>)
    ensures
        final(out)@ == old(out)@ + nat_text(n as nat),
    decreases n,
{
    if n >= 10 {
        push_nat_text(n / 10, out);
    }
    let c = digit_to_char(n % 10);
    out.push(c);
    proof {
        assert(c == digit_char((n % 10) as nat));
        if n >= 10 {
            assert(nat_text(n as nat) == nat_text((n / 10) as nat).push(digit_char((n % 10) as nat)));
        }
    }
}

/// The decimal text of an unsigned integer.
pub fn u64_text(n: u64) -> (out: Vec<char>)
    ensures
        out@ == nat_text(n as nat),
{
    let mut out: Vec<char> = Vec::new();
    push_nat_text(n, &mut out);
    assert(out@ =~= nat_text(n as nat));
    out
}

/// The decimal text of a signed integer (`i64::to_string`).
pub fn i64_text(n: i64) -> (out: Vec<char>)
    ensures
        out@ == int_text(n as int),
{
    let mut out: Vec<char> = Vec::new();
    if n < 0 {
        out.push('-');
        let magnitude: u64 = if n == i64::MIN {
            9_223_372_036_854_775_808
        } else {
            (-n) as u64
        };
        push_nat_text(magnitude, &mut out);
    } else {
        push_nat_text(n as u64, &mut out);
    }
    assert(out@ =~= int_text(n as int));
    out
}

/// `str::parse::<i64>` on a character sequence.
#[verifier::rlimit(50)]
pub fn parse_i64(s: &Vec<char>) -> (out: Option<i64>)
    ensures
        out == parse_i64_text(s@),
{
    let n = s.len();
    let negative = n > 0 && s[0] == '-';
    let signed = n > 0 && (s[0] == '-' || s[0] == '+');
    let start: usize = if signed {
        1
    } else {
        0
    };
    let ghost digits = if signed {
        s@.drop_first()
    } else {
        s@
    };
    assert(digits =~= s@.skip(start as int));
    if start == n {
        return None;
    }
    // The magnitude, kept exact while it stays within 2^63; past that it can only grow.
    let limit: u64 = 9_223_372_036_854_775_808;
    let mut value: u64 = 0;
    let mut over = false;
    let mut i = start;
    while i < n
        invariant
            start <= i <= n,
            n == s@.len(),
            limit == 9_223_372_036_854_775_808u64,
            signed == (s@.len() > 0 && (s@[0] == '-' || s@[0] == '+')),
            negative == (s@.len() > 0 && s@[0] == '-'),
            digits == if signed {
                s@.drop_first()
            } else {
                s@
            },
            digits == s@.skip(start as int),
            forall|k: int| 0 <= k < i - start ==> is_digit(#[trigger] digits[k]),
            !over ==> value == digits_value(digits.take(i - start)),
            over ==> digits_value(digits.take(i - start)) > limit,
            value <= limit,
        decreases n - i,
    {
        let c = s[i];
        let ghost t = digits.take(i - start + 1);
        proof {
            lemma_digits_step(digits, i - start);
        }
        assert(digits[i - start] == c);
        if !('0' <= c && c <= '9') {
            assert(!all_digits(digits)) by {
                assert(digits[i - start] == c);
            }
            proof {
                lemma_parse_rejects(s@, digits, signed);
            }
            return None;
        }
        assert(48 <= (c as u32) <= 57);
        let d = ((c as u32) - ('0' as u32)) as u64;
        assert(d == digit_value(c));
        assert(d < 10);
        proof {
            lemma_digits_value_nonneg(digits.take(i - start));
        }
        if !over {
            if value > (limit - d) / 10 {
                over = true;
                proof {
                    lemma_mul_add_over(value as int, d as int, limit as int);
                }
            } else {
                proof {
                    lemma_mul_add_within(value as int, d as int, limit as int);
                }
                value = value * 10 + d;
            }
        }
        i = i + 1;
    }
    assert(digits.take(n - start) =~= digits);
    if over {
        return None;
    }
    if negative {
        if value == limit {
            Some(i64::MIN)
        } else {
            Some(-(value as i64))
        }
    } else {
        if value == limit {
            None
        } else {
            Some(value as i64)
        }
    }
}

proof fn lemma_digits_step(digits: Seq<char>, k: int)
    requires
        0 <= k < digits.len(),
    ensures
        digits_value(digits.take(k + 1)) == digits_value(digits.take(k)) * 10 + digit_value(
            digits[k],
        ),
{
    assert(digits.take(k + 1).drop_last() =~= digits.take(k));
}

proof fn lemma_mul_add_over(v: int, d: int, limit: int)
    requires
        0 <= d < 10,
        limit > 10,
        v > (limit - d) / 10,
    ensures
        v * 10 + d > limit,
{
}

proof fn lemma_mul_add_within(v: int, d: int, limit: int)
    requires
        0 <= d < 10,
        limit > 10,
        0 <= v <= (limit - d) / 10,
    ensures
        v * 10 + d <= limit,
{
}

pub proof fn lemma_digits_value_nonneg(s: Seq<char>)
    requires
        all_digits(s),
    ensures
        digits_value(s) >= 0,
    decreases s.len(),
{
    if s.len() > 0 {
        assert(all_digits(s.drop_last()));
        lemma_digits_value_nonneg(s.drop_last());
        assert(is_digit(s[s.len() - 1]));
    }
}

/// Writing then reading a natural number gives it back.
pub proof fn lemma_nat_text_value(n: nat)
    ensures
        all_digits(nat_text(n)),
        nat_text(n).len() > 0,
        digits_value(nat_text(n)) == n,
        is_digit(nat_text(n)[0]),
    decreases n,
{
    let t = nat_text(n);
    if n >= 10 {
        lemma_nat_text_value(n / 10);
        assert(t.drop_last() =~= nat_text(n / 10));
        assert(t[0] == nat_text(n / 10)[0]);
        lemma_digit_char_value((n % 10) as nat);
        assert(t.last() == digit_char((n % 10) as nat));
        assert(digits_value(t) == digits_value(nat_text(n / 10)) * 10 + digit_value(
            digit_char((n % 10) as nat),
        ));
        assert(n == (n / 10) * 10 + n % 10);
    } else {
        assert(t.drop_last() =~= Seq::<char>::empty());
        assert(digits_value(Seq::<char>::empty()) == 0);
        lemma_digit_char_value(n);
        assert(t.last() == digit_char(n));
    }
}

pub open spec fn pow10(k: nat) -> nat
    decreases k,
{
    if k == 0 {
        1
    } else {
        10 * pow10((k - 1) as nat)
    }
}

/// A number below 10^k has at most `k` digits.
pub proof fn lemma_nat_text_len(n: nat, k: nat)
    requires
        k >= 1,
        n < pow10(k),
    ensures
        nat_text(n).len() <= k,
    decreases k,
{
    if n >= 10 {
        assert(k >= 2) by {
            if k == 1 {
                assert(pow10(1) == 10) by {
                    assert(pow10(0) == 1);
                }
            }
        }
        assert(n / 10 < pow10((k - 1) as nat));
        lemma_nat_text_len(n / 10, (k - 1) as nat);
    }
}

pub proof fn lemma_digit_char_value(d: nat)
    requires
        d < 10,
    ensures
        is_digit(digit_char(d)),
        digit_value(digit_char(d)) == d,
{
}

proof fn lemma_parse_rejects(s: Seq<char>, digits: Seq<char>, signed: bool)
    requires
        signed == (s.len() > 0 && (s[0] == '-' || s[0] == '+')),
        digits == if signed {
            s.drop_first()
        } else {
            s
        },
        !all_digits(digits),
    ensures
        parse_i64_text(s) is None,
{
}

/// `parse::<i64>` reads back what `to_string` writes.
pub proof fn lemma_parse_int_text(m: i64)
    ensures
        parse_i64_text(int_text(m as int)) == Some(m),
{
    if m < 0 {
        let mag = (-(m as int)) as nat;
        lemma_nat_text_value(mag);
        let s = int_text(m as int);
        assert(s.drop_first() =~= nat_text(mag));
    } else {
        lemma_nat_text_value(m as nat);
    }
}

} // verus!
