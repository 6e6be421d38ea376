//! Decimal text of 64-bit integers: how settings are written to the store
//! (`i64::to_string`) and read back from it (`str::parse::<i64>`).

use vstd::prelude::*;
use crate::text;

verus! {

/// Whether `c` is one of `0`..`9`.
pub open spec fn is_digit(c: char) -> bool {
    '0' <= c <= '9'
}

/// The value of a decimal digit.
pub open spec fn digit_value(c: char) -> int {
    (c as int) - ('0' as int)
}

/// The digit of a value below ten.
pub open spec fn digit_char(d: nat) -> char {
    if d == 0 {
        '0'
    } else if d == 1 {
        '1'
    } else if d == 2 {
        '2'
    } else if d == 3 {
        '3'
    } else if d == 4 {
        '4'
    } else if d == 5 {
        '5'
    } else if d == 6 {
        '6'
    } else if d == 7 {
        '7'
    } else if d == 8 {
        '8'
    } else {
        '9'
    }
}

pub open spec fn all_digits(s: Seq<char>) -> bool {
    forall|i: int| 0 <= i < s.len() ==> is_digit(#[trigger] s[i])
}

/// The value of a string of decimal digits.
pub open spec fn digits_value(s: Seq<char>) -> int
    decreases s.len(),
{
    if s.len() == 0 {
        0
    } else {
        digits_value(s.drop_last()) * 10 + digit_value(s.last())
    }
}

/// What `str::parse::<i64>` gives: an optional `+` or `-`, then one or more
/// decimal digits whose value, with its sign, fits in an `i64`; else nothing.
pub open spec fn parsed_i64(s: Seq<char>) -> Option<i64> {
    let signed = s.len() > 0 && (s[0] == '-' || s[0] == '+');
    let negative = s.len() > 0 && s[0] == '-';
    let digits = if signed {
        s.drop_first()
    } else {
        s
    };
    if digits.len() == 0 || !all_digits(digits) {
        None
    } else {
        let v = if negative {
            -digits_value(digits)
        } else {
            digits_value(digits)
        };
        if i64::MIN <= v <= i64::MAX {
            Some(v as i64)
        } else {
            None
        }
    }
}

/// The decimal digits of `m`, without leading zeros.
pub open spec fn digits_of(m: nat) -> Seq<char>
    decreases m,
{
    if m < 10 {
        seq![digit_char(m)]
    } else {
        digits_of(m / 10).push(digit_char(m % 10))
    }
}

/// The decimal text of `n`, as `i64::to_string` writes it.
pub open spec fn decimal(n: int) -> Seq<char> {
    if n < 0 {
        seq!['-'] + digits_of((-n) as nat)
    } else {
        digits_of(n as nat)
    }
}

proof fn lemma_digits_value_nonneg(s: Seq<char>)
    requires
        all_digits(s),
    ensures
        digits_value(s) >= 0,
    decreases s.len(),
{
    if s.len() > 0 {
        lemma_digits_value_nonneg(s.drop_last());
    }
}

proof fn lemma_digits_value_prefix(s: Seq<char>, k: int)
    requires
        all_digits(s),
        0 <= k <= s.len(),
    ensures
        digits_value(s.take(k)) <= digits_value(s),
    decreases s.len(),
{
    if k < s.len() {
        lemma_digits_value_prefix(s.drop_last(), k);
        assert(s.drop_last().take(k) =~= s.take(k));
        lemma_digits_value_nonneg(s.drop_last());
    } else {
        assert(s.take(k) =~= s);
    }
}

fn digit_of(c: char) -> (r: Option<u32>)
    ensures
        match r {
            Some(d) => is_digit(c) && d == digit_value(c),
            None => !is_digit(c),
        },
{
    if '0' <= c && c <= '9' {
        Some((c as u32) - ('0' as u32))
    } else {
        None
    }
}

/// Reads `s` as `str::parse::<i64>` does.
pub fn parse_i64(s: &str) -> (r: Option<i64>)
    ensures
        r == parsed_i64(s@),
{
    let v = text::chars_of(s);
    let n = v.len();
    let negative = n > 0 && v[0] == '-';
    let signed = n > 0 && (v[0] == '-' || v[0] == '+');
    let start: usize = if signed {
        1
    } else {
        0
    };
    let ghost digits = v@.subrange(start as int, n as int);
    assert(digits =~= if signed {
        v@.drop_first()
    } else {
        v@
    });
    if start == n {
        return None;
    }
    let limit: u128 = if negative {
        0x8000_0000_0000_0000
    } else {
        0x7fff_ffff_ffff_ffff
    };
    let mut acc: u128 = 0;
    let mut i: usize = start;
    while i < n
        invariant
            start <= i <= n == v.len(),
            v@ == s@,
            signed == (v@.len() > 0 && (v@[0] == '-' || v@[0] == '+')),
            negative == (v@.len() > 0 && v@[0] == '-'),
            digits == v@.subrange(start as int, n as int),
            digits == if signed {
                v@.drop_first()
            } else {
                v@
            },
            all_digits(v@.subrange(start as int, i as int)),
            acc == digits_value(v@.subrange(start as int, i as int)),
            acc <= limit,
            limit == if negative {
                0x8000_0000_0000_0000u128
            } else {
                0x7fff_ffff_ffff_ffffu128
            },
        decreases n - i,
    {
        let ghost before = v@.subrange(start as int, i as int);
        let ghost after = v@.subrange(start as int, i + 1);
        assert(after.drop_last() =~= before);
        match digit_of(v[i]) {
            None => {
                assert(digits[i - start] == v@[i as int]);
                assert(!all_digits(digits));
                assert(parsed_i64(s@) is None);
                return None;
            },
            Some(d) => {
                assert(all_digits(after)) by {
                    assert forall|j: int| 0 <= j < after.len() implies is_digit(after[j]) by {
                        if j < before.len() {
                            assert(after[j] == before[j]);
                        }
                    }
                }
                assert(after.last() == v@[i as int]);
                assert(digits_value(after) == digits_value(before) * 10 + digit_value(v@[i as int]));
                acc = acc * 10 + (d as u128);
                i += 1;
                assert(acc == digits_value(after));
                if acc > limit {
                    proof {
                        if all_digits(digits) {
                            assert(digits.take(i - start) =~= after);
                            lemma_digits_value_prefix(digits, i - start);
                            assert(digits_value(digits) > limit);
                        }
                    }
                    assert(parsed_i64(s@) is None);
                    return None;
                }
            },
        }
    }
    assert(v@.subrange(start as int, n as int) =~= digits);
    if negative {
        Some((0 - (acc as i128)) as i64)
    } else {
        Some(acc as i64)
    }
}

fn digit_to_char(d: u64) -> (c: char)
    requires
        d < 10,
    ensures
        c == digit_char(d as nat),
{
    let c = if d == 0 {
        '0'
    } else if d == 1 {
        '1'
    } else if d == 2 {
        '2'
    } else if d == 3 {
        '3'
    } else if d == 4 {
        '4'
    } else if d == 5 {
        '5'
    } else if d == 6 {
        '6'
    } else if d == 7 {
        '7'
    } else if d == 8 {
        '8'
    } else {
        '9'
    };
    c
}

fn push_digits(m: u64, out: &mut Vec<char>)
    ensures
        final(out)@ == old(out)@ + digits_of(m as nat),
    decreases m,
{
    if m >= 10 {
        push_digits(m / 10, out);
    }
    out.push(digit_to_char(m % 10));
    assert(final(out)@ =~= old(out)@ + digits_of(m as nat));
}

/// Writes `n` in decimal, as `i64::to_string` does.
pub fn format_i64(n: i64) -> (r: String)
    ensures
        r@ == decimal(n as int),
{
    let mut out: Vec<char> = Vec::new();
    let magnitude: u64 = if n < 0 {
        out.push('-');
        (0 - (n as i128)) as u64
    } else {
        n as u64
    };
    push_digits(magnitude, &mut out);
    assert(out@ =~= decimal(n as int));
    text::string_of(&out)
}

proof fn lemma_digit_char(d: nat)
    requires
        d < 10,
    ensures
        is_digit(digit_char(d)),
        digit_value(digit_char(d)) == d,
{
}

proof fn lemma_digits_of(m: nat)
    ensures
        digits_of(m).len() > 0,
        all_digits(digits_of(m)),
        digits_value(digits_of(m)) == m,
    decreases m,
{
    lemma_digit_char(m % 10);
    if m >= 10 {
        lemma_digits_of(m / 10);
        let s = digits_of(m);
        assert(s.drop_last() =~= digits_of(m / 10));
        assert(s.last() == digit_char(m % 10));
        assert(m == (m / 10) * 10 + m % 10);
        assert forall|i: int| 0 <= i < s.len() implies is_digit(#[trigger] s[i]) by {
            if i < s.len() - 1 {
                assert(s[i] == digits_of(m / 10)[i]);
            }
        }
    } else {
        let s = digits_of(m);
        assert(s.drop_last() =~= Seq::<char>::empty());
        assert(digits_value(Seq::<char>::empty()) == 0);
        assert(s.last() == digit_char(m));
    }
}

/// Reading back the decimal text of an integer gives the integer.
pub proof fn lemma_parse_decimal(n: i64)
    ensures
        parsed_i64(decimal(n as int)) == Some(n),
{
    if n < 0 {
        let m = (-n) as nat;
        lemma_digits_of(m);
        assert(decimal(n as int).drop_first() =~= digits_of(m));
    } else {
        lemma_digits_of(n as nat);
    }
}

} // verus!
