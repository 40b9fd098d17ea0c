//! Decimal parsing of signed 64-bit integers, with an exact specification.
//!
//! The reducer treats the pending input as a number exactly the way
//! `str::parse::<i64>` does: an optional `+` or `-` sign followed by one or
//! more decimal digits, rejecting anything else (empty text, whitespace,
//! stray characters, or a value outside the `i64` range). `spec_parse_i64`
//! states that function mathematically, and `parse_i64` is proved to return
//! it on every input.

use vstd::prelude::*;

verus! {

/// `c` is a decimal digit.
pub open spec fn is_digit_char(c: char) -> bool {
    '0' <= c && c <= '9'
}

/// The numeric value of a digit character.
pub open spec fn digit_value(c: char) -> int {
    c as int - '0' as int
}

/// Every character of `s` is a decimal digit.
pub open spec fn all_digits(s: Seq<char>) -> bool {
    forall|i: int| 0 <= i < s.len() ==> is_digit_char(#[trigger] s[i])
}

/// The integer denoted by a string of decimal digits, most significant first.
pub open spec fn digits_value(s: Seq<char>) -> int
    decreases s.len(),
{
    if s.len() == 0 {
        0
    } else {
        digits_value(s.drop_last()) * 10 + digit_value(s.last())
    }
}

/// The digit part of `s`: everything after a leading sign, or all of `s`.
pub open spec fn digits_part(s: Seq<char>) -> Seq<char> {
    if s.len() > 0 && (s[0] == '+' || s[0] == '-') {
        s.subrange(1, s.len() as int)
    } else {
        s
    }
}

/// `s` carries a leading minus sign.
pub open spec fn is_negative(s: Seq<char>) -> bool {
    s.len() > 0 && s[0] == '-'
}

/// The mathematical integer `s` denotes, of any magnitude, or `None` where
/// `s` is not an optional sign followed by at least one decimal digit.
pub open spec fn spec_parse_int(s: Seq<char>) -> Option<int> {
    let ds = digits_part(s);
    if ds.len() > 0 && all_digits(ds) {
        if is_negative(s) {
            Some(-digits_value(ds))
        } else {
            Some(digits_value(ds))
        }
    } else {
        None
    }
}

/// What parsing `s` as an `i64` returns: the denoted integer where it exists
/// and fits, `None` otherwise.
pub open spec fn spec_parse_i64(s: Seq<char>) -> Option<i64> {
    match spec_parse_int(s) {
        Some(v) => if i64::MIN <= v <= i64::MAX {
            Some(v as i64)
        } else {
            None
        },
        None => None,
    }
}

/// A string of digits denotes a value of at least zero.
pub proof fn lemma_digits_value_nonneg(s: Seq<char>)
    requires
        all_digits(s),
    ensures
        digits_value(s) >= 0,
    decreases s.len(),
{
    if s.len() > 0 {
        assert(is_digit_char(s.last()));
        lemma_digits_value_nonneg(s.drop_last());
    }
}

/// Appending one digit multiplies the denoted value by ten and adds the digit.
pub proof fn lemma_digits_value_push(s: Seq<char>, c: char)
    ensures
        digits_value(s.push(c)) == digits_value(s) * 10 + digit_value(c),
{
    assert(s.push(c).drop_last() =~= s);
    assert(s.push(c).last() == c);
}

/// Parse `s` as a signed 64-bit integer: an optional sign followed by decimal
/// digits, exactly the value `str::parse::<i64>` accepts and returns.
pub fn parse_i64(s: &str) -> (r: Option<i64>)
    ensures
        r == spec_parse_i64(s@),
{
    let n = s.unicode_len();
    if n == 0 {
        return None;
    }
    let first = s.get_char(0);
    let neg = first == '-';
    let start: usize = if first == '-' || first == '+' {
        1
    } else {
        0
    };
    proof {
        assert(digits_part(s@) =~= s@.subrange(start as int, n as int));
    }
    if start == n {
        return None;
    }
    let limit: u64 = if neg {
        9223372036854775808
    } else {
        9223372036854775807
    };
    let mut mag: u64 = 0;
    let mut over = false;
    let mut i: usize = start;
    while i < n
        invariant
            n == s@.len(),
            start <= i <= n,
            start < n,
            digits_part(s@) =~= s@.subrange(start as int, n as int),
            neg == is_negative(s@),
            limit == (if neg {
                9223372036854775808u64
            } else {
                9223372036854775807u64
            }),
            forall|j: int| start <= j < i ==> is_digit_char(#[trigger] s@[j]),
            !over ==> mag == digits_value(s@.subrange(start as int, i as int)) && mag <= limit,
            over ==> digits_value(s@.subrange(start as int, i as int)) > limit,
        decreases n - i,
    {
        let c = s.get_char(i);
        if c < '0' || c > '9' {
            proof {
                assert(digits_part(s@)[i - start] == s@[i as int]);
                assert(!all_digits(digits_part(s@)));
            }
            return None;
        }
        let d: u64 = (c as u32 - 48) as u64;
        proof {
            assert(d == digit_value(s@[i as int]));
            assert(s@.subrange(start as int, i + 1 as int) =~= s@.subrange(
                start as int,
                i as int,
            ).push(s@[i as int]));
            lemma_digits_value_push(s@.subrange(start as int, i as int), s@[i as int]);
        }
        if over {
            proof {
                let prev = digits_value(s@.subrange(start as int, i as int));
                assert(prev * 10 + d >= prev + d) by (nonlinear_arith)
                    requires
                        prev > 0,
                ;
            }
        } else {
            if mag > (limit - d) / 10 {
                proof {
                    assert(mag * 10 + d > limit) by (nonlinear_arith)
                        requires
                            mag > (limit - d) / 10,
                            0 <= d <= 9,
                            d <= limit,
                    ;
                }
                over = true;
            } else {
                proof {
                    assert(mag * 10 + d <= limit) by (nonlinear_arith)
                        requires
                            mag <= (limit - d) / 10,
                            0 <= d <= 9,
                            d <= limit,
                    ;
                }
                mag = mag * 10 + d;
            }
        }
        i += 1;
    }
    proof {
        assert(s@.subrange(start as int, i as int) =~= digits_part(s@));
        assert(all_digits(digits_part(s@)));
        lemma_digits_value_nonneg(digits_part(s@));
    }
    if over {
        return None;
    }
    if neg {
        if mag == 9223372036854775808 {
            Some(i64::MIN)
        } else {
            Some(-(mag as i64))
        }
    } else {
        Some(mag as i64)
    }
}

} // verus!
