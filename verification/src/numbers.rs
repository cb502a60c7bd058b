//! Decimal text for integers: rendering (`Display` of an integer) and parsing
//! (`i64::from_str`).
use vstd::prelude::*;
use crate::text::{is_digit, string_of};

verus! {

/// The ASCII digit for `d` (0..=9).
pub open spec fn digit_char(d: int) -> char {
    (('0' as int) + d) as char
}

/// The decimal digits of `n`, most significant first, without leading zeros
/// (`"0"` for zero).
pub open spec fn decimal_digits(n: nat) -> Seq<char>
    decreases n,
{
    if n < 10 {
        seq![digit_char(n as int)]
    } else {
        decimal_digits(n / 10).push(digit_char((n % 10) as int))
    }
}

/// The decimal text of `n`, with a leading `-` when negative.
pub open spec fn decimal(n: int) -> Seq<char> {
    if n < 0 {
        seq!['-'] + decimal_digits((-n) as nat)
    } else {
        decimal_digits(n as nat)
    }
}

/// The value of a run of decimal digits.
pub open spec fn digits_value(s: Seq<char>) -> int
    decreases s.len(),
{
    if s.len() == 0 {
        0
    } else {
        digits_value(s.drop_last()) * 10 + ((s.last() as int) - ('0' as int))
    }
}

pub open spec fn all_digits(s: Seq<char>) -> bool {
    forall|i: int| 0 <= i < s.len() ==> is_digit(#[trigger] s[i])
}

/// `i64::from_str`: an optional `+` or `-`, then one or more ASCII digits,
/// whose value fits in an `i64`.
pub open spec fn parsed_i64(s: Seq<char>) -> Option<int> {
    let neg = s.len() > 0 && s[0] == '-';
    let body = if s.len() > 0 && (s[0] == '-' || s[0] == '+') {
        s.drop_first()
    } else {
        s
    };
    if body.len() > 0 && all_digits(body) {
        let v = if neg {
            -digits_value(body)
        } else {
            digits_value(body)
        };
        if i64::MIN <= v <= i64::MAX {
            Some(v)
        } else {
            None
        }
    } else {
        None
    }
}

proof fn lemma_digits_value_nonneg(s: Seq<char>)
    requires
        all_digits(s),
    ensures
        digits_value(s) >= 0,
    decreases s.len(),
{
    if s.len() > 0 {
        assert(all_digits(s.drop_last())) by {
            assert forall|i: int| 0 <= i < s.drop_last().len() implies is_digit(#[trigger] s.drop_last()[i]) by {
                assert(s.drop_last()[i] == s[i]);
            }
        }
        lemma_digits_value_nonneg(s.drop_last());
        assert(is_digit(s[s.len() - 1]));
    }
}

proof fn lemma_digits_value_mono(s: Seq<char>, k: int)
    requires
        all_digits(s),
        0 <= k <= s.len(),
    ensures
        digits_value(s.take(k)) <= digits_value(s),
    decreases s.len() - k,
{
    if k < s.len() {
        lemma_digits_value_mono(s, k + 1);
        let t = s.take(k + 1);
        assert(t.drop_last() == s.take(k));
        assert(all_digits(s.take(k))) by {
            assert forall|i: int| 0 <= i < s.take(k).len() implies is_digit(#[trigger] s.take(k)[i]) by {
                assert(s.take(k)[i] == s[i]);
            }
        }
        lemma_digits_value_nonneg(s.take(k));
        assert(t.last() == s[k]);
        assert(is_digit(s[k]));
    } else {
        assert(s.take(k) == s);
    }
}

/// Renders a non-negative integer in decimal.
pub fn decimal_u64(n: u64) -> (out: String)
    ensures
        out@ == decimal_digits(n as nat),
{
    let mut digits: Vec<char> = Vec::new();
    let mut m: u64 = n;
    // digits holds the lowest digits of n, least significant first
    while m >= 10
        invariant
            decimal_digits(n as nat) == decimal_digits(m as nat) + digits@.reverse(),
        decreases m,
    {
        let d: u64 = m % 10;
        let c = char_from_digit(d);
        proof {
            let q = (m / 10) as nat;
            assert(decimal_digits(m as nat) == decimal_digits(q).push(digit_char(d as int)));
            assert(digits@.push(c).reverse() == seq![c] + digits@.reverse());
            assert(decimal_digits(m as nat) + digits@.reverse() == decimal_digits(q) + digits@.push(c).reverse());
        }
        digits.push(c);
        m = m / 10;
    }
    let c = char_from_digit(m);
    proof {
        assert(digits@.push(c).reverse() == seq![c] + digits@.reverse());
        assert(decimal_digits(m as nat) == seq![c]);
    }
    digits.push(c);
    let mut out: Vec<char> = Vec::new();
    let mut i: usize = digits.len();
    let ghost rev = digits@.reverse();
    while i > 0
        invariant
            i <= digits@.len(),
            rev == digits@.reverse(),
            out@ == rev.take((digits@.len() - i) as int),
        decreases i,
    {
        i = i - 1;
        proof {
            assert(rev[(digits@.len() - i - 1) as int] == digits@[i as int]);
            assert(rev.take((digits@.len() - i) as int) == rev.take((digits@.len() - i - 1) as int).push(digits@[i as int]));
        }
        out.push(digits[i]);
    }
    assert(rev.take(digits@.len() as int) == rev);
    string_of(&out)
}

fn char_from_digit(d: u64) -> (c: char)
    requires
        d < 10,
    ensures
        c == digit_char(d as int),
{
    let b: u8 = (48 + d) as u8;
    b as char
}

/// Renders an integer in decimal, as `Display` for `i64` does.
pub fn decimal_i64(n: i64) -> (out: String)
    ensures
        out@ == decimal(n as int),
{
    if n < 0 {
        let m: u64 = if n == i64::MIN {
            9223372036854775808u64
        } else {
            (-n) as u64
        };
        let digits = decimal_u64(m);
        let mut out: String = "-".to_owned();
        out.append(digits.as_str());
        proof {
            reveal_strlit("-");
        }
        out
    } else {
        decimal_u64(n as u64)
    }
}

/// Renders a count in decimal.
pub fn decimal_usize(n: usize) -> (out: String)
    ensures
        out@ == decimal_digits(n as nat),
{
    decimal_u64(n as u64)
}

/// `i64::from_str` on the characters `s`.
pub fn parse_i64(s: &[char]) -> (r: Option<i64>)
    ensures
        match r {
            Some(v) => parsed_i64(s@) == Some(v as int),
            None => parsed_i64(s@) is None,
        },
{
    let neg = s.len() > 0 && s[0] == '-';
    let start: usize = if s.len() > 0 && (s[0] == '-' || s[0] == '+') {
        1
    } else {
        0
    };
    let ghost body = s@.skip(start as int);
    assert(body == if s@.len() > 0 && (s@[0] == '-' || s@[0] == '+') {
        s@.drop_first()
    } else {
        s@
    });
    if start >= s.len() {
        return None;
    }
    // magnitude limit: 2^63 for negative numbers, 2^63 - 1 otherwise
    let limit: u64 = if neg {
        9223372036854775808u64
    } else {
        9223372036854775807u64
    };
    let mut acc: u64 = 0;
    let mut i: usize = start;
    while i < s.len()
        invariant
            start <= i <= s@.len(),
            start as int == if s@.len() > 0 && (s@[0] == '-' || s@[0] == '+') { 1int } else { 0int },
            neg == (s@.len() > 0 && s@[0] == '-'),
            body == s@.skip(start as int),
            body == if s@.len() > 0 && (s@[0] == '-' || s@[0] == '+') { s@.drop_first() } else { s@ },
            all_digits(body.take(i - start)),
            acc as int == digits_value(body.take(i - start)),
            acc <= limit,
            limit == if neg { 9223372036854775808u64 } else { 9223372036854775807u64 },
        decreases s@.len() - i,
    {
        let c = s[i];
        let ghost pre = body.take(i - start);
        let ghost cur = body.take(i - start + 1);
        assert(cur.drop_last() == pre);
        assert(cur.last() == c);
        if !('0' <= c && c <= '9') {
            assert(!all_digits(body)) by {
                assert(body[i - start] == c);
                assert(!is_digit(body[i - start]));
            }
            return None;
        }
        let d: u64 = (c as u32 - '0' as u32) as u64;
        if acc > (limit - d) / 10 {
            // the value of the digits read so far already exceeds the limit
            proof {
                assert(all_digits(cur)) by {
                    assert forall|k: int| 0 <= k < cur.len() implies is_digit(#[trigger] cur[k]) by {
                        if k < cur.len() - 1 {
                            assert(cur[k] == pre[k]);
                        }
                    }
                }
                assert(acc * 10 + d > limit) by (nonlinear_arith)
                    requires acc > (limit - d) / 10, d <= 9, d <= limit;
            }
            proof {
                assert(digits_value(cur) == acc * 10 + d);
            }
            if !all_digits_from(s, i + 1) {
                proof {
                    let k = choose|k: int| i + 1 <= k < s@.len() && !is_digit(#[trigger] s@[k]);
                    assert(body[k - start] == s@[k]);
                    assert(!all_digits(body));
                }
            } else {
                proof {
                    assert(all_digits(body)) by {
                        assert forall|k: int| 0 <= k < body.len() implies is_digit(#[trigger] body[k]) by {
                            if k < i - start + 1 {
                                assert(body[k] == cur[k]);
                            } else {
                                assert(body[k] == s@[start + k]);
                            }
                        }
                    }
                    lemma_digits_value_mono(body, i - start + 1);
                    assert(digits_value(body) > limit);
                    if neg {
                        assert(-digits_value(body) < i64::MIN);
                    } else {
                        assert(digits_value(body) > i64::MAX);
                    }
                    assert(parsed_i64(s@) is None);
                }
            }
            return None;
        }
        proof {
            assert(acc * 10 + d <= limit) by (nonlinear_arith)
                requires acc <= (limit - d) / 10, d <= 9, d <= limit;
            assert(all_digits(cur)) by {
                assert forall|k: int| 0 <= k < cur.len() implies is_digit(#[trigger] cur[k]) by {
                    if k < cur.len() - 1 {
                        assert(cur[k] == pre[k]);
                    }
                }
            }
        }
        acc = acc * 10 + d;
        i = i + 1;
    }
    assert(body.take(i - start) == body);
    if neg {
        if acc == 9223372036854775808u64 {
            Some(i64::MIN)
        } else {
            Some(-(acc as i64))
        }
    } else {
        Some(acc as i64)
    }
}

/// Whether `s[from..]` is all ASCII digits.
fn all_digits_from(s: &[char], from: usize) -> (b: bool)
    ensures
        b == (forall|k: int| from <= k < s@.len() ==> is_digit(#[trigger] s@[k])),
{
    let mut k: usize = from;
    while k < s.len()
        invariant
            from <= k || k == from,
            forall|j: int| from <= j < k ==> is_digit(#[trigger] s@[j]),
        decreases s@.len() - k,
    {
        if !('0' <= s[k] && s[k] <= '9') {
            return false;
        }
        k = k + 1;
    }
    true
}

} // verus!
