//! Reading numbers from text the way Rust's `FromStr` for integers does,
//! and recognising the text Rust's `f64` parser accepts.

use vstd::prelude::*;

use crate::text::{digit_value, is_digit};

verus! {

/// Value of a string of decimal digits (0 for the empty string).
pub open spec fn digits_value(s: Seq<char>) -> int
    decreases s.len(),
{
    if s.len() == 0 {
        0
    } else {
        digits_value(s.drop_last()) * 10 + digit_value(s.last())
    }
}

pub open spec fn all_digits(s: Seq<char>) -> bool {
    forall|i: int| 0 <= i < s.len() ==> is_digit(#[trigger] s[i])
}

/// What Rust's integer `FromStr` reads from `s` before the range check:
/// an optional `+` (or `-` for signed types), then one or more ASCII
/// digits, nothing else.
pub open spec fn integer_text_value(s: Seq<char>, signed: bool) -> Option<int> {
    if s.len() == 0 {
        None
    } else {
        let neg = signed && s[0] == '-';
        let body = if s[0] == '+' || neg {
            s.drop_first()
        } else {
            s
        };
        if body.len() == 0 || !all_digits(body) {
            None
        } else {
            Some(
                if neg {
                    -digits_value(body)
                } else {
                    digits_value(body)
                },
            )
        }
    }
}

/// `s.parse::<i64>()`.
pub open spec fn parse_i64_spec(s: Seq<char>) -> Option<i64> {
    match integer_text_value(s, true) {
        Some(v) => if i64::MIN <= v <= i64::MAX {
            Some(v as i64)
        } else {
            None
        },
        None => None,
    }
}

/// `s.parse::<u16>()`.
pub open spec fn parse_u16_spec(s: Seq<char>) -> Option<u16> {
    match integer_text_value(s, false) {
        Some(v) => if 0 <= v <= u16::MAX {
            Some(v as u16)
        } else {
            None
        },
        None => None,
    }
}

pub proof fn lemma_digits_value_nonneg(s: Seq<char>)
    requires
        all_digits(s),
    ensures
        digits_value(s) >= 0,
    decreases s.len(),
{
    if s.len() > 0 {
        lemma_digits_value_nonneg(s.drop_last());
    }
}

/// A digit string is worth at least as much as any of its prefixes.
pub proof fn lemma_digits_value_prefix(s: Seq<char>, k: int)
    requires
        all_digits(s),
        0 <= k <= s.len(),
    ensures
        digits_value(s.take(k)) <= digits_value(s),
    decreases s.len() - k,
{
    if k == s.len() {
        assert(s.take(k) =~= s);
    } else {
        lemma_digits_value_prefix(s, k + 1);
        assert(s.take(k + 1).drop_last() =~= s.take(k));
        assert(s.take(k + 1).last() == s[k]);
        assert(is_digit(s[k]));
        assert(all_digits(s.take(k))) by {
            assert forall|i: int| 0 <= i < s.take(k).len() implies is_digit(
                #[trigger] s.take(k)[i],
            ) by {
                assert(s.take(k)[i] == s[i]);
            }
        }
        lemma_digits_value_nonneg(s.take(k));
        assert(digits_value(s.take(k + 1)) == digits_value(s.take(k)) * 10 + digit_value(s[k]));
    }
}

/// Reads the digits of `cs[lo..hi]` (all must be digits, at least one),
/// giving up with `None` once the value exceeds `limit`.
fn read_digits(cs: &[char], lo: usize, hi: usize, limit: u64) -> (r: Option<u64>)
    requires
        lo <= hi <= cs.len(),
        limit >= 9,
    ensures
        ({
            let body = cs@.subrange(lo as int, hi as int);
            match r {
                Some(v) => body.len() > 0 && all_digits(body) && v == digits_value(body) && v
                    <= limit,
                None => body.len() == 0 || !all_digits(body) || digits_value(body) > limit,
            }
        }),
{
    let ghost body = cs@.subrange(lo as int, hi as int);
    if lo == hi {
        return None;
    }
    let mut acc: u64 = 0;
    let mut i: usize = lo;
    while i < hi
        invariant
            lo <= i <= hi <= cs.len(),
            body == cs@.subrange(lo as int, hi as int),
            all_digits(body.take(i - lo)),
            acc == digits_value(body.take(i - lo)),
            acc <= limit,
            limit >= 9,
        decreases hi - i,
    {
        let c = cs[i];
        if !('0' <= c && c <= '9') {
            proof {
                assert(body[i - lo] == c);
            }
            return None;
        }
        let d = (c as u32 - 48) as u64;
        proof {
            assert(body.take(i - lo + 1).drop_last() =~= body.take(i - lo));
            assert(body.take(i - lo + 1).last() == c);
        }
        if acc > (limit - d) / 10 {
            proof {
                assert(digits_value(body.take(i - lo + 1)) == acc * 10 + d);
                assert(acc * 10 + d > limit) by (nonlinear_arith)
                    requires
                        acc > (limit - d) / 10,
                        d <= 9,
                        d <= limit,
                ;
                if all_digits(body) {
                    lemma_digits_value_prefix(body, i - lo + 1);
                }
            }
            return None;
        }
        proof {
            assert((limit - d) / 10 * 10 <= limit - d) by (nonlinear_arith)
                requires
                    d <= limit,
            ;
            assert(acc * 10 <= (limit - d) / 10 * 10) by (nonlinear_arith)
                requires
                    acc <= (limit - d) / 10,
            ;
        }
        acc = acc * 10 + d;
        proof {
            assert forall|j: int| 0 <= j < i - lo + 1 implies is_digit(
                #[trigger] body.take(i - lo + 1)[j],
            ) by {
                if j < i - lo {
                    assert(body.take(i - lo + 1)[j] == body.take(i - lo)[j]);
                }
            }
        }
        i = i + 1;
    }
    proof {
        assert(body.take(hi - lo) =~= body);
    }
    Some(acc)
}

/// `cs[lo..hi].parse::<i64>()`.
pub fn parse_i64(cs: &[char], lo: usize, hi: usize) -> (r: Option<i64>)
    requires
        lo <= hi <= cs.len(),
    ensures
        r == parse_i64_spec(cs@.subrange(lo as int, hi as int)),
{
    let ghost s = cs@.subrange(lo as int, hi as int);
    if lo == hi {
        return None;
    }
    let neg = cs[lo] == '-';
    let start = if cs[lo] == '+' || neg {
        lo + 1
    } else {
        lo
    };
    proof {
        if start == lo + 1 {
            assert(cs@.subrange(start as int, hi as int) =~= s.drop_first());
        } else {
            assert(cs@.subrange(start as int, hi as int) =~= s);
        }
    }
    let limit: u64 = if neg {
        9_223_372_036_854_775_808
    } else {
        9_223_372_036_854_775_807
    };
    match read_digits(cs, start, hi, limit) {
        Some(v) => {
            if neg {
                if v == 9_223_372_036_854_775_808 {
                    Some(i64::MIN)
                } else {
                    Some(-(v as i64))
                }
            } else {
                Some(v as i64)
            }
        },
        None => None,
    }
}

/// `cs[lo..hi].parse::<u16>()`.
pub fn parse_u16(cs: &[char], lo: usize, hi: usize) -> (r: Option<u16>)
    requires
        lo <= hi <= cs.len(),
    ensures
        r == parse_u16_spec(cs@.subrange(lo as int, hi as int)),
{
    let ghost s = cs@.subrange(lo as int, hi as int);
    if lo == hi {
        return None;
    }
    let start = if cs[lo] == '+' {
        lo + 1
    } else {
        lo
    };
    proof {
        if start == lo + 1 {
            assert(cs@.subrange(start as int, hi as int) =~= s.drop_first());
        } else {
            assert(cs@.subrange(start as int, hi as int) =~= s);
        }
    }
    match read_digits(cs, start, hi, 65535) {
        Some(v) => Some(v as u16),
        None => None,
    }
}

// ---------------------------------------------------------------------------
// The f64 grammar
// ---------------------------------------------------------------------------
/// ASCII lower case of `c`.
pub open spec fn ascii_lower(c: char) -> char {
    if 'A' <= c && c <= 'Z' {
        ((c as u32) + 32) as char
    } else {
        c
    }
}

/// `s` equals the lower-case ASCII word `w` ignoring ASCII case.
pub open spec fn equals_ignoring_case(s: Seq<char>, w: Seq<char>) -> bool {
    s.len() == w.len() && forall|i: int| 0 <= i < s.len() ==> ascii_lower(s[i]) == w[i]
}

/// The mantissa of a decimal float: digits with at most one `.`, and at
/// least one digit.
pub open spec fn is_mantissa(m: Seq<char>) -> bool {
    &&& forall|i: int| 0 <= i < m.len() ==> is_digit(m[i]) || m[i] == '.'
    &&& forall|i: int, j: int| 0 <= i < m.len() && 0 <= j < m.len() && m[i] == '.' && m[j] == '.' ==> i == j
    &&& exists|i: int| 0 <= i < m.len() && is_digit(m[i])
}

/// An exponent part: empty, or `e`/`E`, an optional sign, one or more digits.
pub open spec fn is_exponent(x: Seq<char>) -> bool {
    x.len() == 0 || ((x[0] == 'e' || x[0] == 'E') && {
        let rest = x.drop_first();
        let digits = if rest.len() > 0 && (rest[0] == '+' || rest[0] == '-') {
            rest.drop_first()
        } else {
            rest
        };
        digits.len() > 0 && all_digits(digits)
    })
}

/// Position of the first `e` or `E` in `s`, or its length.
pub open spec fn exponent_start(s: Seq<char>, from: int) -> int
    decreases s.len() - from,
{
    if from >= s.len() {
        s.len() as int
    } else if s[from] == 'e' || s[from] == 'E' {
        from
    } else {
        exponent_start(s, from + 1)
    }
}

/// The text Rust's `f64::from_str` accepts (its documented grammar): an
/// optional sign, then `inf`, `infinity` or `nan` in any ASCII case, or a
/// decimal number with an optional exponent.
pub open spec fn is_float_text(s: Seq<char>) -> bool {
    let b = if s.len() > 0 && (s[0] == '+' || s[0] == '-') {
        s.drop_first()
    } else {
        s
    };
    let k = exponent_start(b, 0);
    equals_ignoring_case(b, "inf"@) || equals_ignoring_case(b, "infinity"@)
        || equals_ignoring_case(b, "nan"@) || (is_mantissa(b.take(k)) && is_exponent(b.skip(k)))
}

fn lower(c: char) -> (r: char)
    ensures
        r == ascii_lower(c),
{
    if 'A' <= c && c <= 'Z' {
        ((c as u32) + 32) as u8 as char
    } else {
        c
    }
}

/// `cs[lo..hi]` equals `w` ignoring ASCII case (`w` lower case).
fn word_ignoring_case(cs: &[char], lo: usize, hi: usize, w: &str) -> (r: bool)
    requires
        lo <= hi <= cs.len(),
    ensures
        r == equals_ignoring_case(cs@.subrange(lo as int, hi as int), w@),
{
    let wc = crate::text::chars_of(w);
    if hi - lo != wc.len() {
        return false;
    }
    let mut i: usize = 0;
    while i < wc.len()
        invariant
            hi - lo == wc.len(),
            lo <= hi <= cs.len(),
            wc@ == w@,
            i <= wc.len(),
            forall|j: int| 0 <= j < i ==> ascii_lower(cs@[lo + j]) == wc@[j],
        decreases wc.len() - i,
    {
        if lower(cs[lo + i]) != wc[i] {
            proof {
                assert(cs@.subrange(lo as int, hi as int)[i as int] == cs@[lo + i]);
            }
            return false;
        }
        i = i + 1;
    }
    proof {
        let sub = cs@.subrange(lo as int, hi as int);
        assert forall|j: int| 0 <= j < sub.len() implies ascii_lower(sub[j]) == w@[j] by {
            assert(sub[j] == cs@[lo + j]);
        }
    }
    true
}

/// `cs[lo..hi]` is text `f64::from_str` accepts.
pub fn float_text(cs: &[char], lo: usize, hi: usize) -> (r: bool)
    requires
        lo <= hi <= cs.len(),
    ensures
        r == is_float_text(cs@.subrange(lo as int, hi as int)),
{
    let ghost s = cs@.subrange(lo as int, hi as int);
    let start = if lo < hi && (cs[lo] == '+' || cs[lo] == '-') {
        lo + 1
    } else {
        lo
    };
    let ghost b = cs@.subrange(start as int, hi as int);
    proof {
        if start == lo + 1 {
            assert(b =~= s.drop_first());
        } else {
            assert(b =~= s);
        }
    }
    if word_ignoring_case(cs, start, hi, "inf") || word_ignoring_case(cs, start, hi, "infinity")
        || word_ignoring_case(cs, start, hi, "nan") {
        return true;
    }
    // mantissa: up to the first e/E
    let mut k = start;
    let mut dots: usize = 0;
    let mut digits: usize = 0;
    let mut bad = false;
    while k < hi && cs[k] != 'e' && cs[k] != 'E'
        invariant
            lo <= start <= k <= hi <= cs.len(),
            b == cs@.subrange(start as int, hi as int),
            exponent_start(b, 0) == exponent_start(b, k - start),
            bad <==> exists|i: int| 0 <= i < k - start && !(is_digit(b[i]) || b[i] == '.'),
            dots <= 2,
            dots >= 1 <==> exists|i: int| 0 <= i < k - start && b[i] == '.',
            dots >= 2 <==> exists|i: int, j: int|
                0 <= i < k - start && 0 <= j < k - start && b[i] == '.' && b[j] == '.' && i != j,
            digits > 0 <==> exists|i: int| 0 <= i < k - start && is_digit(b[i]),
            digits <= k - start,
        decreases hi - k,
    {
        let c = cs[k];
        proof {
            assert(b[k - start] == c);
        }
        if '0' <= c && c <= '9' {
            digits = digits + 1;
        } else if c == '.' {
            proof {
                if dots == 1 {
                    let i0 = choose|i: int| 0 <= i < k - start && b[i] == '.';
                    assert(b[i0] == '.' && b[k - start] == '.' && i0 != k - start);
                }
            }
            if dots < 2 {
                dots = dots + 1;
            }
        } else {
            bad = true;
        }
        k = k + 1;
    }
    proof {
        assert(exponent_start(b, k - start) == k - start);
    }
    let ghost m = b.take(k - start);
    let mantissa_ok = !bad && dots <= 1 && digits > 0;
    proof {
        assert forall|i: int| 0 <= i < m.len() implies m[i] == b[i] by {}
        if mantissa_ok {
            assert(is_mantissa(m)) by {
                let i0 = choose|i: int| 0 <= i < k - start && is_digit(b[i]);
                assert(m[i0] == b[i0]);
                assert forall|i: int| 0 <= i < m.len() implies is_digit(m[i]) || m[i] == '.' by {
                    assert(m[i] == b[i]);
                }
                assert forall|i: int, j: int|
                    0 <= i < m.len() && 0 <= j < m.len() && m[i] == '.' && m[j] == '.' implies i
                    == j by {
                    assert(m[i] == b[i] && m[j] == b[j]);
                }
            }
        } else if bad {
            assert(!is_mantissa(m)) by {
                let i0 = choose|i: int| 0 <= i < k - start && !(is_digit(b[i]) || b[i] == '.');
                assert(m[i0] == b[i0]);
            }
        } else if dots > 1 {
            assert(!is_mantissa(m)) by {
                let (i0, j0) = choose|i: int, j: int|
                    0 <= i < k - start && 0 <= j < k - start && b[i] == '.' && b[j] == '.' && i
                        != j;
                assert(m[i0] == '.' && m[j0] == '.');
            }
        } else {
            assert(!is_mantissa(m)) by {
                assert forall|i: int| 0 <= i < m.len() implies !is_digit(m[i]) by {
                    assert(m[i] == b[i]);
                }
            }
        }
    }
    if !mantissa_ok {
        return false;
    }
    // exponent
    if k == hi {
        proof {
            assert(b.skip(k - start).len() == 0);
        }
        return true;
    }
    let mut e = k + 1;
    if e < hi && (cs[e] == '+' || cs[e] == '-') {
        e = e + 1;
    }
    let ghost x = b.skip(k - start);
    proof {
        assert(x[0] == cs@[k as int]);
        let rest = x.drop_first();
        if e == k + 2 {
            assert(rest[0] == cs@[k + 1]);
            assert(rest.drop_first() =~= cs@.subrange(e as int, hi as int));
        } else {
            if rest.len() > 0 {
                assert(rest[0] == cs@[k + 1]);
            }
            assert(rest =~= cs@.subrange(e as int, hi as int));
        }
    }
    if e == hi {
        return false;
    }
    digits_only(cs, e, hi)
}

/// Every character of `cs[lo..hi]` is an ASCII digit.
fn digits_only(cs: &[char], lo: usize, hi: usize) -> (r: bool)
    requires
        lo <= hi <= cs.len(),
    ensures
        r == all_digits(cs@.subrange(lo as int, hi as int)),
{
    let ghost d = cs@.subrange(lo as int, hi as int);
    let mut i = lo;
    while i < hi
        invariant
            lo <= i <= hi <= cs.len(),
            d == cs@.subrange(lo as int, hi as int),
            forall|j: int| 0 <= j < i - lo ==> is_digit(d[j]),
        decreases hi - i,
    {
        if !('0' <= cs[i] && cs[i] <= '9') {
            proof {
                assert(d[i - lo] == cs@[i as int]);
            }
            return false;
        }
        proof {
            assert(d[i - lo] == cs@[i as int]);
        }
        i = i + 1;
    }
    true
}

} // verus!
