//! Text as sequences of `char`: decimal rendering and reading of integers,
//! Unicode white space, and the small string-building steps the adapters
//! use. The models are the `Seq<char>` views of `String` and `&str`.

use vstd::prelude::*;

verus! {

// ---------------------------------------------------------------------------
// Building strings
// ---------------------------------------------------------------------------
/// Appends one character (`String::push`).
#[verifier::external_body]
pub(crate) fn push_char(s: &mut String, c: char)
    ensures
        final(s)@ == old(s)@.push(c),
{
    s.push(c);
}

/// Appends a string slice.
pub fn push_str(s: &mut String, t: &str)
    ensures
        final(s)@ == old(s)@ + t@,
{
    s.append(t);
}

/// A fresh `String` holding `t`.
pub fn string_of(t: &str) -> (r: String)
    ensures
        r@ == t@,
{
    t.to_owned()
}

/// The characters of `s`, in order.
pub fn chars_of(s: &str) -> (v: Vec<char>)
    ensures
        v@ == s@,
{
    broadcast use vstd::string::axiom_spec_iter;

    let mut v: Vec<char> = Vec::new();
    for c in it: s.chars()
        invariant
            v@ == it.seq().take(it.index()),
    {
        v.push(c);
    }
    v
}

/// A `String` holding `cs[from..to]`.
pub fn string_from_range(cs: &[char], from: usize, to: usize) -> (r: String)
    requires
        from <= to <= cs.len(),
    ensures
        r@ == cs@.subrange(from as int, to as int),
{
    let mut r = String::new();
    let mut i: usize = from;
    while i < to
        invariant
            from <= i <= to <= cs.len(),
            r@ == cs@.subrange(from as int, i as int),
        decreases to - i,
    {
        push_char(&mut r, cs[i]);
        assert(cs@.subrange(from as int, i + 1) == cs@.subrange(from as int, i as int).push(
            cs@[i as int],
        ));
        i = i + 1;
    }
    r
}

/// `a` and `b` hold the same characters.
pub fn same_text(a: &str, b: &str) -> (r: bool)
    ensures
        r == (a@ == b@),
{
    let x = chars_of(a);
    let y = chars_of(b);
    chars_equal(x.as_slice(), y.as_slice())
}

/// Character-wise equality of two slices.
pub fn chars_equal(x: &[char], y: &[char]) -> (r: bool)
    ensures
        r == (x@ == y@),
{
    if x.len() != y.len() {
        return false;
    }
    let mut i: usize = 0;
    while i < x.len()
        invariant
            x.len() == y.len(),
            i <= x.len(),
            forall|j: int| 0 <= j < i ==> x@[j] == y@[j],
        decreases x.len() - i,
    {
        if x[i] != y[i] {
            return false;
        }
        i = i + 1;
    }
    assert(x@ =~= y@);
    true
}

// ---------------------------------------------------------------------------
// Decimal numbers
// ---------------------------------------------------------------------------
/// The character of decimal digit `d` (`0 <= d <= 9`).
pub open spec fn digit_char(d: int) -> char {
    (d + 48) as char
}

/// `c` is an ASCII decimal digit.
pub open spec fn is_digit(c: char) -> bool {
    '0' <= c && c <= '9'
}

/// The value of ASCII digit `c`.
pub open spec fn digit_value(c: char) -> int {
    c as int - 48
}

/// The decimal digits of `n`, most significant first, no leading zeros.
pub open spec fn decimal(n: nat) -> Seq<char>
    decreases n,
{
    if n < 10 {
        seq![digit_char(n as int)]
    } else {
        decimal(n / 10).push(digit_char((n % 10) as int))
    }
}

/// Every character of `decimal(n)` is a digit.
pub proof fn lemma_decimal_digits(n: nat)
    ensures
        forall|i: int| 0 <= i < decimal(n).len() ==> is_digit(#[trigger] decimal(n)[i]),
    decreases n,
{
    if n >= 10 {
        lemma_decimal_digits(n / 10);
        let pre = decimal(n / 10);
        let last = digit_char((n % 10) as int);
        assert(decimal(n) == pre.push(last));
        assert forall|i: int| 0 <= i < decimal(n).len() implies is_digit(#[trigger] decimal(n)[i]) by {
            if i < pre.len() {
                assert(decimal(n)[i] == pre[i]);
            }
        }
    }
}

/// `c` does not occur in `s`.
pub open spec fn lacks_char(s: Seq<char>, c: char) -> bool
    decreases s.len(),
{
    s.len() == 0 || (s[0] != c && lacks_char(s.drop_first(), c))
}

pub proof fn lemma_lacks_char(s: Seq<char>, c: char)
    requires
        lacks_char(s, c),
    ensures
        forall|i: int| 0 <= i < s.len() ==> #[trigger] s[i] != c,
    decreases s.len(),
{
    if s.len() > 0 {
        lemma_lacks_char(s.drop_first(), c);
        assert forall|i: int| 0 <= i < s.len() implies #[trigger] s[i] != c by {
            if i > 0 {
                assert(s[i] == s.drop_first()[i - 1]);
            }
        }
    }
}

/// `s` padded on the left with `'0'` to at least `width` characters.
pub open spec fn zero_padded(s: Seq<char>, width: nat) -> Seq<char> {
    if s.len() >= width {
        s
    } else {
        Seq::new((width - s.len()) as nat, |i: int| '0') + s
    }
}

/// `v` in decimal, zero-padded after its sign to at least `width`
/// characters in all (what `{:0width$}` prints for an integer).
pub open spec fn padded_int(v: int, width: nat) -> Seq<char> {
    if v < 0 {
        seq!['-'] + zero_padded(decimal((-v) as nat), if width >= 1 {
            (width - 1) as nat
        } else {
            0nat
        })
    } else {
        zero_padded(decimal(v as nat), width)
    }
}

/// `v` in decimal, with a `-` sign when negative (what `{}` prints).
pub open spec fn int_text(v: int) -> Seq<char> {
    padded_int(v, 0)
}

pub proof fn lemma_decimal_len(n: nat)
    ensures
        1 <= decimal(n).len(),
        n < 10 ==> decimal(n).len() == 1,
        n >= 10 ==> decimal(n).len() >= 2,
    decreases n,
{
    if n >= 10 {
        lemma_decimal_len(n / 10);
    }
}

fn digit(d: u64) -> (c: char)
    requires
        d < 10,
    ensures
        c == digit_char(d as int),
{
    ((d as u8) + 48u8) as char
}

/// Appends the decimal digits of `n`.
pub fn push_decimal(s: &mut String, n: u64)
    ensures
        final(s)@ == old(s)@ + decimal(n as nat),
    decreases n,
{
    if n < 10 {
        push_char(s, digit(n));
        assert(old(s)@.push(digit_char(n as int)) == old(s)@ + seq![digit_char(n as int)]);
    } else {
        push_decimal(s, n / 10);
        push_char(s, digit(n % 10));
        assert(old(s)@ + decimal((n / 10) as nat).push(digit_char((n % 10) as int)) == (old(s)@
            + decimal((n / 10) as nat)).push(digit_char((n % 10) as int)));
    }
}

/// Appends the decimal digits of `n`.
pub fn push_decimal_u128(s: &mut String, n: u128)
    ensures
        final(s)@ == old(s)@ + decimal(n as nat),
    decreases n,
{
    if n < 10 {
        push_char(s, digit((n as u64)));
        assert(old(s)@.push(digit_char(n as int)) == old(s)@ + seq![digit_char(n as int)]);
    } else {
        push_decimal_u128(s, n / 10);
        push_char(s, digit((n % 10) as u64));
        assert(old(s)@ + decimal((n / 10) as nat).push(digit_char((n % 10) as int)) == (old(s)@
            + decimal((n / 10) as nat)).push(digit_char((n % 10) as int)));
    }
}

/// Appends `n` zero-padded to at least `width` digits.
pub fn push_padded(s: &mut String, n: u64, width: usize)
    ensures
        final(s)@ == old(s)@ + zero_padded(decimal(n as nat), width as nat),
{
    let len = decimal_len(n);
    let mut i: usize = len;
    while i < width
        invariant
            len <= i,
            len >= width ==> i == len,
            len < width ==> i <= width,
            len == decimal(n as nat).len(),
            s@ == old(s)@ + Seq::new((i - len) as nat, |j: int| '0'),
        decreases width - i,
    {
        push_char(s, '0');
        assert(Seq::new((i + 1 - len) as nat, |j: int| '0') == Seq::new(
            (i - len) as nat,
            |j: int| '0',
        ).push('0'));
        i = i + 1;
    }
    let ghost before = s@;
    push_decimal(s, n);
    if len >= width {
        assert(Seq::new((i - len) as nat, |j: int| '0') =~= Seq::<char>::empty());
        assert(s@ == old(s)@ + decimal(n as nat));
    } else {
        assert(i == width);
        assert(s@ == old(s)@ + (Seq::new((width - len) as nat, |j: int| '0') + decimal(
            n as nat,
        )));
    }
}

/// Number of decimal digits of `n`.
pub fn decimal_len(n: u64) -> (r: usize)
    ensures
        r == decimal(n as nat).len(),
        1 <= r <= 20,
    decreases n,
{
    proof {
        lemma_decimal_len(n as nat);
        reveal_with_fuel(pow10, 21);
        lemma_decimal_len_le(n as nat, 20);
    }
    if n < 10 {
        1
    } else {
        let k = decimal_len(n / 10);
        k + 1
    }
}

pub open spec fn pow10(k: nat) -> nat
    decreases k,
{
    if k == 0 {
        1
    } else {
        10 * pow10((k - 1) as nat)
    }
}

/// A number below `10^k` has at most `k` digits.
pub proof fn lemma_decimal_len_le(n: nat, k: nat)
    requires
        k >= 1,
        n < pow10(k),
    ensures
        decimal(n).len() <= k,
    decreases k,
{
    assert(pow10(0) == 1);
    assert(pow10(1) == 10);
    if n >= 10 {
        assert(k >= 2);
        assert(pow10(k) == 10 * pow10((k - 1) as nat));
        assert(n / 10 < pow10((k - 1) as nat));
        lemma_decimal_len_le(n / 10, (k - 1) as nat);
    }
}

/// Appends `v` zero-padded after its sign to at least `width` characters.
pub fn push_padded_int(s: &mut String, v: i64, width: usize)
    requires
        width >= 1,
    ensures
        final(s)@ == old(s)@ + padded_int(v as int, width as nat),
{
    if v < 0 {
        push_char(s, '-');
        let mag: u64 = if v == i64::MIN {
            9_223_372_036_854_775_808u64
        } else {
            (-v) as u64
        };
        push_padded(s, mag, width - 1);
        assert(old(s)@.push('-') + zero_padded(decimal(mag as nat), (width - 1) as nat) == old(
            s,
        )@ + (seq!['-'] + zero_padded(decimal(mag as nat), (width - 1) as nat)));
    } else {
        push_padded(s, v as u64, width);
    }
}

/// Appends `v` in decimal, with a sign when negative.
pub fn push_int(s: &mut String, v: i64)
    ensures
        final(s)@ == old(s)@ + int_text(v as int),
{
    if v < 0 {
        push_padded_int(s, v, 1);
        assert(padded_int(v as int, 1) == padded_int(v as int, 0));
    } else {
        push_padded(s, v as u64, 0);
    }
}

// ---------------------------------------------------------------------------
// White space
// ---------------------------------------------------------------------------
/// Unicode `White_Space` (what `char::is_whitespace` and `str::trim` use).
pub open spec fn is_white_space(c: char) -> bool {
    let u = c as u32;
    (0x9 <= u && u <= 0xD) || u == 0x20 || u == 0x85 || u == 0xA0 || u == 0x1680 || (0x2000 <= u
        && u <= 0x200A) || u == 0x2028 || u == 0x2029 || u == 0x202F || u == 0x205F || u
        == 0x3000
}

pub fn white_space(c: char) -> (r: bool)
    ensures
        r == is_white_space(c),
{
    let u = c as u32;
    (0x9 <= u && u <= 0xD) || u == 0x20 || u == 0x85 || u == 0xA0 || u == 0x1680 || (0x2000 <= u
        && u <= 0x200A) || u == 0x2028 || u == 0x2029 || u == 0x202F || u == 0x205F || u
        == 0x3000
}

/// `s` without its leading white space.
pub open spec fn trim_start(s: Seq<char>) -> Seq<char>
    decreases s.len(),
{
    if s.len() > 0 && is_white_space(s[0]) {
        trim_start(s.drop_first())
    } else {
        s
    }
}

/// `s` without its trailing white space.
pub open spec fn trim_end(s: Seq<char>) -> Seq<char>
    decreases s.len(),
{
    if s.len() > 0 && is_white_space(s.last()) {
        trim_end(s.drop_last())
    } else {
        s
    }
}

/// `s` without leading and trailing white space (`str::trim`).
pub open spec fn trim(s: Seq<char>) -> Seq<char> {
    trim_end(trim_start(s))
}

/// The bounds of `trim(cs[lo..hi])` inside `cs`.
pub fn trim_bounds(cs: &[char], lo: usize, hi: usize) -> (r: (usize, usize))
    requires
        lo <= hi <= cs.len(),
    ensures
        lo <= r.0 <= r.1 <= hi,
        cs@.subrange(r.0 as int, r.1 as int) == trim(cs@.subrange(lo as int, hi as int)),
{
    let mut a = lo;
    while a < hi && white_space(cs[a])
        invariant
            lo <= a <= hi <= cs.len(),
            trim_start(cs@.subrange(lo as int, hi as int)) == trim_start(
                cs@.subrange(a as int, hi as int),
            ),
        decreases hi - a,
    {
        assert(cs@.subrange(a as int, hi as int).drop_first() =~= cs@.subrange(
            a + 1,
            hi as int,
        ));
        a = a + 1;
    }
    assert(trim_start(cs@.subrange(a as int, hi as int)) == cs@.subrange(a as int, hi as int));
    let mut b = hi;
    while b > a && white_space(cs[b - 1])
        invariant
            lo <= a <= b <= hi <= cs.len(),
            trim_end(cs@.subrange(a as int, hi as int)) == trim_end(
                cs@.subrange(a as int, b as int),
            ),
        decreases b - a,
    {
        assert(cs@.subrange(a as int, b as int).drop_last() =~= cs@.subrange(
            a as int,
            b - 1,
        ));
        b = b - 1;
    }
    assert(trim_end(cs@.subrange(a as int, b as int)) == cs@.subrange(a as int, b as int));
    (a, b)
}

/// `cs[lo..hi]` holds exactly the characters of `other`.
pub fn range_equals(cs: &[char], lo: usize, hi: usize, other: &[char]) -> (r: bool)
    requires
        lo <= hi <= cs.len(),
    ensures
        r == (cs@.subrange(lo as int, hi as int) == other@),
{
    if hi - lo != other.len() {
        proof {
            assert(cs@.subrange(lo as int, hi as int).len() != other@.len());
        }
        return false;
    }
    let mut i: usize = 0;
    while i < other.len()
        invariant
            hi - lo == other.len(),
            lo <= hi <= cs.len(),
            i <= other.len(),
            forall|j: int| 0 <= j < i ==> cs@[lo + j] == other@[j],
        decreases other.len() - i,
    {
        if cs[lo + i] != other[i] {
            proof {
                assert(cs@.subrange(lo as int, hi as int)[i as int] != other@[i as int]);
            }
            return false;
        }
        i = i + 1;
    }
    assert(cs@.subrange(lo as int, hi as int) =~= other@);
    true
}

/// First index `>= from` of `c` in `s`, or `s.len()` when there is none.
pub open spec fn find_from(s: Seq<char>, c: char, from: int) -> int
    decreases s.len() - from,
{
    if from >= s.len() {
        s.len() as int
    } else if s[from] == c {
        from
    } else {
        find_from(s, c, from + 1)
    }
}

pub proof fn lemma_find_from(s: Seq<char>, c: char, from: int)
    requires
        0 <= from <= s.len(),
    ensures
        from <= find_from(s, c, from) <= s.len(),
        forall|j: int| from <= j < find_from(s, c, from) ==> s[j] != c,
        find_from(s, c, from) < s.len() ==> s[find_from(s, c, from)] == c,
    decreases s.len() - from,
{
    if from < s.len() && s[from] != c {
        lemma_find_from(s, c, from + 1);
    }
}

/// First index in `lo..hi` of `c` in `cs`, or `hi`.
pub fn find_char(cs: &[char], lo: usize, hi: usize, c: char) -> (r: usize)
    requires
        lo <= hi <= cs.len(),
    ensures
        r as int == lo + find_from(cs@.subrange(lo as int, hi as int), c, 0),
        lo <= r <= hi,
{
    let ghost sub = cs@.subrange(lo as int, hi as int);
    let mut i = lo;
    while i < hi
        invariant
            lo <= i <= hi <= cs.len(),
            sub == cs@.subrange(lo as int, hi as int),
            find_from(sub, c, 0) == find_from(sub, c, i - lo),
        decreases hi - i,
    {
        if cs[i] == c {
            return i;
        }
        i = i + 1;
    }
    i
}

// ---------------------------------------------------------------------------
// Debug rendering of strings
// ---------------------------------------------------------------------------
/// What `{:?}` prints for a string (Rust's `Debug` for `str`): the text
/// between double quotes, with `"`, `\`, control and non-printable
/// characters escaped by the standard library's rules.
pub uninterp spec fn str_debug(s: Seq<char>) -> Seq<char>;

/// `format!("{s:?}")`: Rust's `Debug` rendering of a string; the contract
/// names the result `str_debug(s)` and states nothing more of it.
#[verifier::external_body]
pub(crate) fn debug_text(s: &str) -> (r: String)
    ensures
        r@ == str_debug(s@),
{
    format!("{s:?}")
}

// ---------------------------------------------------------------------------
// Token form of a source's label
// ---------------------------------------------------------------------------
/// One character of a label in token form: ASCII letters lower-cased,
/// space and hyphen as `_`, anything else kept.
pub open spec fn token_char(c: char) -> char {
    if c == ' ' || c == '-' {
        '_'
    } else if 'A' <= c && c <= 'Z' {
        ((c as u32) + 32) as char
    } else {
        c
    }
}

/// A label in token form: `Under Construction` is `under_construction`,
/// `By-Right` is `by_right`.
pub open spec fn token_form(s: Seq<char>) -> Seq<char> {
    s.map_values(|c: char| token_char(c))
}

} // verus!
