//! Where the Census API key comes from.
//!
//! Order: the `CENSUS_API_KEY` environment variable, then a `.env` file in
//! the current directory (both read by the application). This module holds
//! the part that is logic: finding `NAME=value` in dotenv-style text.

use vstd::prelude::*;

use crate::error::{Error, ErrorModel};
use crate::text::{
    chars_of, find_char, find_from, lemma_find_from, range_equals, string_from_range, trim,
    trim_bounds,
};

verus! {

/// The variable that holds the key, in the environment or in `.env`.
pub const KEY_VAR: &'static str = "CENSUS_API_KEY";

/// Index of the first line break at or after `from`, or `s.len()`.
pub open spec fn line_end(s: Seq<char>, from: int) -> int {
    find_from(s, '\n', from)
}

/// One layer of matching quotes removed: `"v"` and `'v'` become `v`;
/// anything else is left as it is.
pub open spec fn strip_matching_quotes(v: Seq<char>) -> Seq<char> {
    if v.len() >= 2 && v[0] == v.last() && (v[0] == '"' || v[0] == '\'') {
        v.subrange(1, v.len() - 1)
    } else {
        v
    }
}

/// What a trimmed line says about `name`: `None` when it is blank, a
/// comment, has no `=`, or names another key; otherwise `Some` of the
/// lookup's answer — the value, trimmed and unquoted, or `None` when that
/// is empty.
pub open spec fn line_verdict(t: Seq<char>, name: Seq<char>) -> Option<Option<Seq<char>>> {
    let eq = find_from(t, '=', 0);
    if t.len() == 0 || t[0] == '#' || eq >= t.len() {
        None
    } else if trim(t.subrange(0, eq)) != name {
        None
    } else {
        let v = strip_matching_quotes(trim(t.subrange(eq + 1, t.len() as int)));
        Some(if v.len() == 0 {
            None
        } else {
            Some(v)
        })
    }
}

/// The value of the first line, from the line starting at `from` on, whose
/// key is `name`.
pub open spec fn dotenv_value_from(text: Seq<char>, name: Seq<char>, from: int) -> Option<
    Seq<char>,
>
    decreases text.len() - from,
{
    if from < 0 || from > text.len() {
        None
    } else {
        let end = line_end(text, from);
        match line_verdict(trim(text.subrange(from, end)), name) {
            Some(answer) => answer,
            None => if end < text.len() && from <= end {
                dotenv_value_from(text, name, end + 1)
            } else {
                None
            },
        }
    }
}

/// `NAME=value` lookup in dotenv-style text: the first non-blank,
/// non-comment line with an `=` whose key is `name` decides.
pub open spec fn dotenv_value(text: Seq<char>, name: Seq<char>) -> Option<Seq<char>> {
    dotenv_value_from(text, name, 0)
}

/// Find `NAME=value` in dotenv-style text. Ignores blank lines and `#`
/// comments, strips one layer of matching quotes. Returns `None` for a
/// missing or empty value.
pub fn value_from_dotenv(text: &str, name: &str) -> (r: Option<String>)
    ensures
        r matches Some(v) ==> dotenv_value(text@, name@) == Some(v@),
        r is None ==> dotenv_value(text@, name@) is None,
{
    let cs = chars_of(text);
    let key = chars_of(name);
    let n = cs.len();
    let mut start: usize = 0;
    while start <= n
        invariant
            n == cs@.len(),
            cs@ == text@,
            key@ == name@,
            start <= n + 1,
            dotenv_value(text@, name@) == dotenv_value_from(text@, name@, start as int),
        decreases n + 1 - start,
    {
        let end = find_char(cs.as_slice(), start, n, '\n');
        proof {
            let sub = cs@.subrange(start as int, n as int);
            lemma_find_from(sub, '\n', 0);
            lemma_line_end_shift(cs@, start as int);
        }
        let (lo, hi) = trim_bounds(cs.as_slice(), start, end);
        let ghost t = cs@.subrange(lo as int, hi as int);
        match line_answer(cs.as_slice(), lo, hi, key.as_slice()) {
            Some(answer) => {
                return answer;
            },
            None => {},
        }
        if end >= n {
            return None;
        }
        start = end + 1;
    }
    None
}

/// `line_verdict` for the line `cs[lo..hi]` (already trimmed).
fn line_answer(cs: &[char], lo: usize, hi: usize, key: &[char]) -> (r: Option<Option<String>>)
    requires
        lo <= hi <= cs.len(),
    ensures
        ({
            let v = line_verdict(cs@.subrange(lo as int, hi as int), key@);
            &&& r is None <==> v is None
            &&& r matches Some(a) ==> (a is None <==> v->0 is None)
            &&& r matches Some(Some(s)) ==> v == Some(Some(s@))
        }),
{
    let ghost t = cs@.subrange(lo as int, hi as int);
    if lo == hi || cs[lo] == '#' {
        return None;
    }
    let eq = find_char(cs, lo, hi, '=');
    if eq >= hi {
        return None;
    }
    let (klo, khi) = trim_bounds(cs, lo, eq);
    proof {
        assert(cs@.subrange(lo as int, eq as int) =~= t.subrange(0, eq - lo));
    }
    if !range_equals(cs, klo, khi, key) {
        return None;
    }
    let (vlo, vhi) = trim_bounds(cs, eq + 1, hi);
    proof {
        assert(cs@.subrange(eq + 1, hi as int) =~= t.subrange(eq - lo + 1, t.len() as int));
    }
    let ghost v = cs@.subrange(vlo as int, vhi as int);
    let (qlo, qhi) = if vhi - vlo >= 2 && cs[vlo] == cs[vhi - 1] && (cs[vlo] == '"' || cs[vlo]
        == '\'') {
        (vlo + 1, vhi - 1)
    } else {
        (vlo, vhi)
    };
    proof {
        assert(cs@.subrange(qlo as int, qhi as int) =~= strip_matching_quotes(v));
    }
    if qlo == qhi {
        Some(None)
    } else {
        Some(Some(string_from_range(cs, qlo, qhi)))
    }
}

/// The line end found in `s[from..]` is the line end in `s`, shifted.
proof fn lemma_line_end_shift(s: Seq<char>, from: int)
    requires
        0 <= from <= s.len(),
    ensures
        from + find_from(s.subrange(from, s.len() as int), '\n', 0) == line_end(s, from),
{
    lemma_find_shift(s, from, 0);
}

proof fn lemma_find_shift(s: Seq<char>, from: int, k: int)
    requires
        0 <= from <= s.len(),
        0 <= k <= s.len() - from,
    ensures
        from + find_from(s.subrange(from, s.len() as int), '\n', k) == find_from(s, '\n', from + k),
    decreases s.len() - from - k,
{
    if k < s.len() - from {
        lemma_find_shift(s, from, k + 1);
    }
}


/// The key the application uses: the environment's value, trimmed, when
/// that is not blank; otherwise the `.env` file's value.
pub open spec fn chosen_key(env_value: Option<Seq<char>>, dotenv_text: Option<Seq<char>>) -> Option<
    Seq<char>,
> {
    match env_value {
        Some(e) if trim(e).len() > 0 => Some(trim(e)),
        _ => match dotenv_text {
            Some(t) => dotenv_value(t, KEY_VAR@),
            None => None,
        },
    }
}

/// Chooses the Census API key from what was read: the `CENSUS_API_KEY`
/// environment variable (`None` when unset) and the text of `./.env`
/// (`None` when there is no such file). Neither gives one: `MissingApiKey`.
pub fn census_api_key_from(env_value: Option<&str>, dotenv_text: Option<&str>) -> (r: Result<
    String,
    Error,
>)
    ensures
        match chosen_key(
            match env_value {
                Some(e) => Some(e@),
                None => None,
            },
            match dotenv_text {
                Some(t) => Some(t@),
                None => None,
            },
        ) {
            Some(k) => r matches Ok(x) && x@ == k,
            None => r matches Err(e) && e@ == ErrorModel::MissingApiKey,
        },
{
    match env_value {
        Some(e) => {
            let cs = chars_of(e);
            proof {
                assert(cs@.subrange(0, cs@.len() as int) =~= e@);
            }
            let (lo, hi) = trim_bounds(cs.as_slice(), 0, cs.len());
            if lo < hi {
                return Ok(string_from_range(cs.as_slice(), lo, hi));
            }
        },
        None => {},
    }
    match dotenv_text {
        Some(t) => match value_from_dotenv(t, KEY_VAR) {
            Some(v) => Ok(v),
            None => Err(Error::MissingApiKey),
        },
        None => Err(Error::MissingApiKey),
    }
}

/// A key found in dotenv text is never empty: a missing or empty value is
/// no value.
pub proof fn lemma_dotenv_value_nonempty(text: Seq<char>, name: Seq<char>, from: int)
    ensures
        dotenv_value_from(text, name, from) matches Some(v) ==> v.len() > 0,
    decreases text.len() - from,
{
    if 0 <= from <= text.len() {
        let end = line_end(text, from);
        lemma_find_from(text, '\n', from);
        if line_verdict(trim(text.subrange(from, end)), name) is None && end < text.len() && from
            <= end {
            lemma_dotenv_value_nonempty(text, name, end + 1);
        }
    }
}

} // verus!
