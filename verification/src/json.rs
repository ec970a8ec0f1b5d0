//! JSON values as the adapters read them.
//!
//! A response body is parsed by serde_json and handed over in this shape;
//! the adapters then navigate it the way `serde_json::Value` indexing does:
//! a missing key, an index out of range or a lookup on the wrong kind of
//! value gives `Null`.

use vstd::prelude::*;

use crate::text::{decimal, same_text};

verus! {

/// A JSON number: `as_i64` is `Some` exactly when the number is an integer
/// that fits `i64`, `as_u64` exactly when it is one that fits `u64`; `text`
/// is serde_json's rendering of the number: an integer's decimal digits, any
/// other number as the shortest text that reads back as the same `f64`
/// (zero as `0.0` or `-0.0`). The parser never yields a value that is not
/// finite.
#[derive(Debug)]
pub struct Number {
    pub as_i64: Option<i64>,
    pub as_u64: Option<u64>,
    pub text: String,
}

#[derive(Debug)]
pub enum Json {
    Null,
    Bool(bool),
    Number(Number),
    Str(String),
    Array(Vec<Json>),
    /// Members in order; keys are unique.
    Object(Vec<(String, Json)>),
}

/// What a response body became: a JSON value, or the JSON parser's reason
/// it is not JSON.
#[derive(Debug)]
pub enum Parsed {
    Value(Json),
    Invalid(String),
}

/// Position of the first member named `key` at or after `from`, or the
/// number of members.
pub open spec fn key_position(members: Seq<(String, Json)>, key: Seq<char>, from: int) -> int
    decreases members.len() - from,
{
    if from >= members.len() {
        members.len() as int
    } else if members[from].0@ == key {
        from
    } else {
        key_position(members, key, from + 1)
    }
}

/// `j[key]`: the member's value, or `Null`.
pub open spec fn get(j: Json, key: Seq<char>) -> Json {
    match j {
        Json::Object(members) => {
            let p = key_position(members@, key, 0);
            if 0 <= p < members@.len() {
                members@[p].1
            } else {
                Json::Null
            }
        },
        _ => Json::Null,
    }
}

/// `j[i]`: the element, or `Null`.
pub open spec fn at(j: Json, i: int) -> Json {
    match j {
        Json::Array(items) => if 0 <= i < items@.len() {
            items@[i]
        } else {
            Json::Null
        },
        _ => Json::Null,
    }
}

/// `j.as_str()`.
pub open spec fn str_of(j: Json) -> Option<Seq<char>> {
    match j {
        Json::Str(s) => Some(s@),
        _ => None,
    }
}

/// `j.as_array()`.
pub open spec fn array_of(j: Json) -> Option<Seq<Json>> {
    match j {
        Json::Array(items) => Some(items@),
        _ => None,
    }
}

/// `j.as_f64()`, as the number's decimal text.
pub open spec fn number_text(j: Json) -> Option<Seq<char>> {
    match j {
        Json::Number(n) => Some(n.text@),
        _ => None,
    }
}

/// `j.as_i64()`.
pub open spec fn int_of(j: Json) -> Option<i64> {
    match j {
        Json::Number(n) => n.as_i64,
        _ => None,
    }
}

/// `j.as_u64()`.
pub open spec fn uint_of(j: Json) -> Option<u64> {
    match j {
        Json::Number(n) => n.as_u64,
        _ => None,
    }
}

/// The value a lookup stands for: a missing one is `Null`.
pub open spec fn or_null(r: Option<&Json>) -> Json {
    match r {
        Some(v) => *v,
        None => Json::Null,
    }
}

impl Json {
    /// `self[key]` (`None` stands for `Null`).
    pub fn get(&self, key: &str) -> (r: Option<&Json>)
        ensures
            or_null(r) == get(*self, key@),
    {
        match self {
            Json::Object(members) => {
                let mut i: usize = 0;
                while i < members.len()
                    invariant
                        i <= members@.len(),
                        *self == Json::Object(*members),
                        key_position(members@, key@, 0) == key_position(members@, key@, i as int),
                    decreases members.len() - i,
                {
                    if same_text(members[i].0.as_str(), key) {
                        proof {
                            assert(members@[i as int].0@ == key@);
                            assert(key_position(members@, key@, i as int) == i);
                        }
                        return Some(&members[i].1);
                    }
                    i = i + 1;
                }
                None
            },
            _ => None,
        }
    }

    /// `self[i]` (`None` stands for `Null`).
    pub fn at(&self, i: usize) -> (r: Option<&Json>)
        ensures
            or_null(r) == at(*self, i as int),
    {
        match self {
            Json::Array(items) => if i < items.len() {
                Some(&items[i])
            } else {
                None
            },
            _ => None,
        }
    }
}

/// `as_str` of a lookup result.
pub fn opt_str(r: Option<&Json>) -> (s: Option<&String>)
    ensures
        match s {
            Some(t) => str_of(or_null(r)) == Some(t@),
            None => str_of(or_null(r)) is None,
        },
{
    match r {
        Some(Json::Str(t)) => Some(t),
        _ => None,
    }
}

/// `as_array` of a lookup result.
pub fn opt_array(r: Option<&Json>) -> (a: Option<&Vec<Json>>)
    ensures
        match a {
            Some(items) => array_of(or_null(r)) == Some(items@),
            None => array_of(or_null(r)) is None,
        },
{
    match r {
        Some(Json::Array(items)) => Some(items),
        _ => None,
    }
}

/// `as_f64` of a lookup result, as decimal text.
pub fn opt_number_text(r: Option<&Json>) -> (n: Option<&String>)
    ensures
        match n {
            Some(t) => number_text(or_null(r)) == Some(t@),
            None => number_text(or_null(r)) is None,
        },
{
    match r {
        Some(Json::Number(n)) => Some(&n.text),
        _ => None,
    }
}

/// `as_i64` of a lookup result.
pub fn opt_int(r: Option<&Json>) -> (n: Option<i64>)
    ensures
        n == int_of(or_null(r)),
{
    match r {
        Some(Json::Number(n)) => n.as_i64,
        _ => None,
    }
}

/// `as_u64` of a lookup result.
pub fn opt_uint(r: Option<&Json>) -> (n: Option<u64>)
    ensures
        n == uint_of(or_null(r)),
{
    match r {
        Some(Json::Number(n)) => n.as_u64,
        _ => None,
    }
}

/// `r[key]` of a lookup result.
pub fn opt_get<'a>(r: Option<&'a Json>, key: &str) -> (v: Option<&'a Json>)
    ensures
        or_null(v) == get(or_null(r), key@),
{
    match r {
        Some(j) => j.get(key),
        None => None,
    }
}

// ---------------------------------------------------------------------------
// What the parser guarantees
// ---------------------------------------------------------------------------
/// The decimal text of an integer, `-` first when it is negative.
pub open spec fn int_text(i: int) -> Seq<char> {
    if i < 0 {
        seq!['-'] + decimal((-i) as nat)
    } else {
        decimal(i as nat)
    }
}

/// A number as serde_json makes one: `as_u64` is `Some` exactly for a
/// non-negative integer, `as_i64` for an integer in `i64`'s range, and an
/// integer's text is its decimal digits.
pub open spec fn number_wf(n: Number) -> bool {
    &&& (n.as_i64 matches Some(i) ==> n.text@ == int_text(i as int))
    &&& (n.as_u64 matches Some(u) ==> n.text@ == decimal(u as nat))
    &&& (n.as_i64 matches Some(i) ==> (i >= 0 ==> n.as_u64 == Some(i as u64)))
    &&& (n.as_u64 matches Some(u) ==> (u <= i64::MAX ==> n.as_i64 == Some(u as i64)))
}

/// No member name repeats.
pub open spec fn keys_distinct(members: Seq<(String, Json)>) -> bool {
    forall|a: int, b: int|
        0 <= a < b < members.len() ==> (#[trigger] members[a]).0@ != (#[trigger] members[b]).0@
}

/// A JSON value as the parser makes one: every number well formed, every
/// object's member names distinct.
pub open spec fn json_wf(j: Json) -> bool
    decreases j,
{
    match j {
        Json::Number(n) => number_wf(n),
        Json::Array(items) => forall|i: int|
            0 <= i < items@.len() ==> #[trigger] json_wf(items@[i]),
        Json::Object(members) => keys_distinct(members@) && forall|i: int|
            0 <= i < members@.len() ==> #[trigger] json_wf(members@[i].1),
        _ => true,
    }
}

/// What a body became, as the parser makes it.
pub open spec fn parsed_wf(p: Parsed) -> bool {
    match p {
        Parsed::Value(v) => json_wf(v),
        Parsed::Invalid(_) => true,
    }
}

// ---------------------------------------------------------------------------
// Parsing
// ---------------------------------------------------------------------------
#[verifier::external_type_specification]
#[verifier::external_body]
pub struct ExJsonValue(serde_json::Value);

/// What serde_json makes of a body: the value it parses, in this module's
/// shape, or the message of its error.
pub uninterp spec fn json_of(body: Seq<char>) -> Parsed;

/// A parsed `serde_json::Value` in this module's shape, variant by variant;
/// a number keeps `as_i64`, `as_u64` and its `Display` text, an object its
/// members in the map's order.
#[verifier::external_body]
fn json_from_value(v: serde_json::Value) -> (r: Json) {
    match v {
        serde_json::Value::Null => Json::Null,
        serde_json::Value::Bool(b) => Json::Bool(b),
        serde_json::Value::Number(n) => Json::Number(
            Number { as_i64: n.as_i64(), as_u64: n.as_u64(), text: n.to_string() },
        ),
        serde_json::Value::String(t) => Json::Str(t),
        serde_json::Value::Array(a) => Json::Array(a.into_iter().map(json_from_value).collect()),
        serde_json::Value::Object(m) => Json::Object(
            m.into_iter().map(|(k, x)| (k, json_from_value(x))).collect(),
        ),
    }
}

/// `serde_json::from_str::<serde_json::Value>(body)`, the error as its
/// `Display` message. The contract names the result `json_of(body)`, and
/// states what serde_json's `Value` guarantees of every value it yields:
/// an object's member names are distinct (its map holds one entry per
/// key), and a number's `as_i64`/`as_u64` agree with each other and with
/// its text (`itoa`'s digits for an integer).
#[verifier::external_body]
pub(crate) fn parse_json(body: &str) -> (r: Parsed)
    ensures
        r == json_of(body@),
        parsed_wf(r),
{
    match serde_json::from_str::<serde_json::Value>(body) {
        Ok(v) => Parsed::Value(json_from_value(v)),
        Err(e) => Parsed::Invalid(e.to_string()),
    }
}

// ---------------------------------------------------------------------------
// Writing a string as JSON
// ---------------------------------------------------------------------------
/// Lower-case hexadecimal digit `d` (`0 <= d < 16`).
pub open spec fn hex_digit(d: int) -> char {
    if d < 10 {
        (48 + d) as char
    } else {
        (87 + d) as char
    }
}

/// How serde_json writes one character inside a JSON string: `"` and `\`
/// and the control characters escaped (`\b \t \n \f \r` by name, the
/// others as `\u00XX`), every other character as itself.
pub open spec fn json_escape_char(c: char) -> Seq<char> {
    let u = c as u32;
    if c == '"' {
        seq!['\\', '"']
    } else if c == '\\' {
        seq!['\\', '\\']
    } else if u == 8 {
        seq!['\\', 'b']
    } else if u == 9 {
        seq!['\\', 't']
    } else if u == 10 {
        seq!['\\', 'n']
    } else if u == 12 {
        seq!['\\', 'f']
    } else if u == 13 {
        seq!['\\', 'r']
    } else if u < 32 {
        seq!['\\', 'u', '0', '0', hex_digit(u as int / 16), hex_digit(u as int % 16)]
    } else {
        seq![c]
    }
}

pub open spec fn json_escaped(s: Seq<char>) -> Seq<char>
    decreases s.len(),
{
    if s.len() == 0 {
        Seq::empty()
    } else {
        json_escaped(s.drop_last()) + json_escape_char(s.last())
    }
}

/// A string written as a JSON string literal (what `Value::to_string`
/// gives for a JSON string).
pub open spec fn json_string_literal(s: Seq<char>) -> Seq<char> {
    seq!['"'] + json_escaped(s) + seq!['"']
}

fn hex(d: u32) -> (c: char)
    requires
        d < 16,
    ensures
        c == hex_digit(d as int),
{
    if d < 10 {
        ((48 + d) as u8) as char
    } else {
        ((87 + d) as u8) as char
    }
}

/// Appends `json_string_literal(t)`.
pub fn push_json_string(s: &mut String, t: &str)
    ensures
        final(s)@ == old(s)@ + json_string_literal(t@),
{
    let cs = crate::text::chars_of(t);
    crate::text::push_char(s, '"');
    let ghost start = s@;
    let mut i: usize = 0;
    while i < cs.len()
        invariant
            i <= cs@.len(),
            s@ == start + json_escaped(cs@.take(i as int)),
        decreases cs.len() - i,
    {
        let c = cs[i];
        let u = c as u32;
        let ghost before = s@;
        if c == '"' {
            crate::text::push_char(s, '\\');
            crate::text::push_char(s, '"');
        } else if c == '\\' {
            crate::text::push_char(s, '\\');
            crate::text::push_char(s, '\\');
        } else if u == 8 {
            crate::text::push_char(s, '\\');
            crate::text::push_char(s, 'b');
        } else if u == 9 {
            crate::text::push_char(s, '\\');
            crate::text::push_char(s, 't');
        } else if u == 10 {
            crate::text::push_char(s, '\\');
            crate::text::push_char(s, 'n');
        } else if u == 12 {
            crate::text::push_char(s, '\\');
            crate::text::push_char(s, 'f');
        } else if u == 13 {
            crate::text::push_char(s, '\\');
            crate::text::push_char(s, 'r');
        } else if u < 32 {
            crate::text::push_char(s, '\\');
            crate::text::push_char(s, 'u');
            crate::text::push_char(s, '0');
            crate::text::push_char(s, '0');
            crate::text::push_char(s, hex(u / 16));
            crate::text::push_char(s, hex(u % 16));
        } else {
            crate::text::push_char(s, c);
        }
        proof {
            assert(s@ =~= before + json_escape_char(c));
            assert(cs@.take(i + 1).drop_last() =~= cs@.take(i as int));
            assert(cs@.take(i + 1).last() == c);
        }
        i = i + 1;
    }
    crate::text::push_char(s, '"');
    proof {
        assert(cs@.take(cs@.len() as int) =~= cs@);
        assert(s@ =~= old(s)@ + json_string_literal(t@));
    }
}

// ---------------------------------------------------------------------------
// Writing a value as JSON
// ---------------------------------------------------------------------------
/// A value as compact JSON text, what `Value::to_string` gives: numbers
/// by their text, strings as literals, arrays and objects with `,`
/// between elements and `:` after member names, no spaces, members in
/// order.
pub open spec fn json_text(j: Json) -> Seq<char>
    decreases j, 0int,
{
    match j {
        Json::Null => "null"@,
        Json::Bool(b) => if b {
            "true"@
        } else {
            "false"@
        },
        Json::Number(n) => n.text@,
        Json::Str(t) => json_string_literal(t@),
        Json::Array(items) => seq!['['] + items_text(items@, items@.len() as int) + seq![']'],
        Json::Object(members) => seq!['{'] + members_text(members@, members@.len() as int) + seq![
            '}',
        ],
    }
}

/// The first `n` elements, written and separated by `,`.
pub open spec fn items_text(items: Seq<Json>, n: int) -> Seq<char>
    decreases items, n,
{
    if n <= 0 || n > items.len() {
        Seq::empty()
    } else if n == 1 {
        json_text(items[0])
    } else {
        items_text(items, n - 1) + seq![','] + json_text(items[n - 1])
    }
}

/// One member: its name as a literal, `:`, its value.
pub open spec fn member_text(m: (String, Json)) -> Seq<char>
    decreases m, 0int,
{
    json_string_literal(m.0@) + seq![':'] + json_text(m.1)
}

/// The first `n` members, written and separated by `,`.
pub open spec fn members_text(members: Seq<(String, Json)>, n: int) -> Seq<char>
    decreases members, n,
{
    if n <= 0 || n > members.len() {
        Seq::empty()
    } else if n == 1 {
        member_text(members[0])
    } else {
        members_text(members, n - 1) + seq![','] + member_text(members[n - 1])
    }
}

/// Appends `json_text(j)`.
pub fn push_json_text(s: &mut String, j: &Json)
    ensures
        final(s)@ == old(s)@ + json_text(*j),
    decreases j,
{
    match j {
        Json::Null => crate::text::push_str(s, "null"),
        Json::Bool(b) => if *b {
            crate::text::push_str(s, "true")
        } else {
            crate::text::push_str(s, "false")
        },
        Json::Number(n) => crate::text::push_str(s, n.text.as_str()),
        Json::Str(t) => push_json_string(s, t.as_str()),
        Json::Array(items) => {
            let ghost start = s@;
            crate::text::push_char(s, '[');
            let mut i: usize = 0;
            while i < items.len()
                invariant
                    i <= items@.len(),
                    *j == Json::Array(*items),
                    s@ == start + seq!['['] + items_text(items@, i as int),
                decreases items.len() - i,
            {
                let ghost before = s@;
                if i > 0 {
                    crate::text::push_char(s, ',');
                }
                proof {
                    assert(decreases_to!(*j => (*j)->Array_0));
                    assert(decreases_to!(*items => items@));
                    assert(decreases_to!(items@ => items@[i as int]));
                }
                push_json_text(s, &items[i]);
                proof {
                    if i == 0 {
                        assert(s@ =~= before + json_text(items@[0]));
                    } else {
                        assert(s@ =~= before + seq![','] + json_text(items@[i as int]));
                    }
                }
                i = i + 1;
            }
            crate::text::push_char(s, ']');
        },
        Json::Object(members) => {
            let ghost start = s@;
            crate::text::push_char(s, '{');
            let mut i: usize = 0;
            while i < members.len()
                invariant
                    i <= members@.len(),
                    *j == Json::Object(*members),
                    s@ == start + seq!['{'] + members_text(members@, i as int),
                decreases members.len() - i,
            {
                let ghost before = s@;
                if i > 0 {
                    crate::text::push_char(s, ',');
                }
                let ghost mid = s@;
                push_json_string(s, members[i].0.as_str());
                crate::text::push_char(s, ':');
                proof {
                    assert(decreases_to!(*j => (*j)->Object_0));
                    assert(decreases_to!(*members => members@));
                    assert(decreases_to!(members@ => members@[i as int]));
                    assert(decreases_to!(members@[i as int] => members@[i as int].1));
                }
                push_json_text(s, &members[i].1);
                proof {
                    assert(s@ =~= mid + member_text(members@[i as int]));
                    if i == 0 {
                        assert(s@ =~= before + member_text(members@[0]));
                    } else {
                        assert(s@ =~= before + seq![','] + member_text(members@[i as int]));
                    }
                }
                i = i + 1;
            }
            crate::text::push_char(s, '}');
        },
    }
}

} // verus!
