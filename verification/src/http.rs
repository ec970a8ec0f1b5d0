//! What every source client decides about an HTTP response once it has
//! been read: a status other than 200 is an error that quotes the start of
//! the body, and a secret never reaches a message.

use vstd::prelude::*;

use crate::acs::{head, head_text};
use crate::error::{Error, ErrorModel};
use crate::text::{chars_of, push_char, push_str, string_of};

verus! {

/// What stands in for a secret in text that leaves the program.
pub const REDACTED: &'static str = "[REDACTED]";

/// `s` with every occurrence of `key`, left to right and not overlapping,
/// replaced by `[REDACTED]` (`str::replace`).
pub open spec fn redacted(s: Seq<char>, key: Seq<char>) -> Seq<char>
    decreases s.len(),
{
    if key.len() == 0 || s.len() < key.len() {
        s
    } else if s.subrange(0, key.len() as int) == key {
        REDACTED@ + redacted(s.subrange(key.len() as int, s.len() as int), key)
    } else {
        seq![s[0]] + redacted(s.drop_first(), key)
    }
}

/// `key` occurs in `t` at position `p`.
pub open spec fn occurs_at(t: Seq<char>, key: Seq<char>, p: int) -> bool {
    0 <= p && p + key.len() <= t.len() && t.subrange(p, p + key.len()) == key
}

/// `key` occurs somewhere in `t`.
pub open spec fn occurs_in(t: Seq<char>, key: Seq<char>) -> bool {
    exists|p: int| #[trigger] occurs_at(t, key, p)
}

/// Until redaction writes its first `[`, it copies its input.
proof fn lemma_redacted_prefix(t: Seq<char>, key: Seq<char>, m: int)
    requires
        key.len() > 0,
        0 <= m <= redacted(t, key).len(),
    ensures
        (exists|j: int| 0 <= j < m && redacted(t, key)[j] == '[') || (m <= t.len()
            && redacted(t, key).subrange(0, m) == t.subrange(0, m)),
    decreases t.len(),
{
    reveal_strlit("[REDACTED]");
    let r = redacted(t, key);
    if t.len() < key.len() {
        assert(r.subrange(0, m) =~= t.subrange(0, m));
    } else if t.subrange(0, key.len() as int) == key {
        if m > 0 {
            assert(r[0] == '[');
        } else {
            assert(r.subrange(0, m) =~= t.subrange(0, m));
        }
    } else if m > 0 {
        let rt = redacted(t.drop_first(), key);
        assert(r == seq![t[0]] + rt);
        lemma_redacted_prefix(t.drop_first(), key, m - 1);
        if exists|j: int| 0 <= j < m - 1 && rt[j] == '[' {
            let j = choose|j: int| 0 <= j < m - 1 && rt[j] == '[';
            assert(r[j + 1] == '[');
        } else {
            assert(rt.subrange(0, m - 1) == t.drop_first().subrange(0, m - 1));
            assert forall|i: int| 0 <= i < m implies r.subrange(0, m)[i] == t.subrange(0, m)[i] by {
                if i > 0 {
                    assert(r[i] == rt[i - 1]);
                    assert(rt.subrange(0, m - 1)[i - 1] == rt[i - 1]);
                    assert(t.drop_first()[i - 1] == t[i]);
                }
            }
            assert(r.subrange(0, m) =~= t.subrange(0, m));
        }
    } else {
        assert(r.subrange(0, m) =~= t.subrange(0, m));
    }
}

/// Nothing that went through `redact` still holds the secret: no
/// occurrence of `key` survives, for a key that holds neither `[` nor `]`
/// and does not occur in the word `REDACTED`.
pub proof fn lemma_redacted_holds_no_key(s: Seq<char>, key: Seq<char>)
    requires
        key.len() > 0,
        forall|i: int| 0 <= i < key.len() ==> key[i] != '[' && key[i] != ']',
        !occurs_in("REDACTED"@, key),
    ensures
        !occurs_in(redacted(s, key), key),
    decreases s.len(),
{
    reveal_strlit("[REDACTED]");
    reveal_strlit("REDACTED");
    let r = redacted(s, key);
    let k = key.len() as int;
    if s.len() < key.len() {
        assert forall|p: int| !#[trigger] occurs_at(r, key, p) by {}
    } else if s.subrange(0, k) == key {
        let rest = s.subrange(k, s.len() as int);
        lemma_redacted_holds_no_key(rest, key);
        let rr = redacted(rest, key);
        assert forall|p: int| !#[trigger] occurs_at(r, key, p) by {
            if occurs_at(r, key, p) {
                if p >= 10 {
                    assert(rr.subrange(p - 10, p - 10 + k) =~= r.subrange(p, p + k));
                    assert(occurs_at(rr, key, p - 10));
                } else if p + k > 10 {
                    assert(key[9 - p] == r[9]);
                } else if p == 0 {
                    assert(key[0] == r[0]);
                } else if p + k == 10 {
                    assert(key[k - 1] == r[9]);
                } else {
                    assert("REDACTED"@.subrange(p - 1, p - 1 + k) =~= r.subrange(p, p + k));
                    assert(occurs_at("REDACTED"@, key, p - 1));
                }
            }
        }
    } else {
        let tail = s.drop_first();
        lemma_redacted_holds_no_key(tail, key);
        let rt = redacted(tail, key);
        assert forall|p: int| !#[trigger] occurs_at(r, key, p) by {
            if occurs_at(r, key, p) {
                if p >= 1 {
                    assert(rt.subrange(p - 1, p - 1 + k) =~= r.subrange(p, p + k));
                    assert(occurs_at(rt, key, p - 1));
                } else {
                    lemma_redacted_prefix(s, key, k);
                    if exists|j: int| 0 <= j < k && r[j] == '[' {
                        let j = choose|j: int| 0 <= j < k && r[j] == '[';
                        assert(key[j] == r[j]);
                    }
                }
            }
        }
    }
}

/// `cs[i..i + key.len()]` is `key`.
fn matches_at(cs: &Vec<char>, i: usize, key: &Vec<char>) -> (r: bool)
    requires
        i + key@.len() <= cs@.len(),
    ensures
        r == (cs@.subrange(i as int, i + key@.len()) == key@),
{
    let mut j: usize = 0;
    let n = cs.len();
    while j < key.len()
        invariant
            n == cs@.len(),
            j <= key@.len(),
            i + key@.len() <= cs@.len(),
            forall|k: int| 0 <= k < j ==> cs@[i + k] == key@[k],
        decreases key.len() - j,
    {
        if cs[i + j] != key[j] {
            proof {
                assert(cs@.subrange(i as int, i + key@.len())[j as int] != key@[j as int]);
            }
            return false;
        }
        j = j + 1;
    }
    proof {
        assert(cs@.subrange(i as int, i + key@.len()) =~= key@);
    }
    true
}

/// Replaces every occurrence of a secret in `text` by `[REDACTED]`.
pub fn redact(text: &str, key: &str) -> (r: String)
    requires
        key@.len() > 0,
    ensures
        r@ == redacted(text@, key@),
{
    let cs = chars_of(text);
    let ks = chars_of(key);
    let n = cs.len();
    let m = ks.len();
    let mut out = String::new();
    let mut i: usize = 0;
    proof {
        assert(cs@.subrange(0, n as int) =~= cs@);
        assert(out@ + redacted(cs@.subrange(0, n as int), ks@) =~= redacted(text@, key@));
    }
    while i < n
        invariant
            i <= n == cs@.len(),
            m == ks@.len() > 0,
            cs@ == text@,
            ks@ == key@,
            out@ + redacted(cs@.subrange(i as int, n as int), ks@) == redacted(text@, key@),
        decreases n - i,
    {
        let ghost rest = cs@.subrange(i as int, n as int);
        if m <= n - i && matches_at(&cs, i, &ks) {
            proof {
                assert(rest.subrange(0, m as int) =~= cs@.subrange(i as int, i + m));
                assert(rest.subrange(m as int, rest.len() as int) =~= cs@.subrange(i + m, n as int));
            }
            let ghost before = out@;
            push_str(&mut out, REDACTED);
            proof {
                assert(before + redacted(rest, ks@) =~= out@ + redacted(
                    cs@.subrange(i + m, n as int),
                    ks@,
                ));
            }
            i = i + m;
        } else {
            proof {
                if m <= n - i {
                    assert(rest.subrange(0, m as int) =~= cs@.subrange(i as int, i + m));
                }
                assert(rest.drop_first() =~= cs@.subrange(i + 1, n as int));
            }
            let ghost before = out@;
            push_char(&mut out, cs[i]);
            proof {
                assert(before + redacted(rest, ks@) =~= out@ + redacted(
                    cs@.subrange(i + 1, n as int),
                    ks@,
                ));
            }
            i = i + 1;
        }
    }
    proof {
        assert(redacted(cs@.subrange(n as int, n as int), ks@) =~= Seq::<char>::empty());
        assert(out@ =~= redacted(text@, key@));
    }
    out
}

/// A response read in full: only status 200 carries data; any other
/// status is an error quoting the start of the body.
pub fn checked_body(url: &str, status: u16, body: String) -> (r: Result<String, Error>)
    ensures
        status == 200 ==> (r matches Ok(b) && b@ == body@),
        status != 200 ==> (r matches Err(e) && e@ == ErrorModel::UnexpectedStatus {
            url: url@,
            status,
            body_head: head_text(body@),
        }),
{
    if status != 200 {
        return Err(
            Error::UnexpectedStatus {
                url: string_of(url),
                status,
                body_head: head(body.as_str()),
            },
        );
    }
    Ok(body)
}

} // verus!
