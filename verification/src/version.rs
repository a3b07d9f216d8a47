//! How a version requirement is spelled. A caret requirement, which is what
//! a bare version means, is written as the full three-part version; any
//! other requirement, and any that says more than one caret requirement
//! does, is written as the string it is.

use vstd::prelude::*;
use vstd::string::StringExecFns;
use crate::quote::{quoted, toml_str};
use crate::text::{from_chars, to_chars};

verus! {

pub open spec fn is_digit(c: char) -> bool {
    '0' <= c && c <= '9'
}

/// How many digits stand in a row in `s` from position `i` on.
pub open spec fn digits_from(s: Seq<char>, i: int) -> nat
    decreases s.len() - i,
{
    if 0 <= i < s.len() && is_digit(s[i]) {
        1 + digits_from(s, i + 1)
    } else {
        0
    }
}

/// A further component starts at `i`: a dot and at least one digit.
pub open spec fn has_component(s: Seq<char>, i: int) -> bool {
    0 <= i < s.len() && s[i] == '.' && digits_from(s, i + 1) > 0
}

/// The digits that stand in a row in `s` from position `i` on.
pub open spec fn digits(s: Seq<char>, i: int) -> Seq<char> {
    s.subrange(i, i + digits_from(s, i))
}

/// Where the component at `i` ends, if there is one.
pub open spec fn component_end(s: Seq<char>, i: int) -> int {
    i + 1 + digits_from(s, i + 1)
}

/// Whether `s` is a caret requirement and nothing else: a caret, a number,
/// and up to two further numbers, each behind a dot.
pub open spec fn is_caret(s: Seq<char>) -> bool {
    let b = 1 + digits_from(s, 1) as int;
    let c = component_end(s, b);
    &&& s.len() > 0
    &&& s[0] == '^'
    &&& digits_from(s, 1) > 0
    &&& b == s.len() || (has_component(s, b) && (c == s.len() || (has_component(s, c)
        && component_end(s, c) == s.len())))
}

/// The three-part version of the caret requirement `s`: missing components
/// are zero.
pub open spec fn caret_version(s: Seq<char>) -> Seq<char> {
    let major = digits(s, 1);
    let b = 1 + major.len() as int;
    let minor = if has_component(s, b) {
        digits(s, b + 1)
    } else {
        seq!['0']
    };
    let c = component_end(s, b);
    let patch = if has_component(s, b) && has_component(s, c) {
        digits(s, c + 1)
    } else {
        seq!['0']
    };
    major + seq!['.'] + minor + seq!['.'] + patch
}

/// The spelling of the version requirement whose text is `req`: a caret
/// requirement as its three-part version, any other as the string it is.
pub open spec fn version_text(req: Seq<char>) -> Seq<char> {
    if is_caret(req) {
        seq!['"'] + caret_version(req) + seq!['"']
    } else {
        quoted(req)
    }
}

/// Where the digits that start at `i` end.
fn digits_end(s: &Vec<char>, i: usize) -> (e: usize)
    requires
        i <= s.len(),
    ensures
        e == i + digits_from(s@, i as int),
        e <= s.len(),
{
    let mut k: usize = i;
    while k < s.len() && s[k] >= '0' && s[k] <= '9'
        invariant
            i <= k <= s.len(),
            digits_from(s@, i as int) == (k - i) + digits_from(s@, k as int),
        decreases s.len() - k,
    {
        k += 1;
    }
    k
}

/// Adds to `out` the component that starts at the dot at `at`, or a zero
/// where `present` is false; returns where the component ends.
fn push_component(out: &mut String, s: &Vec<char>, at: usize, present: bool) -> (e: usize)
    requires
        at <= s.len(),
        present ==> has_component(s@, at as int),
    ensures
        present ==> e == at + 1 + digits_from(s@, at + 1) && e <= s.len(),
        !present ==> e == at,
        final(out)@ == old(out)@ + seq!['.'] + (if present {
            digits(s@, at + 1)
        } else {
            seq!['0']
        }),
{
    out.push('.');
    if present {
        let e = digits_end(s, at + 1);
        let part = from_chars(s, at + 1, e);
        out.append(part.as_str());
        e
    } else {
        out.push('0');
        assert(out@ =~= old(out)@ + seq!['.'] + seq!['0']);
        at
    }
}

fn component_at(s: &Vec<char>, at: usize) -> (r: bool)
    requires
        at <= s.len(),
    ensures
        r == has_component(s@, at as int),
{
    at < s.len() && s[at] == '.' && digits_end(s, at + 1) > at + 1
}

/// Spells a version requirement, given as its text.
pub fn toml_version(req: &str) -> (r: String)
    ensures
        r@ == version_text(req@),
{
    let s = to_chars(req);
    let n = s.len();
    if n == 0 || s[0] != '^' {
        return toml_str(req);
    }
    let b = digits_end(&s, 1);
    if b == 1 {
        return toml_str(req);
    }
    let minor = component_at(&s, b);
    let c = if minor {
        digits_end(&s, b + 1)
    } else {
        b
    };
    let patch = minor && component_at(&s, c);
    let e = if patch {
        digits_end(&s, c + 1)
    } else {
        c
    };
    if e != n {
        assert(!is_caret(s@));
        return toml_str(req);
    }
    assert(is_caret(s@));
    let mut out = String::new();
    out.push('"');
    let major = from_chars(&s, 1, b);
    out.append(major.as_str());
    let _ = push_component(&mut out, &s, b, minor);
    let _ = push_component(&mut out, &s, c, patch);
    out.push('"');
    assert(out@ =~= version_text(req@));
    out
}

} // verus!
