//! How a string value is spelled in a manifest: as a basic string in double
//! quotes with escapes, or, where that saves escaping a double quote, as a
//! literal string in single quotes.

use vstd::prelude::*;
use vstd::string::StringExecFns;
use crate::text::{free_of, to_chars};

verus! {

/// The upper-case hexadecimal digit for `n`, which is below 16.
pub open spec fn hex_digit(n: int) -> char {
    if n == 0 {
        '0'
    } else if n == 1 {
        '1'
    } else if n == 2 {
        '2'
    } else if n == 3 {
        '3'
    } else if n == 4 {
        '4'
    } else if n == 5 {
        '5'
    } else if n == 6 {
        '6'
    } else if n == 7 {
        '7'
    } else if n == 8 {
        '8'
    } else if n == 9 {
        '9'
    } else if n == 10 {
        'A'
    } else if n == 11 {
        'B'
    } else if n == 12 {
        'C'
    } else if n == 13 {
        'D'
    } else if n == 14 {
        'E'
    } else {
        'F'
    }
}

/// What stands for `c` inside a basic string. The short escapes come first;
/// any other control character below U+001F is written as `\u` and four
/// hexadecimal digits; every other character stands for itself.
pub open spec fn escaped(c: char) -> Seq<char> {
    if c == '\u{8}' {
        seq!['\\', 'b']
    } else if c == '\u{9}' {
        seq!['\\', 't']
    } else if c == '\u{a}' {
        seq!['\\', 'n']
    } else if c == '\u{c}' {
        seq!['\\', 'f']
    } else if c == '\u{d}' {
        seq!['\\', 'r']
    } else if c == '"' {
        seq!['\\', '"']
    } else if c == '\\' {
        seq!['\\', '\\']
    } else if (c as int) < 0x1f {
        seq!['\\', 'u', '0', '0', hex_digit((c as int) / 16), hex_digit((c as int) % 16)]
    } else {
        seq![c]
    }
}

/// The characters of `s`, each replaced by what stands for it.
pub open spec fn escape(s: Seq<char>) -> Seq<char>
    decreases s.len(),
{
    if s.len() == 0 {
        Seq::empty()
    } else {
        escape(s.drop_last()) + escaped(s.last())
    }
}

/// A value with a double quote and no single quote is written literally.
pub open spec fn is_literal(s: Seq<char>) -> bool {
    s.contains('"') && !s.contains('\'')
}

/// The spelling of the string value `s`.
pub open spec fn quoted(s: Seq<char>) -> Seq<char> {
    if is_literal(s) {
        seq!['\''] + s + seq!['\'']
    } else {
        seq!['"'] + escape(s) + seq!['"']
    }
}

/// An escaped text holds no line feed.
pub proof fn lemma_escape_is_single(s: Seq<char>)
    ensures
        free_of(escape(s), '\n'),
    decreases s.len(),
{
    if s.len() > 0 {
        lemma_escape_is_single(s.drop_last());
        let head = escape(s.drop_last());
        let tail = escaped(s.last());
        assert forall|i: int| 0 <= i < escape(s).len() implies escape(s)[i] != '\n' by {
            if i < head.len() {
                assert(escape(s)[i] == head[i]);
            } else {
                assert(escape(s)[i] == tail[i - head.len()]);
            }
        }
    }
}

/// A spelled value stays on its line, unless it is written literally and
/// holds a line feed itself.
pub proof fn lemma_quoted_is_single(s: Seq<char>)
    requires
        !is_literal(s) || free_of(s, '\n'),
    ensures
        free_of(quoted(s), '\n'),
{
    lemma_escape_is_single(s);
    let q = quoted(s);
    assert forall|i: int| 0 <= i < q.len() implies q[i] != '\n' by {
        if 0 < i < q.len() - 1 {
            if is_literal(s) {
                assert(q[i] == s[i - 1]);
            } else {
                assert(q[i] == escape(s)[i - 1]);
            }
        }
    }
}

fn hex_char(n: u32) -> (c: char)
    requires
        n < 16,
    ensures
        c == hex_digit(n as int),
{
    if n == 0 {
        '0'
    } else if n == 1 {
        '1'
    } else if n == 2 {
        '2'
    } else if n == 3 {
        '3'
    } else if n == 4 {
        '4'
    } else if n == 5 {
        '5'
    } else if n == 6 {
        '6'
    } else if n == 7 {
        '7'
    } else if n == 8 {
        '8'
    } else if n == 9 {
        '9'
    } else if n == 10 {
        'A'
    } else if n == 11 {
        'B'
    } else if n == 12 {
        'C'
    } else if n == 13 {
        'D'
    } else if n == 14 {
        'E'
    } else {
        'F'
    }
}

fn push_escaped(out: &mut String, c: char)
    ensures
        final(out)@ == old(out)@ + escaped(c),
{
    if c == '\u{8}' {
        out.push('\\');
        out.push('b');
    } else if c == '\u{9}' {
        out.push('\\');
        out.push('t');
    } else if c == '\u{a}' {
        out.push('\\');
        out.push('n');
    } else if c == '\u{c}' {
        out.push('\\');
        out.push('f');
    } else if c == '\u{d}' {
        out.push('\\');
        out.push('r');
    } else if c == '"' {
        out.push('\\');
        out.push('"');
    } else if c == '\\' {
        out.push('\\');
        out.push('\\');
    } else if '\u{1f}' > c {
        let n: u32 = c as u32;
        out.push('\\');
        out.push('u');
        out.push('0');
        out.push('0');
        out.push(hex_char(n / 16));
        out.push(hex_char(n % 16));
    } else {
        out.push(c);
    }
    assert(out@ =~= old(out)@ + escaped(c));
}

/// Spells the string value `s` as it stands in a manifest.
pub fn toml_str(s: &str) -> (r: String)
    ensures
        r@ == quoted(s@),
{
    let chars = to_chars(s);
    let mut double = false;
    let mut single = false;
    let mut i: usize = 0;
    while i < chars.len()
        invariant
            i <= chars.len(),
            double == chars@.take(i as int).contains('"'),
            single == chars@.take(i as int).contains('\''),
        decreases chars.len() - i,
    {
        let ghost before = chars@.take(i as int);
        let ghost after = chars@.take(i + 1);
        assert(after == before.push(chars@[i as int]));
        assert(forall|c: char| after.contains(c) <==> before.contains(c) || c == chars@[i as int])
            by {
            assert forall|c: char| after.contains(c) implies before.contains(c) || c
                == chars@[i as int] by {
                let j = choose|j: int| 0 <= j < after.len() && after[j] == c;
                if j < i {
                    assert(before[j] == c);
                }
            }
            assert forall|c: char| before.contains(c) || c == chars@[i as int] implies
                after.contains(c) by {
                if before.contains(c) {
                    let j = choose|j: int| 0 <= j < before.len() && before[j] == c;
                    assert(after[j] == c);
                } else {
                    assert(after[i as int] == c);
                }
            }
        }
        if chars[i] == '"' {
            double = true;
        }
        if chars[i] == '\'' {
            single = true;
        }
        i += 1;
    }
    assert(chars@.take(i as int) == chars@);
    let mut out = String::new();
    if double && !single {
        out.push('\'');
        out.append(s);
        out.push('\'');
        assert(out@ =~= quoted(s@));
        return out;
    }
    out.push('"');
    let mut k: usize = 0;
    while k < chars.len()
        invariant
            k <= chars.len(),
            out@ == seq!['"'] + escape(chars@.take(k as int)),
        decreases chars.len() - k,
    {
        assert(chars@.take(k + 1).drop_last() == chars@.take(k as int));
        push_escaped(&mut out, chars[k]);
        k += 1;
    }
    assert(chars@.take(k as int) == chars@);
    out.push('"');
    out
}

} // verus!
