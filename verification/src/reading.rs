//! How the scan reads lines of known shape: blank lines, headers, comment
//! lines, and lines that set a bare key.

use vstd::prelude::*;
use crate::comments::{
    block,
    closed_lines,
    is_comment_line,
    is_header,
    is_key_char,
    is_space,
    key_chars_from,
    key_prefix,
    lemma_trim,
    open_line,
    qualified,
    scan,
    scan_from,
    scan_start,
    scan_step,
    split_lines,
    trim,
    ScanState,
};
use crate::text::{free_of, unlines};

verus! {

/// A key that needs no quotes: not empty, and of key characters only.
pub open spec fn is_bare_key(key: Seq<char>) -> bool {
    key.len() > 0 && forall|i: int| 0 <= i < key.len() ==> is_key_char(#[trigger] key[i])
}

/// Whether no line holds a line feed.
pub open spec fn single_lines(lines: Seq<Seq<char>>) -> bool {
    forall|i: int| 0 <= i < lines.len() ==> free_of(#[trigger] lines[i], '\n')
}

/// Whether every line is a comment line.
pub open spec fn comment_lines(lines: Seq<Seq<char>>) -> bool {
    forall|i: int| 0 <= i < lines.len() ==> is_comment_line(#[trigger] lines[i])
}

proof fn lemma_lines_extend(p: Seq<char>, l: Seq<char>)
    requires
        free_of(l, '\n'),
    ensures
        closed_lines(p + l) == closed_lines(p),
        open_line(p + l) == open_line(p) + l,
    decreases l.len(),
{
    if l.len() == 0 {
        assert(p + l =~= p);
        assert(open_line(p) + l =~= open_line(p));
    } else {
        let rest = l.drop_last();
        assert(free_of(rest, '\n')) by {
            assert forall|i: int| 0 <= i < rest.len() implies rest[i] != '\n' by {
                assert(rest[i] == l[i]);
            }
        }
        lemma_lines_extend(p, rest);
        assert((p + l).drop_last() =~= p + rest);
        assert((p + l).last() == l.last());
        assert(l.last() == l[l.len() - 1]);
        assert(open_line(p) + l =~= (open_line(p) + rest).push(l.last()));
    }
}

/// The lines of a document are found again in its text, where no line
/// holds a line feed.
pub proof fn lemma_split_unlines(lines: Seq<Seq<char>>)
    requires
        single_lines(lines),
    ensures
        closed_lines(unlines(lines)) == lines,
        open_line(unlines(lines)).len() == 0,
        split_lines(unlines(lines)) == lines,
    decreases lines.len(),
{
    if lines.len() > 0 {
        let rest = lines.drop_last();
        assert(single_lines(rest)) by {
            assert forall|i: int| 0 <= i < rest.len() implies free_of(#[trigger] rest[i], '\n') by {
                assert(rest[i] == lines[i]);
            }
        }
        lemma_split_unlines(rest);
        let p = unlines(rest);
        let l = lines.last();
        assert(l == lines[lines.len() - 1]);
        lemma_lines_extend(p, l);
        let s = p + l;
        let t = unlines(lines);
        assert(t == s + seq!['\n']);
        assert(t.drop_last() =~= s);
        assert(t.last() == '\n');
        assert(closed_lines(t) == closed_lines(s).push(open_line(s)));
        assert(open_line(p) + l =~= l);
        assert(closed_lines(t) =~= lines);
    } else {
        assert(closed_lines(unlines(lines)) =~= lines);
    }
}

/// Scanning two runs of lines in a row is scanning the second from where
/// the first has led.
pub proof fn lemma_scan_concat(st: ScanState, a: Seq<Seq<char>>, b: Seq<Seq<char>>)
    ensures
        scan_from(st, a + b) == scan_from(scan_from(st, a), b),
    decreases b.len(),
{
    if b.len() == 0 {
        assert(a + b =~= a);
    } else {
        lemma_scan_concat(st, a, b.drop_last());
        assert((a + b).drop_last() =~= a + b.drop_last());
        assert((a + b).last() == b.last());
    }
}

pub proof fn lemma_scan_one(st: ScanState, line: Seq<char>)
    ensures
        scan_from(st, seq![line]) == scan_step(st, line),
{
    assert(seq![line].drop_last() =~= Seq::<Seq<char>>::empty());
    assert(scan_from(st, Seq::<Seq<char>>::empty()) == st);
}

/// A blank line changes nothing.
pub proof fn lemma_step_blank(st: ScanState)
    ensures
        scan_step(st, Seq::empty()) == st,
{
}

/// A line in square brackets sets the table and lets go of what is
/// pending.
pub proof fn lemma_step_header(st: ScanState, line: Seq<char>)
    requires
        line.len() >= 2,
        line[0] == '[',
        line.last() == ']',
    ensures
        scan_step(st, line) == (ScanState {
            table: line.subrange(1, line.len() - 1),
            pending: Seq::empty(),
            comments: st.comments,
        }),
{
    lemma_trim(line);
}

/// A comment line joins what is pending.
pub proof fn lemma_step_comment(st: ScanState, line: Seq<char>)
    requires
        is_comment_line(line),
    ensures
        scan_step(st, line) == (ScanState {
            table: st.table,
            pending: st.pending.push(line),
            comments: st.comments,
        }),
{
    lemma_trim(line);
}

proof fn lemma_key_run(line: Seq<char>, n: int, i: int)
    requires
        0 <= i <= n,
        n <= line.len(),
        forall|j: int| 0 <= j < n ==> is_key_char(#[trigger] line[j]),
        n < line.len() ==> !is_key_char(line[n]),
    ensures
        key_chars_from(line, i) == n - i,
    decreases n - i,
{
    if i < n {
        lemma_key_run(line, n, i + 1);
    }
}

/// A line that sets a bare key takes what is pending for that key.
pub proof fn lemma_step_key(st: ScanState, key: Seq<char>, value: Seq<char>)
    requires
        is_bare_key(key),
        value.len() > 0,
        !is_space(value.last()),
    ensures
        scan_step(st, key + " = "@ + value) == (ScanState {
            table: st.table,
            pending: Seq::empty(),
            comments: st.comments.insert(qualified(st.table, key), st.pending),
        }),
{
    reveal_strlit(" = ");
    let line = key + " = "@ + value;
    assert(line[0] == key[0]);
    assert(line.last() == value.last());
    assert(is_key_char(key[0]));
    lemma_trim(line);
    assert(trim(line) == line);
    assert forall|j: int| 0 <= j < key.len() implies is_key_char(#[trigger] line[j]) by {
        assert(line[j] == key[j]);
    }
    assert(line[key.len() as int] == ' ');
    lemma_key_run(line, key.len() as int, 0);
    assert(key_prefix(line) =~= key);
}

/// A block of comment lines joins what is pending.
pub proof fn lemma_scan_block(st: ScanState, lines: Seq<Seq<char>>)
    requires
        comment_lines(lines),
    ensures
        scan_from(st, lines) == (ScanState {
            table: st.table,
            pending: st.pending + lines,
            comments: st.comments,
        }),
    decreases lines.len(),
{
    if lines.len() == 0 {
        assert(st.pending + lines =~= st.pending);
    } else {
        let rest = lines.drop_last();
        assert(comment_lines(rest)) by {
            assert forall|i: int| 0 <= i < rest.len() implies is_comment_line(#[trigger] rest[i]) by {
                assert(rest[i] == lines[i]);
            }
        }
        lemma_scan_block(st, rest);
        assert(lines.last() == lines[lines.len() - 1]);
        lemma_step_comment(scan_from(st, rest), lines.last());
        assert((st.pending + rest).push(lines.last()) =~= st.pending + lines);
    }
}

/// A comment block and, below it, the line of a bare key: the scan keeps
/// the block under that key of the table it is in, exactly as it stands.
pub proof fn lemma_scan_entry(st: ScanState, above: Seq<Seq<char>>, key: Seq<char>, value: Seq<char>)
    requires
        st.pending.len() == 0,
        comment_lines(above),
        is_bare_key(key),
        value.len() > 0,
        !is_space(value.last()),
    ensures
        scan_from(st, above.push(key + " = "@ + value)) == (ScanState {
            table: st.table,
            pending: Seq::empty(),
            comments: st.comments.insert(qualified(st.table, key), above),
        }),
{
    let line = key + " = "@ + value;
    assert(above.push(line).drop_last() =~= above);
    lemma_scan_block(st, above);
    lemma_step_key(scan_from(st, above), key, value);
    assert(st.pending + above =~= above);
}

/// The qualified key for which a line takes what is pending, if it takes
/// it for any.
pub open spec fn taken_key(st: ScanState, raw: Seq<char>) -> Option<Seq<char>> {
    let line = trim(raw);
    if line.len() == 0 || is_header(line) || line[0] == '#' || key_prefix(line).len() == 0 {
        None
    } else {
        Some(qualified(st.table, key_prefix(line)))
    }
}

/// Whether none of `lines`, scanned from `st` on, takes anything for
/// `key`.
pub open spec fn leaves(st: ScanState, lines: Seq<Seq<char>>, key: Seq<char>) -> bool {
    forall|i: int|
        0 <= i < lines.len() ==> taken_key(scan_from(st, lines.take(i)), #[trigger] lines[i])
            != Some(key)
}

/// What is kept under a key stays as long as no line takes anything for
/// that key.
pub proof fn lemma_scan_leaves(st: ScanState, lines: Seq<Seq<char>>, key: Seq<char>)
    requires
        leaves(st, lines, key),
    ensures
        scan_from(st, lines).comments.contains_key(key) == st.comments.contains_key(key),
        st.comments.contains_key(key) ==> scan_from(st, lines).comments[key] == st.comments[key],
        block(scan_from(st, lines).comments, key) == block(st.comments, key),
    decreases lines.len(),
{
    if lines.len() > 0 {
        let rest = lines.drop_last();
        assert(leaves(st, rest, key)) by {
            assert forall|i: int| 0 <= i < rest.len() implies taken_key(
                scan_from(st, rest.take(i)),
                #[trigger] rest[i],
            ) != Some(key) by {
                assert(rest.take(i) =~= lines.take(i));
                assert(rest[i] == lines[i]);
            }
        }
        lemma_scan_leaves(st, rest, key);
        assert(lines.take(lines.len() - 1) =~= rest);
        assert(lines.last() == lines[lines.len() - 1]);
        assert(taken_key(scan_from(st, rest), lines.last()) != Some(key));
    }
}

/// A line that reads as a comment: trimmed, it begins with `#`.
pub open spec fn reads_as_comment(raw: Seq<char>) -> bool {
    trim(raw).len() > 0 && trim(raw)[0] == '#'
}

pub open spec fn read_as_comments(lines: Seq<Seq<char>>) -> bool {
    forall|i: int| 0 <= i < lines.len() ==> reads_as_comment(#[trigger] lines[i])
}

/// A line that begins with the key `key`: trimmed, its longest run of key
/// characters from the start is `key`, which is not empty.
pub open spec fn begins_with_key(raw: Seq<char>, key: Seq<char>) -> bool {
    key.len() > 0 && key_prefix(trim(raw)) == key
}

/// The lines, each without the white space at its two ends.
pub open spec fn trimmed(lines: Seq<Seq<char>>) -> Seq<Seq<char>> {
    Seq::new(lines.len(), |i: int| trim(lines[i]))
}

/// A line that reads as a comment joins, trimmed, what is pending.
pub proof fn lemma_step_reads_comment(st: ScanState, raw: Seq<char>)
    requires
        reads_as_comment(raw),
    ensures
        scan_step(st, raw) == (ScanState {
            table: st.table,
            pending: st.pending.push(trim(raw)),
            comments: st.comments,
        }),
{
}

/// A line that begins with a key takes what is pending for that key of the
/// table the scan is in, whatever follows the key on the line.
pub proof fn lemma_step_takes(st: ScanState, raw: Seq<char>, key: Seq<char>)
    requires
        begins_with_key(raw, key),
    ensures
        scan_step(st, raw) == (ScanState {
            table: st.table,
            pending: Seq::empty(),
            comments: st.comments.insert(qualified(st.table, key), st.pending),
        }),
        taken_key(st, raw) == Some(qualified(st.table, key)),
{
    let line = trim(raw);
    assert(key_chars_from(line, 0) > 0);
    assert(is_key_char(line[0]));
}

/// Lines that read as comments join, trimmed and in order, what is
/// pending.
pub proof fn lemma_scan_reads_comments(st: ScanState, lines: Seq<Seq<char>>)
    requires
        read_as_comments(lines),
    ensures
        scan_from(st, lines) == (ScanState {
            table: st.table,
            pending: st.pending + trimmed(lines),
            comments: st.comments,
        }),
    decreases lines.len(),
{
    if lines.len() == 0 {
        assert(st.pending + trimmed(lines) =~= st.pending);
    } else {
        let rest = lines.drop_last();
        assert(read_as_comments(rest)) by {
            assert forall|i: int| 0 <= i < rest.len() implies reads_as_comment(#[trigger] rest[i]) by {
                assert(rest[i] == lines[i]);
            }
        }
        lemma_scan_reads_comments(st, rest);
        assert(lines.last() == lines[lines.len() - 1]);
        lemma_step_reads_comment(scan_from(st, rest), lines.last());
        assert((st.pending + trimmed(rest)).push(trim(lines.last())) =~= st.pending + trimmed(
            lines,
        ));
    }
}

/// After a header, and after a line that begins with a key, nothing is
/// pending.
pub proof fn lemma_nothing_pending(st: ScanState, raw: Seq<char>)
    requires
        is_header(trim(raw)) || key_prefix(trim(raw)).len() > 0,
    ensures
        scan_step(st, raw).pending.len() == 0,
{
    if !is_header(trim(raw)) {
        lemma_step_takes(st, raw, key_prefix(trim(raw)));
    }
}

/// Every comment block is kept, whole and in order, under the key it
/// stands above.
///
/// The lines of `text` are `before`, then the lines of `above`, each of
/// which reads as a comment, then a line that begins with `key`, then
/// `after`, in which no line takes anything for the same key of the same
/// table. What the scan keeps under that key is what was pending after
/// `before`, which is nothing where the last line of `before` that is not
/// blank is a header or begins with a key, and then the lines of `above`,
/// trimmed.
pub proof fn lemma_comment_block_is_kept(
    text: Seq<char>,
    before: Seq<Seq<char>>,
    above: Seq<Seq<char>>,
    key_line: Seq<char>,
    key: Seq<char>,
    after: Seq<Seq<char>>,
)
    requires
        split_lines(text) == before + above.push(key_line) + after,
        read_as_comments(above),
        begins_with_key(key_line, key),
        leaves(
            scan_from(scan_start(), before + above.push(key_line)),
            after,
            qualified(scan_from(scan_start(), before).table, key),
        ),
    ensures
        scan(text).contains_key(qualified(scan_from(scan_start(), before).table, key)),
        scan(text)[qualified(scan_from(scan_start(), before).table, key)] == scan_from(
            scan_start(),
            before,
        ).pending + trimmed(above),
{
    let start = scan_start();
    let entry = above.push(key_line);
    let s0 = scan_from(start, before);
    lemma_scan_concat(start, before + entry, after);
    lemma_scan_concat(start, before, entry);
    assert(entry.drop_last() =~= above);
    lemma_scan_reads_comments(s0, above);
    lemma_step_takes(scan_from(s0, above), key_line, key);
    lemma_scan_leaves(scan_from(start, before + entry), after, qualified(s0.table, key));
}

} // verus!
