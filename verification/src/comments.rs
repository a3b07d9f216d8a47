//! Comments of a manifest's source text, found again by the key they stand
//! above.
//!
//! The scan reads the text line by line and knows three kinds of line: a
//! table header, a comment, and anything else. It keeps the table it is in
//! and the comment lines it has met since the last header or key; a line
//! that begins with a key takes them. Blank lines change nothing. This is a
//! reading by shape, not by grammar: a key inside a value that spans lines
//! is taken for a key of the table.

use vstd::prelude::*;
use vstd::string::StringExecFns;
use crate::text::{free_of, from_chars, str_eq, texts};

verus! {

/// White space as `char::is_whitespace` has it.
pub open spec fn is_space(c: char) -> bool {
    ||| ('\u{9}' <= c && c <= '\u{d}')
    ||| c == ' '
    ||| c == '\u{85}'
    ||| c == '\u{a0}'
    ||| c == '\u{1680}'
    ||| ('\u{2000}' <= c && c <= '\u{200a}')
    ||| c == '\u{2028}'
    ||| c == '\u{2029}'
    ||| c == '\u{202f}'
    ||| c == '\u{205f}'
    ||| c == '\u{3000}'
}

/// A character of a bare key: an ASCII letter or digit, `-` or `_`.
pub open spec fn is_key_char(c: char) -> bool {
    ||| ('a' <= c && c <= 'z')
    ||| ('A' <= c && c <= 'Z')
    ||| ('0' <= c && c <= '9')
    ||| c == '-'
    ||| c == '_'
}

/// How many white-space characters stand in a row in `s` from `i` on.
pub open spec fn spaces_from(s: Seq<char>, i: int) -> nat
    decreases s.len() - i,
{
    if 0 <= i < s.len() && is_space(s[i]) {
        1 + spaces_from(s, i + 1)
    } else {
        0
    }
}

/// How many white-space characters stand in a row in `s` just before `n`.
pub open spec fn spaces_before(s: Seq<char>, n: int) -> nat
    decreases n,
{
    if 0 < n <= s.len() && is_space(s[n - 1]) {
        1 + spaces_before(s, n - 1)
    } else {
        0
    }
}

/// `s` without the white space at its two ends.
pub open spec fn trim(s: Seq<char>) -> Seq<char> {
    let a = spaces_from(s, 0) as int;
    if a == s.len() {
        Seq::empty()
    } else {
        s.subrange(a, s.len() - spaces_before(s, s.len() as int))
    }
}

/// How many key characters stand in a row in `s` from `i` on.
pub open spec fn key_chars_from(s: Seq<char>, i: int) -> nat
    decreases s.len() - i,
{
    if 0 <= i < s.len() && is_key_char(s[i]) {
        1 + key_chars_from(s, i + 1)
    } else {
        0
    }
}

/// The longest run of key characters that `line` begins with.
pub open spec fn key_prefix(line: Seq<char>) -> Seq<char> {
    line.take(key_chars_from(line, 0) as int)
}

/// A table header: a line in square brackets.
pub open spec fn is_header(line: Seq<char>) -> bool {
    line.len() > 0 && line[0] == '[' && line.last() == ']'
}

/// The name a header gives, exactly as it is written.
pub open spec fn header_table(line: Seq<char>) -> Seq<char> {
    line.subrange(1, line.len() - 1)
}

/// The key under which a comment is kept: the table, a dot, the key.
pub open spec fn qualified(table: Seq<char>, key: Seq<char>) -> Seq<char> {
    table + seq!['.'] + key
}

/// The text after the last line feed of `s`.
pub open spec fn open_line(s: Seq<char>) -> Seq<char>
    decreases s.len(),
{
    if s.len() == 0 || s.last() == '\n' {
        Seq::empty()
    } else {
        open_line(s.drop_last()).push(s.last())
    }
}

/// The lines of `s` that a line feed closes.
pub open spec fn closed_lines(s: Seq<char>) -> Seq<Seq<char>>
    decreases s.len(),
{
    if s.len() == 0 {
        Seq::empty()
    } else if s.last() == '\n' {
        closed_lines(s.drop_last()).push(open_line(s.drop_last()))
    } else {
        closed_lines(s.drop_last())
    }
}

/// The lines of `s`: a last line needs no line feed, and a line feed at the
/// end opens no further line.
pub open spec fn split_lines(s: Seq<char>) -> Seq<Seq<char>> {
    if open_line(s).len() > 0 {
        closed_lines(s).push(open_line(s))
    } else {
        closed_lines(s)
    }
}

/// What the scan knows between two lines.
pub struct ScanState {
    /// The table of the last header, empty before the first.
    pub table: Seq<char>,
    /// The comment lines met since the last header or key.
    pub pending: Seq<Seq<char>>,
    /// The comments found so far, by qualified key.
    pub comments: Map<Seq<char>, Seq<Seq<char>>>,
}

pub open spec fn scan_start() -> ScanState {
    ScanState { table: Seq::empty(), pending: Seq::empty(), comments: Map::empty() }
}

/// The state after one more line.
pub open spec fn scan_step(st: ScanState, raw: Seq<char>) -> ScanState {
    let line = trim(raw);
    if line.len() == 0 {
        st
    } else if is_header(line) {
        ScanState { table: header_table(line), pending: Seq::empty(), comments: st.comments }
    } else if line[0] == '#' {
        ScanState { table: st.table, pending: st.pending.push(line), comments: st.comments }
    } else {
        let key = key_prefix(line);
        ScanState {
            table: st.table,
            pending: Seq::empty(),
            comments: if key.len() > 0 {
                st.comments.insert(qualified(st.table, key), st.pending)
            } else {
                st.comments
            },
        }
    }
}

/// The state after the lines of `lines`, from `st` on.
pub open spec fn scan_from(st: ScanState, lines: Seq<Seq<char>>) -> ScanState
    decreases lines.len(),
{
    if lines.len() == 0 {
        st
    } else {
        scan_step(scan_from(st, lines.drop_last()), lines.last())
    }
}

/// The comments of the source text `text`, by qualified key. A key met
/// again replaces what was kept for it.
pub open spec fn scan(text: Seq<char>) -> Map<Seq<char>, Seq<Seq<char>>> {
    scan_from(scan_start(), split_lines(text)).comments
}

/// A line as the scan keeps it: it begins with `#`, holds no line feed, and
/// has no white space at either end.
pub open spec fn is_comment_line(line: Seq<char>) -> bool {
    &&& line.len() > 0
    &&& line[0] == '#'
    &&& !is_space(line.last())
    &&& forall|i: int| 0 <= i < line.len() ==> line[i] != '\n'
}

/// Every kept comment is a block of comment lines.
pub open spec fn comment_blocks(comments: Map<Seq<char>, Seq<Seq<char>>>) -> bool {
    forall|k: Seq<char>, i: int|
        comments.contains_key(k) && 0 <= i < comments[k].len() ==> is_comment_line(
            #[trigger] comments[k][i],
        )
}

/// The comment lines kept under `key`; none where nothing is kept.
pub open spec fn block(comments: Map<Seq<char>, Seq<Seq<char>>>, key: Seq<char>) -> Seq<
    Seq<char>,
> {
    if comments.contains_key(key) {
        comments[key]
    } else {
        Seq::empty()
    }
}

/// The white space that `spaces_from` counts is white space, and what
/// follows it is not.
pub proof fn lemma_spaces_from(s: Seq<char>, i: int)
    requires
        0 <= i <= s.len(),
    ensures
        i + spaces_from(s, i) <= s.len(),
        forall|j: int| i <= j < i + spaces_from(s, i) ==> is_space(s[j]),
        i + spaces_from(s, i) < s.len() ==> !is_space(s[i + spaces_from(s, i)]),
    decreases s.len() - i,
{
    if i < s.len() && is_space(s[i]) {
        lemma_spaces_from(s, i + 1);
    }
}

/// The white space that `spaces_before` counts is white space, and what
/// stands before it is not.
pub proof fn lemma_spaces_before(s: Seq<char>, n: int)
    requires
        0 <= n <= s.len(),
    ensures
        spaces_before(s, n) <= n,
        forall|j: int| n - spaces_before(s, n) <= j < n ==> is_space(s[j]),
        n - spaces_before(s, n) > 0 ==> !is_space(s[n - spaces_before(s, n) - 1]),
    decreases n,
{
    if 0 < n && is_space(s[n - 1]) {
        lemma_spaces_before(s, n - 1);
    }
}

/// A trimmed line is a stretch of the line; unless it is empty, it begins
/// and ends with something that is no white space. A line that begins and
/// ends so is its own trimmed line.
pub proof fn lemma_trim(s: Seq<char>)
    ensures
        trim(s).len() <= s.len(),
        trim(s).len() > 0 ==> !is_space(trim(s)[0]) && !is_space(trim(s).last()),
        forall|c: char| free_of(s, c) ==> free_of(trim(s), c),
        s.len() > 0 && !is_space(s[0]) && !is_space(s.last()) ==> trim(s) == s,
        s.len() > 0 && !is_space(s[0]) ==> trim(s).len() > 0 && trim(s)[0] == s[0],
        s.len() > 0 && !is_space(s.last()) ==> trim(s).len() > 0 && trim(s).last() == s.last(),
{
    lemma_spaces_from(s, 0);
    lemma_spaces_before(s, s.len() as int);
    let a = spaces_from(s, 0) as int;
    let e = s.len() - spaces_before(s, s.len() as int);
    if a < s.len() {
        if e <= a {
            assert(is_space(s[a]));
        }
        assert(a < e);
        assert(trim(s) == s.subrange(a, e));
        assert(trim(s)[0] == s[a]);
        assert(trim(s).last() == s[e - 1]);
        if s.len() > 0 && !is_space(s[0]) && !is_space(s.last()) {
            assert(a == 0 && e == s.len());
            assert(s.subrange(0, s.len() as int) =~= s);
        }
        if s.len() > 0 && !is_space(s.last()) {
            assert(e == s.len());
        }
    } else {
        if s.len() > 0 {
            assert(is_space(s[0]));
            assert(is_space(s[s.len() - 1]));
        }
    }
}

/// No line of a text holds a line feed.
pub proof fn lemma_lines_are_single(s: Seq<char>)
    ensures
        free_of(open_line(s), '\n'),
        forall|i: int| 0 <= i < closed_lines(s).len() ==> free_of(#[trigger] closed_lines(s)[i], '\n'),
        forall|i: int| 0 <= i < split_lines(s).len() ==> free_of(#[trigger] split_lines(s)[i], '\n'),
    decreases s.len(),
{
    if s.len() > 0 {
        let t = s.drop_last();
        lemma_lines_are_single(t);
        assert forall|i: int| 0 <= i < closed_lines(s).len() implies free_of(
            #[trigger] closed_lines(s)[i],
            '\n',
        ) by {
            if i < closed_lines(t).len() {
                assert(closed_lines(s)[i] == closed_lines(t)[i]);
            } else {
                assert(closed_lines(s)[i] == open_line(t));
            }
        }
        assert forall|i: int| 0 <= i < split_lines(s).len() implies free_of(
            #[trigger] split_lines(s)[i],
            '\n',
        ) by {
            if i < closed_lines(s).len() {
                assert(split_lines(s)[i] == closed_lines(s)[i]);
            } else {
                assert(split_lines(s)[i] == open_line(s));
            }
        }
    }
}

/// What the scan keeps is comment lines: those it holds pending, and those
/// under every key.
pub open spec fn keeps_comment_lines(st: ScanState) -> bool {
    &&& comment_blocks(st.comments)
    &&& forall|i: int| 0 <= i < st.pending.len() ==> is_comment_line(#[trigger] st.pending[i])
}

pub proof fn lemma_step_keeps_comment_lines(st: ScanState, raw: Seq<char>)
    requires
        keeps_comment_lines(st),
        free_of(raw, '\n'),
    ensures
        keeps_comment_lines(scan_step(st, raw)),
{
    lemma_trim(raw);
    let line = trim(raw);
    let next = scan_step(st, raw);
    if line.len() > 0 && !is_header(line) {
        if line[0] == '#' {
            assert(is_comment_line(line));
            assert forall|i: int| 0 <= i < next.pending.len() implies is_comment_line(
                #[trigger] next.pending[i],
            ) by {
                if i < st.pending.len() {
                    assert(next.pending[i] == st.pending[i]);
                }
            }
        } else {
            let key = qualified(st.table, key_prefix(line));
            assert forall|k: Seq<char>, i: int|
                next.comments.contains_key(k) && 0 <= i < next.comments[k].len()
                    implies is_comment_line(#[trigger] next.comments[k][i]) by {
                if key_prefix(line).len() > 0 && k == key {
                    assert(next.comments[k][i] == st.pending[i]);
                } else {
                    assert(st.comments.contains_key(k));
                    assert(next.comments[k][i] == st.comments[k][i]);
                }
            }
        }
    }
}

pub proof fn lemma_scan_keeps_comment_lines(st: ScanState, lines: Seq<Seq<char>>)
    requires
        keeps_comment_lines(st),
        forall|i: int| 0 <= i < lines.len() ==> free_of(#[trigger] lines[i], '\n'),
    ensures
        keeps_comment_lines(scan_from(st, lines)),
    decreases lines.len(),
{
    if lines.len() > 0 {
        lemma_scan_keeps_comment_lines(st, lines.drop_last());
        lemma_step_keeps_comment_lines(scan_from(st, lines.drop_last()), lines.last());
    }
}

/// Whatever the text, every comment that the scan keeps is a block of
/// comment lines.
pub proof fn lemma_scan_gives_comment_blocks(text: Seq<char>)
    ensures
        comment_blocks(scan(text)),
{
    lemma_lines_are_single(text);
    lemma_scan_keeps_comment_lines(scan_start(), split_lines(text));
}

struct CommentEntry {
    key: String,
    lines: Vec<String>,
}

/// Comments by qualified key.
pub struct CommentMap {
    entries: Vec<CommentEntry>,
}

spec fn entries_map(entries: Seq<CommentEntry>) -> Map<Seq<char>, Seq<Seq<char>>>
    decreases entries.len(),
{
    if entries.len() == 0 {
        Map::empty()
    } else {
        entries_map(entries.drop_last()).insert(
            entries.last().key@,
            texts(entries.last().lines@),
        )
    }
}

impl View for CommentMap {
    type V = Map<Seq<char>, Seq<Seq<char>>>;

    closed spec fn view(&self) -> Map<Seq<char>, Seq<Seq<char>>> {
        entries_map(self.entries@)
    }
}

fn clone_lines(lines: &Vec<String>) -> (r: Vec<String>)
    ensures
        texts(r@) == texts(lines@),
{
    let mut r: Vec<String> = Vec::new();
    let mut i: usize = 0;
    while i < lines.len()
        invariant
            i <= lines.len(),
            r.len() == i,
            forall|j: int| 0 <= j < i ==> r@[j]@ == lines@[j]@,
        decreases lines.len() - i,
    {
        r.push(lines[i].clone());
        i += 1;
    }
    assert(texts(r@) =~= texts(lines@));
    r
}

impl CommentMap {
    /// The map that keeps nothing.
    pub fn new() -> (r: CommentMap)
        ensures
            r@ == Map::<Seq<char>, Seq<Seq<char>>>::empty(),
    {
        CommentMap { entries: Vec::new() }
    }

    /// Keeps `lines` under `key`, in place of what was kept there.
    pub fn insert(&mut self, key: String, lines: Vec<String>)
        ensures
            final(self)@ == old(self)@.insert(key@, texts(lines@)),
    {
        let ghost before = self.entries@;
        self.entries.push(CommentEntry { key, lines });
        assert(self.entries@.drop_last() == before);
    }

    /// The comment lines kept under `key`.
    pub fn get(&self, key: &str) -> (r: Option<&Vec<String>>)
        ensures
            match r {
                Some(lines) => self@.contains_key(key@) && texts(lines@) == self@[key@],
                None => !self@.contains_key(key@),
            },
    {
        let mut i: usize = self.entries.len();
        assert(self.entries@.take(i as int) == self.entries@);
        while i > 0
            invariant
                i <= self.entries.len(),
                self@.contains_key(key@) == entries_map(
                    self.entries@.take(i as int),
                ).contains_key(key@),
                self@.contains_key(key@) ==> self@[key@] == entries_map(
                    self.entries@.take(i as int),
                )[key@],
            decreases i,
        {
            assert(self.entries@.take(i as int).drop_last() == self.entries@.take(i - 1));
            if str_eq(self.entries[i - 1].key.as_str(), key) {
                return Some(&self.entries[i - 1].lines);
            }
            i -= 1;
        }
        assert(self.entries@.take(0).len() == 0);
        None
    }

    /// The comment lines kept under `key`, none where nothing is kept.
    pub fn lines(&self, key: &str) -> (r: Vec<String>)
        ensures
            texts(r@) == block(self@, key@),
    {
        match self.get(key) {
            Some(lines) => clone_lines(lines),
            None => {
                let r: Vec<String> = Vec::new();
                assert(texts(r@) =~= block(self@, key@));
                r
            },
        }
    }
}

fn space(c: char) -> (r: bool)
    ensures
        r == is_space(c),
{
    ('\u{9}' <= c && c <= '\u{d}') || c == ' ' || c == '\u{85}' || c == '\u{a0}' || c
        == '\u{1680}' || ('\u{2000}' <= c && c <= '\u{200a}') || c == '\u{2028}' || c
        == '\u{2029}' || c == '\u{202f}' || c == '\u{205f}' || c == '\u{3000}'
}

fn key_char(c: char) -> (r: bool)
    ensures
        r == is_key_char(c),
{
    ('a' <= c && c <= 'z') || ('A' <= c && c <= 'Z') || ('0' <= c && c <= '9') || c == '-' || c
        == '_'
}

/// The line without the white space at its two ends.
fn trimmed(raw: &Vec<char>) -> (r: Vec<char>)
    ensures
        r@ == trim(raw@),
{
    let n = raw.len();
    let mut a: usize = 0;
    while a < n && space(raw[a])
        invariant
            a <= n == raw.len(),
            spaces_from(raw@, 0) == a + spaces_from(raw@, a as int),
        decreases n - a,
    {
        a += 1;
    }
    let mut r: Vec<char> = Vec::new();
    if a == n {
        return r;
    }
    let mut e: usize = n;
    while e > a + 1 && space(raw[e - 1])
        invariant
            a < e <= n == raw.len(),
            !is_space(raw@[a as int]),
            spaces_before(raw@, n as int) == (n - e) + spaces_before(raw@, e as int),
        decreases e,
    {
        e -= 1;
    }
    let mut i: usize = a;
    while i < e
        invariant
            a <= i <= e <= raw.len(),
            r@ == raw@.subrange(a as int, i as int),
        decreases e - i,
    {
        r.push(raw[i]);
        i += 1;
    }
    r
}

/// The scan between two lines, as it runs.
struct Scanner {
    table: String,
    pending: Vec<String>,
    comments: CommentMap,
}

impl View for Scanner {
    type V = ScanState;

    closed spec fn view(&self) -> ScanState {
        ScanState { table: self.table@, pending: texts(self.pending@), comments: self.comments@ }
    }
}

fn take_line(st: &mut Scanner, raw: &Vec<char>)
    ensures
        final(st)@ == scan_step(old(st)@, raw@),
{
    let line = trimmed(raw);
    let n = line.len();
    if n == 0 {
        return;
    }
    if line[0] == '[' && line[n - 1] == ']' {
        st.table = from_chars(&line, 1, n - 1);
        st.pending = Vec::new();
        assert(texts(st.pending@) =~= Seq::<Seq<char>>::empty());
    } else if line[0] == '#' {
        let ghost before = texts(st.pending@);
        st.pending.push(from_chars(&line, 0, n));
        assert(line@.subrange(0, n as int) == line@);
        assert(texts(st.pending@) =~= before.push(line@));
    } else {
        let mut k: usize = 0;
        while k < n && key_char(line[k])
            invariant
                k <= n == line.len(),
                key_chars_from(line@, 0) == k + key_chars_from(line@, k as int),
            decreases n - k,
        {
            k += 1;
        }
        let mut kept: Vec<String> = Vec::new();
        assert(texts(kept@) =~= Seq::<Seq<char>>::empty());
        std::mem::swap(&mut st.pending, &mut kept);
        if k > 0 {
            let key = from_chars(&line, 0, k);
            let mut q = st.table.clone();
            q.push('.');
            q.append(key.as_str());
            assert(q@ =~= qualified(st.table@, key_prefix(line@)));
            st.comments.insert(q, kept);
        }
    }
}

/// Reads the comments of a manifest's source text.
///
/// Whatever the text, the scan ends and gives a map; every comment in it is
/// a block of comment lines.
pub fn scan_comments(text: &str) -> (r: CommentMap)
    ensures
        r@ == scan(text@),
        comment_blocks(r@),
{
    proof {
        lemma_scan_gives_comment_blocks(text@);
    }
    let mut st = Scanner { table: String::new(), pending: Vec::new(), comments: CommentMap::new() };
    assert(texts(st.pending@) =~= Seq::<Seq<char>>::empty());
    let mut cur: Vec<char> = Vec::new();
    for c in it: text.chars()
        invariant
            it.seq() == text@,
            st@ == scan_from(scan_start(), closed_lines(text@.take(it.index()))),
            cur@ == open_line(text@.take(it.index())),
    {
        proof {
            let now = text@.take(it.index() + 1);
            assert(now.drop_last() == text@.take(it.index()));
            assert(now.last() == c);
        }
        if c == '\n' {
            take_line(&mut st, &cur);
            proof {
                let now = text@.take(it.index() + 1);
                assert(closed_lines(now).drop_last() == closed_lines(now.drop_last()));
            }
            cur = Vec::new();
        } else {
            cur.push(c);
        }
    }
    assert(text@.take(text@.len() as int) == text@);
    if cur.len() > 0 {
        take_line(&mut st, &cur);
        proof {
            assert(split_lines(text@).drop_last() == closed_lines(text@));
        }
    }
    st.comments
}

} // verus!
