//! Arrays of already spelled items: on one line, or one item to a line.

use vstd::prelude::*;
use vstd::string::StringExecFns;
use crate::quote::{quoted, toml_str};
use crate::text::{lemma_unlines_concat, lemma_unlines_push, push_line, texts, unlines};

verus! {

/// The items in order, a comma and a space between neighbours.
pub open spec fn comma_separated(items: Seq<Seq<char>>) -> Seq<char>
    decreases items.len(),
{
    if items.len() == 0 {
        Seq::empty()
    } else if items.len() == 1 {
        items[0]
    } else {
        comma_separated(items.drop_last()) + seq![',', ' '] + items.last()
    }
}

/// The array on one line.
pub open spec fn flat_array(items: Seq<Seq<char>>) -> Seq<char> {
    seq!['['] + comma_separated(items) + seq![']']
}

/// One row of a spread array: four spaces, the item, a comma.
pub open spec fn pretty_row(item: Seq<char>) -> Seq<char> {
    seq![' ', ' ', ' ', ' '] + item + seq![',']
}

/// The rows of a spread array.
pub open spec fn pretty_rows(items: Seq<Seq<char>>) -> Seq<Seq<char>> {
    Seq::new(items.len(), |i: int| pretty_row(items[i]))
}

/// The array as a value: spread over rows when it has more than one item,
/// on one line otherwise.
pub open spec fn pretty_array(items: Seq<Seq<char>>) -> Seq<char> {
    if items.len() > 1 {
        seq!['[', '\n'] + unlines(pretty_rows(items)) + seq![']']
    } else {
        flat_array(items)
    }
}

/// The lines of `lead` followed by the array as `pretty_array` spells it.
pub open spec fn array_lines(lead: Seq<char>, items: Seq<Seq<char>>) -> Seq<Seq<char>> {
    if items.len() > 1 {
        seq![lead + seq!['[']] + pretty_rows(items) + seq![seq![']']]
    } else {
        seq![lead + flat_array(items)]
    }
}

/// Each value spelled as a string.
pub open spec fn quoted_all(values: Seq<Seq<char>>) -> Seq<Seq<char>> {
    Seq::new(values.len(), |i: int| quoted(values[i]))
}

/// The lines of an array are the lead and the array value, cut at its line
/// feeds.
pub proof fn lemma_array_lines_text(lead: Seq<char>, items: Seq<Seq<char>>)
    ensures
        unlines(array_lines(lead, items)) == lead + pretty_array(items) + seq!['\n'],
{
    if items.len() > 1 {
        let first = seq![lead + seq!['[']];
        let rows = pretty_rows(items);
        let last = seq![seq![']']];
        lemma_unlines_concat(first + rows, last);
        lemma_unlines_concat(first, rows);
        lemma_unlines_push(Seq::empty(), lead + seq!['[']);
        lemma_unlines_push(Seq::empty(), seq![']']);
        assert(Seq::<Seq<char>>::empty().push(lead + seq!['[']) == first);
        assert(Seq::<Seq<char>>::empty().push(seq![']']) == last);
        assert(unlines(Seq::empty()) == Seq::<char>::empty());
        assert(unlines(array_lines(lead, items)) =~= lead + pretty_array(items) + seq!['\n']);
    } else {
        lemma_unlines_push(Seq::empty(), lead + flat_array(items));
        assert(Seq::<Seq<char>>::empty().push(lead + flat_array(items)) == array_lines(
            lead,
            items,
        ));
        assert(unlines(array_lines(lead, items)) =~= lead + pretty_array(items) + seq!['\n']);
    }
}

/// Spells each value as a string.
pub fn quote_all(values: &Vec<String>) -> (r: Vec<String>)
    ensures
        texts(r@) == quoted_all(texts(values@)),
{
    let mut r: Vec<String> = Vec::new();
    let mut i: usize = 0;
    while i < values.len()
        invariant
            i <= values.len(),
            r.len() == i,
            forall|j: int| 0 <= j < i ==> r@[j]@ == quoted(values@[j]@),
        decreases values.len() - i,
    {
        let q = toml_str(values[i].as_str());
        r.push(q);
        i += 1;
    }
    assert(texts(r@) =~= quoted_all(texts(values@)));
    r
}

/// Writes the items in order, a comma and a space between neighbours.
pub fn comma_join(items: &Vec<String>) -> (r: String)
    ensures
        r@ == comma_separated(texts(items@)),
{
    let mut r = String::new();
    let mut i: usize = 0;
    while i < items.len()
        invariant
            i <= items.len(),
            r@ == comma_separated(texts(items@).take(i as int)),
        decreases items.len() - i,
    {
        let ghost t = texts(items@);
        assert(t.take(i + 1).drop_last() == t.take(i as int));
        assert(t.take(i + 1).last() == items@[i as int]@);
        if i > 0 {
            r.push(',');
            r.push(' ');
        }
        r.append(items[i].as_str());
        assert(r@ =~= comma_separated(t.take(i + 1)));
        i += 1;
    }
    assert(texts(items@).take(i as int) == texts(items@));
    r
}

/// Writes already spelled items as an array on one line.
pub fn flat_items(items: &Vec<String>) -> (r: String)
    ensures
        r@ == flat_array(texts(items@)),
{
    let mut r = String::new();
    r.push('[');
    let inner = comma_join(items);
    r.append(inner.as_str());
    r.push(']');
    assert(r@ =~= flat_array(texts(items@)));
    r
}

/// Adds to `out` the lines of `lead` followed by the array of already
/// spelled items, spread over rows when there is more than one.
pub fn push_array_lines(out: &mut Vec<String>, lead: &str, items: &Vec<String>)
    ensures
        texts(final(out)@) == texts(old(out)@) + array_lines(lead@, texts(items@)),
{
    if items.len() > 1 {
        let mut first = String::from_str(lead);
        first.push('[');
        assert(first@ =~= lead@ + seq!['[']);
        push_line(out, first);
        assert(texts(out@) =~= texts(old(out)@) + seq![lead@ + seq!['[']]);
        let mut i: usize = 0;
        while i < items.len()
            invariant
                i <= items.len(),
                texts(out@) == texts(old(out)@) + seq![lead@ + seq!['[']] + pretty_rows(
                    texts(items@),
                ).take(i as int),
            decreases items.len() - i,
        {
            let mut row = String::from_str("    ");
            proof {
                reveal_strlit("    ");
                assert("    "@ =~= seq![' ', ' ', ' ', ' ']);
            }
            row.append(items[i].as_str());
            row.push(',');
            let ghost before = texts(out@);
            push_line(out, row);
            proof {
                let rows = pretty_rows(texts(items@));
                assert(rows.take(i + 1) == rows.take(i as int).push(rows[i as int]));
                assert(row@ =~= rows[i as int]);
                assert(texts(out@) =~= texts(old(out)@) + seq![lead@ + seq!['[']] + rows.take(
                    i + 1,
                ));
            }
            i += 1;
        }
        let ghost before = texts(out@);
        let mut close = String::new();
        close.push(']');
        push_line(out, close);
        proof {
            let rows = pretty_rows(texts(items@));
            assert(rows.take(i as int) == rows);
            assert(close@ =~= seq![']']);
            assert(texts(out@) =~= texts(old(out)@) + array_lines(lead@, texts(items@)));
        }
    } else {
        let flat = flat_items(items);
        let mut line = String::from_str(lead);
        line.append(flat.as_str());
        let ghost before = texts(out@);
        push_line(out, line);
        assert(texts(out@) =~= before + array_lines(lead@, texts(items@)));
    }
}

/// Writes string values as an array on one line.
pub fn toml_flat_array(values: &Vec<String>) -> (r: String)
    ensures
        r@ == flat_array(quoted_all(texts(values@))),
{
    let items = quote_all(values);
    flat_items(&items)
}

/// Writes already spelled items as an array value, spread over rows when
/// there is more than one.
pub fn pretty_items(items: &Vec<String>) -> (r: String)
    ensures
        r@ == pretty_array(texts(items@)),
{
    if items.len() <= 1 {
        return flat_items(items);
    }
    let mut r = String::new();
    r.push('[');
    r.push('\n');
    let mut i: usize = 0;
    while i < items.len()
        invariant
            i <= items.len(),
            r@ == seq!['[', '\n'] + unlines(pretty_rows(texts(items@)).take(i as int)),
        decreases items.len() - i,
    {
        proof {
            let rows = pretty_rows(texts(items@));
            assert(rows.take(i + 1) == rows.take(i as int).push(rows[i as int]));
            lemma_unlines_push(rows.take(i as int), rows[i as int]);
        }
        let ghost was = r@;
        r.push(' ');
        r.push(' ');
        r.push(' ');
        r.push(' ');
        r.append(items[i].as_str());
        r.push(',');
        r.push('\n');
        assert(r@ =~= was + pretty_row(items@[i as int]@) + seq!['\n']);
        i += 1;
    }
    assert(pretty_rows(texts(items@)).take(i as int) == pretty_rows(texts(items@)));
    r.push(']');
    r
}

/// Writes string values as an array value, one to a row when there is more
/// than one.
pub fn toml_pretty_array(values: &Vec<String>) -> (r: String)
    ensures
        r@ == pretty_array(quoted_all(texts(values@))),
{
    let items = quote_all(values);
    pretty_items(&items)
}

} // verus!
