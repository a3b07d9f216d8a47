//! The package's free-form metadata, flattened: every table that holds a
//! plain value or an array gets a block of its own under its dotted path,
//! and the blocks of a table's sub-tables follow the table's own.

use vstd::prelude::*;
use vstd::string::StrSliceExecFns;
use crate::array::{array_lines, flat_array, flat_items, push_array_lines};
use crate::model::{entry_views, meta_view, MetaEntry, MetaEntryView, MetaValue, MetaValueView};
use crate::text::{concat2, concat3, push_line, push_lines, texts};

verus! {

/// The longest line on which an array stays flat.
pub const FLAT_WIDTH: usize = 100;

/// The lines that an entry adds to its table's own block: none for a
/// sub-table; for an array one line, or rows where one line would be longer
/// than `FLAT_WIDTH` characters and there is more than one item; for a
/// plain value one line.
pub open spec fn entry_lines(e: MetaEntryView) -> Seq<Seq<char>> {
    match e.value {
        MetaValueView::Table(_) => Seq::empty(),
        MetaValueView::Array(items) => {
            let lead = e.key + " = "@;
            if (lead + flat_array(items)).len() > FLAT_WIDTH {
                array_lines(lead, items)
            } else {
                seq![lead + flat_array(items)]
            }
        },
        MetaValueView::Scalar(text) => seq![e.key + " = "@ + text],
    }
}

/// The lines that the first `n` entries add to their table's own block.
pub open spec fn own_lines(entries: Seq<MetaEntryView>, n: nat) -> Seq<Seq<char>>
    decreases n,
{
    if n == 0 || n > entries.len() {
        Seq::empty()
    } else {
        own_lines(entries, (n - 1) as nat) + entry_lines(entries[n - 1])
    }
}

/// The blocks of the sub-tables among the first `n` entries of the table at
/// `prefix`.
pub open spec fn nested_lines(prefix: Seq<char>, entries: Seq<MetaEntryView>, n: nat) -> Seq<
    Seq<char>,
>
    decreases entries, n,
{
    if n == 0 || n > entries.len() {
        Seq::empty()
    } else {
        nested_lines(prefix, entries, (n - 1) as nat) + (match entries[n - 1].value {
            MetaValueView::Table(sub) => table_lines(
                prefix + seq!['.'] + entries[n - 1].key,
                sub,
            ),
            _ => Seq::empty(),
        })
    }
}

/// The lines of the table at the dotted path `prefix`: its own block, if it
/// has anything but sub-tables, under a blank line and its header; then the
/// blocks of its sub-tables.
pub open spec fn table_lines(prefix: Seq<char>, entries: Seq<MetaEntryView>) -> Seq<Seq<char>>
    decreases entries, entries.len() + 1,
{
    let own = own_lines(entries, entries.len());
    (if own.len() == 0 {
        Seq::empty()
    } else {
        seq![Seq::empty(), seq!['['] + prefix + seq![']']] + own
    }) + nested_lines(prefix, entries, entries.len())
}

/// The lines of a package's metadata; none unless it is a table.
pub open spec fn metadata_lines(metadata: Option<MetaValueView>) -> Seq<Seq<char>> {
    match metadata {
        Some(MetaValueView::Table(entries)) => table_lines("package.metadata"@, entries),
        _ => Seq::empty(),
    }
}

pub proof fn lemma_entry_views(entries: Seq<MetaEntry>, n: nat)
    requires
        n <= entries.len(),
    ensures
        entry_views(entries, n).len() == n,
        forall|i: int|
            0 <= i < n ==> (#[trigger] entry_views(entries, n)[i]) == (MetaEntryView {
                key: entries[i].key@,
                value: meta_view(entries[i].value),
            }),
        forall|m: nat| m <= n ==> (#[trigger] entry_views(entries, m)) == entry_views(entries, n).take(m as int),
    decreases n,
{
    if n > 0 {
        lemma_entry_views(entries, (n - 1) as nat);
        assert forall|m: nat| m <= n implies (#[trigger] entry_views(entries, m))
            == entry_views(entries, n).take(m as int) by {
            if m < n {
                assert(entry_views(entries, m) == entry_views(entries, (n - 1) as nat).take(
                    m as int,
                ));
                assert(entry_views(entries, (n - 1) as nat).take(m as int) =~= entry_views(
                    entries,
                    n,
                ).take(m as int));
            } else {
                assert(entry_views(entries, n).take(n as int) =~= entry_views(entries, n));
            }
        }
    } else {
        assert forall|m: nat| m <= n implies (#[trigger] entry_views(entries, m))
            == entry_views(entries, n).take(m as int) by {
            assert(entry_views(entries, n).take(0) =~= entry_views(entries, 0));
        }
    }
}

/// Writes the table of metadata that stands at the dotted path
/// `key_prefix`, and the tables below it.
pub fn render_metadata(key_prefix: &str, table: &Vec<MetaEntry>) -> (r: Vec<String>)
    ensures
        texts(r@) == table_lines(key_prefix@, entry_views(table@, table@.len())),
    decreases table,
{
    let ghost entries = entry_views(table@, table@.len());
    proof {
        lemma_entry_views(table@, table@.len());
    }
    let mut own: Vec<String> = Vec::new();
    let mut nested: Vec<String> = Vec::new();
    assert(texts(own@) =~= Seq::<Seq<char>>::empty());
    assert(texts(nested@) =~= Seq::<Seq<char>>::empty());
    let mut i: usize = 0;
    while i < table.len()
        invariant
            i <= table.len(),
            entries == entry_views(table@, table@.len()),
            entries.len() == table.len(),
            forall|j: int|
                0 <= j < table.len() ==> (#[trigger] entries[j]) == (MetaEntryView {
                    key: table@[j].key@,
                    value: meta_view(table@[j].value),
                }),
            texts(own@) == own_lines(entries, i as nat),
            texts(nested@) == nested_lines(key_prefix@, entries, i as nat),
        decreases table.len() - i,
    {
        let entry = &table[i];
        let key = entry.key.as_str();
        assert(entries[i as int].key == key@);
        assert(entries[i as int].value == meta_view(entry.value));
        match &entry.value {
            MetaValue::Table(sub) => {
                let path = concat3(key_prefix, ".", key);
                proof {
                    reveal_strlit(".");
                    assert(path@ =~= key_prefix@ + seq!['.'] + key@);
                }
                let lines = render_metadata(path.as_str(), sub);
                push_lines(&mut nested, lines);
            },
            MetaValue::Array(items) => {
                let lead = concat2(key, " = ");
                let flat = flat_items(items);
                let line = concat2(lead.as_str(), flat.as_str());
                if line.as_str().unicode_len() > FLAT_WIDTH {
                    push_array_lines(&mut own, lead.as_str(), items);
                } else {
                    push_line(&mut own, line);
                    assert(texts(own@) =~= own_lines(entries, i as nat) + entry_lines(
                        entries[i as int],
                    ));
                }
            },
            MetaValue::Scalar(text) => {
                push_line(&mut own, concat3(key, " = ", text.as_str()));
                assert(texts(own@) =~= own_lines(entries, i as nat) + entry_lines(
                    entries[i as int],
                ));
            },
        }
        assert(texts(own@) =~= own_lines(entries, (i + 1) as nat));
        assert(texts(nested@) =~= nested_lines(key_prefix@, entries, (i + 1) as nat));
        i += 1;
    }
    let mut out: Vec<String> = Vec::new();
    assert(texts(out@) =~= Seq::<Seq<char>>::empty());
    if own.len() > 0 {
        push_line(&mut out, String::new());
        let mut header = String::new();
        header.push('[');
        header.append(key_prefix);
        header.push(']');
        assert(header@ =~= seq!['['] + key_prefix@ + seq![']']);
        push_line(&mut out, header);
        push_lines(&mut out, own);
    }
    push_lines(&mut out, nested);
    assert(texts(out@) =~= table_lines(key_prefix@, entries));
    out
}

/// Writes a package's metadata.
pub fn render_package_metadata(metadata: &Option<MetaValue>) -> (r: Vec<String>)
    ensures
        texts(r@) == metadata_lines(
            match *metadata {
                Some(value) => Some(value@),
                None => None,
            },
        ),
{
    match metadata {
        Some(MetaValue::Table(entries)) => render_metadata("package.metadata", entries),
        _ => {
            let out: Vec<String> = Vec::new();
            assert(texts(out@) =~= Seq::<Seq<char>>::empty());
            out
        },
    }
}

} // verus!
