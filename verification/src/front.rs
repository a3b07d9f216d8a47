//! The blocks that stand before the dependencies: the package, its
//! metadata and its targets. None of their lines reads as a table of
//! dependencies or of features, as long as the keys of the metadata are
//! bare keys, so the scan keeps nothing from them for a dependency or a
//! feature.

use vstd::prelude::*;
use crate::array::{array_lines, flat_array, pretty_row, pretty_rows};
use crate::comments::{
    header_table,
    is_header,
    is_key_char,
    key_prefix,
    lemma_trim,
    qualified,
    scan_from,
    scan_step,
    trim,
    ScanState,
};
use crate::extra::ManifestExtraView;
use crate::manifest::{
    build_path,
    group_lines,
    in_group,
    library_lines,
    located,
    targets_lines,
    Group,
};
use crate::metadata::{entry_lines, metadata_lines, nested_lines, own_lines, table_lines};
use crate::model::{ManifestView, MetaEntryView, MetaValueView, TargetView};
use crate::package::{
    about_lines,
    build_field,
    discovery_lines,
    field,
    flag_field,
    identity_lines,
    list_field,
    package_lines,
    packaged_key,
    packaging_lines,
    publish_field,
    readme_field,
    setting,
};
use crate::quote::quoted;
use crate::reading::is_bare_key;
use crate::target::{target_body, target_header, target_lines};

verus! {

/// A first letter other than those of the tables of dependencies and of
/// features: `dependencies`, `dev-dependencies`, `build-dependencies`,
/// `target.…` and `features`.
pub open spec fn is_outside_letter(c: char) -> bool {
    c != 'd' && c != 'b' && c != 't' && c != 'f'
}

/// A table that holds neither dependencies nor features, told by its
/// first letter.
pub open spec fn is_outside(table: Seq<char>) -> bool {
    table.len() == 0 || is_outside_letter(table[0])
}

/// A line that does not read as the header of a table of dependencies or of
/// features.
pub open spec fn is_plain_line(line: Seq<char>) -> bool {
    is_header(trim(line)) ==> is_outside(header_table(trim(line)))
}

pub open spec fn plain_lines(lines: Seq<Seq<char>>) -> bool {
    forall|i: int| 0 <= i < lines.len() ==> is_plain_line(#[trigger] lines[i])
}

/// A qualified key of a table that is outside.
pub open spec fn is_outside_key(key: Seq<char>) -> bool {
    key.len() > 0 && is_outside_letter(key[0])
}

/// The scan stands outside the tables of dependencies and features, and has
/// kept nothing for them.
pub open spec fn stands_outside(st: ScanState) -> bool {
    &&& is_outside(st.table)
    &&& forall|k: Seq<char>| st.comments.contains_key(k) ==> is_outside_key(k)
}

proof fn lemma_step_stays_outside(st: ScanState, line: Seq<char>)
    requires
        stands_outside(st),
        is_plain_line(line),
    ensures
        stands_outside(scan_step(st, line)),
{
    let t = trim(line);
    if t.len() > 0 && !is_header(t) && t[0] != '#' && key_prefix(t).len() > 0 {
        let q = qualified(st.table, key_prefix(t));
        assert(q[0] == (if st.table.len() == 0 {
            '.'
        } else {
            st.table[0]
        }));
        assert(is_outside_key(q));
    }
}

/// Lines that are plain leave the scan outside.
pub proof fn lemma_scan_stays_outside(st: ScanState, lines: Seq<Seq<char>>)
    requires
        stands_outside(st),
        plain_lines(lines),
    ensures
        stands_outside(scan_from(st, lines)),
    decreases lines.len(),
{
    if lines.len() > 0 {
        let rest = lines.drop_last();
        assert(plain_lines(rest)) by {
            assert forall|i: int| 0 <= i < rest.len() implies is_plain_line(#[trigger] rest[i]) by {
                assert(rest[i] == lines[i]);
            }
        }
        lemma_scan_stays_outside(st, rest);
        assert(lines.last() == lines[lines.len() - 1]);
        lemma_step_stays_outside(scan_from(st, rest), lines.last());
    }
}

/// The blocks that stand before the dependencies: the package, its
/// metadata and its targets.
pub open spec fn front_lines(base: Seq<char>, m: ManifestView, x: ManifestExtraView) -> Seq<
    Seq<char>,
> {
    package_lines(m, x, build_path(base, m.targets)) + metadata_lines(m.custom_metadata)
        + targets_lines(base, m)
}

/// A line that begins with a key character.
pub open spec fn is_keyed(line: Seq<char>) -> bool {
    line.len() > 0 && is_key_char(line[0])
}

proof fn lemma_keyed(line: Seq<char>)
    requires
        is_keyed(line),
    ensures
        is_plain_line(line),
{
    lemma_trim(line);
}

/// A header is plain where its table is outside.
proof fn lemma_header(table: Seq<char>)
    requires
        is_outside(table),
    ensures
        is_plain_line(seq!['['] + table + seq![']']),
{
    let h = seq!['['] + table + seq![']'];
    lemma_trim(h);
    assert(h[0] == '[');
    assert(h.last() == ']');
    assert(trim(h) == h);
    assert(header_table(h) =~= table);
}

proof fn lemma_joined(a: Seq<Seq<char>>, b: Seq<Seq<char>>)
    requires
        plain_lines(a),
        plain_lines(b),
    ensures
        plain_lines(a + b),
{
    assert forall|i: int| 0 <= i < (a + b).len() implies is_plain_line(#[trigger] (a + b)[i]) by {
        if i < a.len() {
            assert((a + b)[i] == a[i]);
        } else {
            assert((a + b)[i] == b[i - a.len()]);
        }
    }
}

proof fn lemma_array(lead: Seq<char>, items: Seq<Seq<char>>)
    requires
        is_keyed(lead),
    ensures
        plain_lines(array_lines(lead, items)),
{
    let lines = array_lines(lead, items);
    assert forall|i: int| 0 <= i < lines.len() implies is_plain_line(#[trigger] lines[i]) by {
        if items.len() > 1 {
            if i == 0 {
                assert(lines[i] == lead + seq!['[']);
                lemma_keyed(lines[i]);
            } else if i <= items.len() {
                let row = pretty_rows(items)[i - 1];
                assert(lines[i] == row);
                assert(row == pretty_row(items[i - 1]));
                assert(row.last() == ',');
                lemma_trim(row);
            } else {
                assert(lines[i] == seq![']']);
                lemma_trim(lines[i]);
            }
        } else {
            assert(lines[i] == lead + flat_array(items));
            lemma_keyed(lines[i]);
        }
    }
}

proof fn lemma_setting(key: Seq<char>, value: Seq<char>)
    requires
        is_keyed(key),
    ensures
        is_plain_line(setting(key, value)),
{
    assert(setting(key, value)[0] == key[0]);
    lemma_keyed(setting(key, value));
}

proof fn lemma_field(key: Seq<char>, value: Option<Seq<char>>)
    requires
        is_keyed(key),
    ensures
        plain_lines(field(key, value)),
{
    match value {
        Some(v) => {
            lemma_setting(key, v);
        },
        None => {},
    }
}

proof fn lemma_list(key: Seq<char>, values: Seq<Seq<char>>)
    requires
        is_keyed(key),
    ensures
        plain_lines(list_field(key, values)),
{
    if values.len() > 0 {
        assert((key + " = "@)[0] == key[0]);
        lemma_array(key + " = "@, crate::array::quoted_all(values));
    }
}

proof fn lemma_flag(key: Seq<char>, on: bool)
    requires
        is_keyed(key),
    ensures
        plain_lines(flag_field(key, on)),
{
    if !on {
        assert((key + " = false"@)[0] == key[0]);
        lemma_keyed(key + " = false"@);
    }
}

proof fn lemma_identity(m: ManifestView)
    ensures
        plain_lines(identity_lines(m)),
{
    reveal_strlit("[package]");
    reveal_strlit("name");
    reveal_strlit("description");
    reveal_strlit("version");
    reveal_strlit("authors");
    reveal_strlit("keywords");
    reveal_strlit("categories");
    let head = "[package]"@;
    lemma_trim(head);
    assert(head[0] == '[' && head.last() == ']');
    assert(header_table(head)[0] == 'p');
    assert(is_plain_line(head));
    lemma_setting("name"@, m.name);
    let a = seq![head, setting("name"@, m.name)];
    assert(plain_lines(a));
    let b = field("description"@, m.description);
    lemma_field("description"@, m.description);
    lemma_setting("version"@, m.version);
    let c = seq![setting("version"@, m.version)];
    let d = list_field("authors"@, m.authors);
    lemma_list("authors"@, m.authors);
    let e = list_field("keywords"@, m.keywords);
    lemma_list("keywords"@, m.keywords);
    let f = list_field("categories"@, m.categories);
    lemma_list("categories"@, m.categories);
    lemma_joined(a, b);
    lemma_joined(a + b, c);
    lemma_joined(a + b + c, d);
    lemma_joined(a + b + c + d, e);
    lemma_joined(a + b + c + d + e, f);
}

proof fn lemma_about(m: ManifestView)
    ensures
        plain_lines(about_lines(m)),
{
    reveal_strlit("license");
    reveal_strlit("license-file");
    reveal_strlit("readme");
    reveal_strlit("homepage");
    reveal_strlit("repository");
    reveal_strlit("documentation");
    let a = field("license"@, m.license);
    lemma_field("license"@, m.license);
    let b = field("license-file"@, m.license_file);
    lemma_field("license-file"@, m.license_file);
    let c = readme_field(m.readme);
    match m.readme {
        Some(r) => {
            lemma_setting("readme"@, r);
        },
        None => {},
    }
    assert(plain_lines(c));
    let d = field("homepage"@, m.homepage);
    lemma_field("homepage"@, m.homepage);
    let e = field("repository"@, m.repository);
    lemma_field("repository"@, m.repository);
    let f = field("documentation"@, m.documentation);
    lemma_field("documentation"@, m.documentation);
    lemma_joined(a, b);
    lemma_joined(a + b, c);
    lemma_joined(a + b + c, d);
    lemma_joined(a + b + c + d, e);
    lemma_joined(a + b + c + d + e, f);
}

proof fn lemma_packaging(m: ManifestView)
    ensures
        plain_lines(packaging_lines(m)),
{
    reveal_strlit("exclude");
    reveal_strlit("links");
    reveal_strlit("edition");
    reveal_strlit("publish = false");
    reveal_strlit("publish = ");
    reveal_strlit("default-run");
    let a = list_field("exclude"@, m.excluded);
    lemma_list("exclude"@, m.excluded);
    let b = list_field(packaged_key(), m.included);
    lemma_list(packaged_key(), m.included);
    let c = field("links"@, m.links);
    lemma_field("links"@, m.links);
    lemma_setting("edition"@, m.edition);
    let d = seq![setting("edition"@, m.edition)];
    let e = publish_field(m.publish);
    match m.publish {
        Some(registries) => {
            if registries.len() == 0 {
                lemma_keyed("publish = false"@);
            } else {
                lemma_array("publish = "@, crate::array::quoted_all(registries));
            }
        },
        None => {},
    }
    assert(plain_lines(e));
    let f = field("default-run"@, m.default_run);
    lemma_field("default-run"@, m.default_run);
    lemma_joined(a, b);
    lemma_joined(a + b, c);
    lemma_joined(a + b + c, d);
    lemma_joined(a + b + c + d, e);
    lemma_joined(a + b + c + d + e, f);
}

proof fn lemma_discovery(x: ManifestExtraView, build: Option<Seq<char>>)
    ensures
        plain_lines(discovery_lines(x, build)),
{
    reveal_strlit("autobenches");
    reveal_strlit("autobins");
    reveal_strlit("autoexamples");
    reveal_strlit("autotests");
    reveal_strlit("build");
    let a = flag_field("autobenches"@, x.autobenches);
    lemma_flag("autobenches"@, x.autobenches);
    let b = flag_field("autobins"@, x.autobins);
    lemma_flag("autobins"@, x.autobins);
    let c = flag_field("autoexamples"@, x.autoexamples);
    lemma_flag("autoexamples"@, x.autoexamples);
    let d = flag_field("autotests"@, x.autotests);
    lemma_flag("autotests"@, x.autotests);
    let e = build_field(build);
    match build {
        Some(rel) => {
            lemma_setting("build"@, rel);
        },
        None => {},
    }
    assert(plain_lines(e));
    lemma_joined(a, b);
    lemma_joined(a + b, c);
    lemma_joined(a + b + c, d);
    lemma_joined(a + b + c + d, e);
}

/// No line of the `[package]` block reads as a table of dependencies or of
/// features.
pub proof fn lemma_package_is_plain(m: ManifestView, x: ManifestExtraView, build: Option<Seq<char>>)
    ensures
        plain_lines(package_lines(m, x, build)),
{
    lemma_identity(m);
    lemma_about(m);
    lemma_packaging(m);
    lemma_discovery(x, build);
    lemma_joined(identity_lines(m), about_lines(m));
    lemma_joined(identity_lines(m) + about_lines(m), packaging_lines(m));
    lemma_joined(
        identity_lines(m) + about_lines(m) + packaging_lines(m),
        discovery_lines(x, build),
    );
}

/// No line of the block of a target reads as a table of dependencies or of
/// features.
pub proof fn lemma_target_is_plain(rel: Seq<char>, package_name: Seq<char>, target: TargetView)
    ensures
        plain_lines(target_lines(rel, package_name, target)),
{
    reveal_strlit("[lib]");
    reveal_strlit("[[bin]]");
    reveal_strlit("[[test]]");
    reveal_strlit("[[bench]]");
    reveal_strlit("[[example]]");
    reveal_strlit("name = ");
    reveal_strlit("proc-macro = true");
    reveal_strlit("path = ");
    reveal_strlit("harness = false");
    reveal_strlit("doc = false");
    let lines = target_lines(rel, package_name, target);
    let body = target_body(rel, target);
    lemma_keyed("proc-macro = true"@);
    lemma_keyed("harness = false"@);
    lemma_keyed("doc = false"@);
    assert(("path = "@ + quoted(rel))[0] == 'p');
    lemma_keyed("path = "@ + quoted(rel));
    assert(("name = "@ + quoted(target.name))[0] == 'n');
    lemma_keyed("name = "@ + quoted(target.name));
    let a: Seq<Seq<char>> = if crate::target::is_proc_macro(target.kind) {
        seq!["proc-macro = true"@]
    } else {
        Seq::empty()
    };
    let b: Seq<Seq<char>> = if crate::target::standard_path(target.kind, target.name, rel) {
        Seq::empty()
    } else {
        seq!["path = "@ + quoted(rel)]
    };
    let c: Seq<Seq<char>> = if target.harness {
        Seq::empty()
    } else {
        seq!["harness = false"@]
    };
    let d: Seq<Seq<char>> = if !target.documented && target.kind is Lib {
        seq!["doc = false"@]
    } else {
        Seq::empty()
    };
    lemma_joined(a, b);
    lemma_joined(a + b, c);
    lemma_joined(a + b + c, d);
    assert(body == a + b + c + d);
    if !(target.kind is CustomBuild) && body.len() > 0 {
        let header = target_header(target.kind);
        lemma_trim(header);
        assert(header[0] == '[' && header.last() == ']');
        assert(header_table(header)[0] == 'l' || header_table(header)[0] == '[');
        assert(is_plain_line(header));
        let head = seq![Seq::<char>::empty(), header];
        assert(plain_lines(head));
        let named: Seq<Seq<char>> = if crate::target::inferred(rel, package_name, target).name {
            Seq::empty()
        } else {
            seq!["name = "@ + quoted(target.name)]
        };
        lemma_joined(head, named);
        lemma_joined(head + named, body);
    }
}

proof fn lemma_group_is_plain(
    base: Seq<char>,
    package_name: Seq<char>,
    targets: Seq<TargetView>,
    group: Group,
    n: int,
)
    ensures
        plain_lines(group_lines(base, package_name, targets, group, n)),
    decreases n,
{
    if n > 0 {
        lemma_group_is_plain(base, package_name, targets, group, n - 1);
        let t = targets[n - 1];
        lemma_target_is_plain(located(base, t), package_name, t);
        let added: Seq<Seq<char>> = if in_group(t.kind, group) {
            target_lines(located(base, t), package_name, t)
        } else {
            Seq::empty()
        };
        lemma_joined(group_lines(base, package_name, targets, group, n - 1), added);
    }
}

/// No line of the blocks of the targets reads as a table of dependencies or
/// of features.
pub proof fn lemma_targets_are_plain(base: Seq<char>, m: ManifestView)
    ensures
        plain_lines(targets_lines(base, m)),
{
    let n = m.targets.len() as int;
    let lib = library_lines(base, m.name, m.targets);
    match crate::manifest::library(m.targets) {
        Some(t) => {
            lemma_target_is_plain(located(base, t), m.name, t);
        },
        None => {},
    }
    let a = group_lines(base, m.name, m.targets, Group::Bin, n);
    let b = group_lines(base, m.name, m.targets, Group::Example, n);
    let c = group_lines(base, m.name, m.targets, Group::Test, n);
    let d = group_lines(base, m.name, m.targets, Group::Bench, n);
    lemma_group_is_plain(base, m.name, m.targets, Group::Bin, n);
    lemma_group_is_plain(base, m.name, m.targets, Group::Example, n);
    lemma_group_is_plain(base, m.name, m.targets, Group::Test, n);
    lemma_group_is_plain(base, m.name, m.targets, Group::Bench, n);
    lemma_joined(lib, a);
    lemma_joined(lib + a, b);
    lemma_joined(lib + a + b, c);
    lemma_joined(lib + a + b + c, d);
}

/// Whether every key among the first `n` entries, and in the tables below
/// them, is a bare key.
pub open spec fn bare_keys(entries: Seq<MetaEntryView>, n: nat) -> bool
    decreases entries, n,
{
    if n == 0 || n > entries.len() {
        true
    } else {
        &&& bare_keys(entries, (n - 1) as nat)
        &&& is_bare_key(entries[n - 1].key)
        &&& match entries[n - 1].value {
            MetaValueView::Table(sub) => bare_keys(sub, sub.len()),
            _ => true,
        }
    }
}

/// Whether every key of the metadata is a bare key.
pub open spec fn bare_metadata(metadata: Option<MetaValueView>) -> bool {
    match metadata {
        Some(MetaValueView::Table(entries)) => bare_keys(entries, entries.len()),
        _ => true,
    }
}

proof fn lemma_entry_is_plain(e: MetaEntryView)
    requires
        is_bare_key(e.key),
    ensures
        plain_lines(entry_lines(e)),
{
    assert(is_key_char(e.key[0]));
    match e.value {
        MetaValueView::Table(_) => {},
        MetaValueView::Array(items) => {
            let lead = e.key + " = "@;
            assert(lead[0] == e.key[0]);
            lemma_array(lead, items);
            assert((lead + flat_array(items))[0] == e.key[0]);
            lemma_keyed(lead + flat_array(items));
        },
        MetaValueView::Scalar(text) => {
            assert((e.key + " = "@ + text)[0] == e.key[0]);
            lemma_keyed(e.key + " = "@ + text);
        },
    }
}

proof fn lemma_own_is_plain(entries: Seq<MetaEntryView>, n: nat)
    requires
        n <= entries.len(),
        bare_keys(entries, n),
    ensures
        plain_lines(own_lines(entries, n)),
    decreases n,
{
    if n > 0 {
        lemma_own_is_plain(entries, (n - 1) as nat);
        lemma_entry_is_plain(entries[n - 1]);
        lemma_joined(own_lines(entries, (n - 1) as nat), entry_lines(entries[n - 1]));
    }
}

proof fn lemma_nested_is_plain(prefix: Seq<char>, entries: Seq<MetaEntryView>, n: nat)
    requires
        n <= entries.len(),
        bare_keys(entries, n),
        prefix.len() > 0,
        is_outside(prefix),
    ensures
        plain_lines(nested_lines(prefix, entries, n)),
    decreases entries, n,
{
    if n > 0 {
        lemma_nested_is_plain(prefix, entries, (n - 1) as nat);
        let added: Seq<Seq<char>> = match entries[n - 1].value {
            MetaValueView::Table(sub) => {
                let below = prefix + seq!['.'] + entries[n - 1].key;
                assert(below[0] == prefix[0]);
                lemma_table_is_plain(below, sub);
                table_lines(below, sub)
            },
            _ => Seq::empty(),
        };
        lemma_joined(nested_lines(prefix, entries, (n - 1) as nat), added);
    }
}

proof fn lemma_table_is_plain(prefix: Seq<char>, entries: Seq<MetaEntryView>)
    requires
        bare_keys(entries, entries.len()),
        prefix.len() > 0,
        is_outside(prefix),
    ensures
        plain_lines(table_lines(prefix, entries)),
    decreases entries, entries.len() + 1,
{
    let own = own_lines(entries, entries.len());
    lemma_own_is_plain(entries, entries.len());
    lemma_nested_is_plain(prefix, entries, entries.len());
    let top: Seq<Seq<char>> = if own.len() == 0 {
        Seq::empty()
    } else {
        lemma_header(prefix);
        let head = seq![Seq::<char>::empty(), seq!['['] + prefix + seq![']']];
        assert(plain_lines(head));
        lemma_joined(head, own);
        head + own
    };
    lemma_joined(top, nested_lines(prefix, entries, entries.len()));
}

/// No line of the metadata reads as a table of dependencies or of
/// features, where every key of the metadata is a bare key.
pub proof fn lemma_metadata_is_plain(metadata: Option<MetaValueView>)
    requires
        bare_metadata(metadata),
    ensures
        plain_lines(metadata_lines(metadata)),
{
    reveal_strlit("package.metadata");
    match metadata {
        Some(MetaValueView::Table(entries)) => {
            assert("package.metadata"@[0] == 'p');
            lemma_table_is_plain("package.metadata"@, entries);
        },
        _ => {},
    }
}

/// What stands before the dependencies does not read as a table of
/// dependencies or of features, where every key of the metadata is a bare
/// key.
pub proof fn lemma_front_is_plain(base: Seq<char>, m: ManifestView, x: ManifestExtraView)
    requires
        bare_metadata(m.custom_metadata),
    ensures
        plain_lines(front_lines(base, m, x)),
{
    let package = package_lines(m, x, build_path(base, m.targets));
    lemma_package_is_plain(m, x, build_path(base, m.targets));
    lemma_metadata_is_plain(m.custom_metadata);
    lemma_targets_are_plain(base, m);
    lemma_joined(package, metadata_lines(m.custom_metadata));
    lemma_joined(package + metadata_lines(m.custom_metadata), targets_lines(base, m));
}

} // verus!
