//! Values that keep to their line. A line of the canonical manifest is
//! broken in two only by a value that holds a line feed and is written as
//! it is: a string written literally, a text of the metadata, a key.

use vstd::prelude::*;
use crate::array::{
    array_lines,
    comma_separated,
    flat_array,
    pretty_rows,
    quoted_all,
};
use crate::comments::{block, comment_blocks, is_comment_line};
use crate::dependency::{
    comment_key,
    dependency_line,
    dependency_lines,
    dependency_value,
    feature_fields,
    reference_fields,
    resolved,
    section_header,
    section_of,
    section_table,
    source_fields,
    version_field,
    Section,
};
use crate::extra::ManifestExtraView;
use crate::features::{
    activations,
    feature_entries,
    feature_key,
    feature_line,
    feature_lines,
    features_header,
};
use crate::manifest::{
    build_path,
    build_script,
    group_lines,
    in_group,
    library,
    library_lines,
    located,
    manifest_lines,
    targets_lines,
    Group,
};
use crate::metadata::{entry_lines, metadata_lines, nested_lines, own_lines, table_lines};
use crate::model::{
    DependencyView,
    FeatureView,
    GitReferenceView,
    ManifestView,
    MetaEntryView,
    MetaValueView,
    SourceView,
    TargetView,
};
use crate::package::{
    about_lines,
    build_field,
    discovery_lines,
    field,
    flag_field,
    identity_lines,
    list_field,
    package_lines,
    packaged_key,
    packaging_lines,
    publish_field,
    readme_field,
    setting,
};
use crate::quote::{is_literal, lemma_quoted_is_single, quoted};
use crate::reading::single_lines;
use crate::sections::{lemma_ordered_members, ordered, section_lines, section_opening};
use crate::target::{target_body, target_header, target_lines};
use crate::text::free_of;
use crate::version::{caret_version, digits, digits_from, is_caret, is_digit, version_text};

verus! {

/// A value that keeps to its line when it is spelled as a string: it holds
/// no line feed, or it is not written literally.
pub open spec fn fits(v: Seq<char>) -> bool {
    !is_literal(v) || free_of(v, '\n')
}

pub open spec fn all_fit(values: Seq<Seq<char>>) -> bool {
    forall|i: int| 0 <= i < values.len() ==> fits(#[trigger] values[i])
}

pub open spec fn opt_fits(value: Option<Seq<char>>) -> bool {
    value matches Some(v) ==> fits(v)
}

proof fn lemma_joined(a: Seq<char>, b: Seq<char>)
    requires
        free_of(a, '\n'),
        free_of(b, '\n'),
    ensures
        free_of(a + b, '\n'),
{
    assert forall|i: int| 0 <= i < (a + b).len() implies (a + b)[i] != '\n' by {
        if i < a.len() {
            assert((a + b)[i] == a[i]);
        } else {
            assert((a + b)[i] == b[i - a.len()]);
        }
    }
}

proof fn lemma_stacked(a: Seq<Seq<char>>, b: Seq<Seq<char>>)
    requires
        single_lines(a),
        single_lines(b),
    ensures
        single_lines(a + b),
{
    assert forall|i: int| 0 <= i < (a + b).len() implies free_of(#[trigger] (a + b)[i], '\n') by {
        if i < a.len() {
            assert((a + b)[i] == a[i]);
        } else {
            assert((a + b)[i] == b[i - a.len()]);
        }
    }
}

proof fn lemma_quoted_all(values: Seq<Seq<char>>)
    requires
        all_fit(values),
    ensures
        single_lines(quoted_all(values)),
{
    assert forall|i: int| 0 <= i < quoted_all(values).len() implies free_of(
        #[trigger] quoted_all(values)[i],
        '\n',
    ) by {
        assert(fits(values[i]));
        lemma_quoted_is_single(values[i]);
    }
}

proof fn lemma_comma_separated(items: Seq<Seq<char>>)
    requires
        single_lines(items),
    ensures
        free_of(comma_separated(items), '\n'),
        free_of(flat_array(items), '\n'),
    decreases items.len(),
{
    if items.len() == 1 {
        assert(free_of(items[0], '\n'));
    } else if items.len() > 1 {
        let rest = items.drop_last();
        assert(single_lines(rest)) by {
            assert forall|i: int| 0 <= i < rest.len() implies free_of(#[trigger] rest[i], '\n') by {
                assert(rest[i] == items[i]);
            }
        }
        lemma_comma_separated(rest);
        assert(free_of(items[items.len() - 1], '\n'));
        lemma_joined(comma_separated(rest), seq![',', ' ']);
        lemma_joined(comma_separated(rest) + seq![',', ' '], items.last());
    }
    lemma_joined(seq!['['], comma_separated(items));
    lemma_joined(seq!['['] + comma_separated(items), seq![']']);
}

proof fn lemma_array(lead: Seq<char>, items: Seq<Seq<char>>)
    requires
        free_of(lead, '\n'),
        single_lines(items),
    ensures
        single_lines(array_lines(lead, items)),
{
    let lines = array_lines(lead, items);
    lemma_comma_separated(items);
    assert forall|i: int| 0 <= i < lines.len() implies free_of(#[trigger] lines[i], '\n') by {
        if items.len() > 1 {
            if i == 0 {
                lemma_joined(lead, seq!['[']);
            } else if i <= items.len() {
                assert(lines[i] == pretty_rows(items)[i - 1]);
                assert(free_of(items[i - 1], '\n'));
                lemma_joined(seq![' ', ' ', ' ', ' '], items[i - 1]);
                lemma_joined(seq![' ', ' ', ' ', ' '] + items[i - 1], seq![',']);
            } else {
                assert(lines[i] == seq![']']);
            }
        } else {
            lemma_joined(lead, flat_array(items));
        }
    }
}

proof fn lemma_setting(key: Seq<char>, value: Seq<char>)
    requires
        free_of(key, '\n'),
        fits(value),
    ensures
        free_of(setting(key, value), '\n'),
{
    reveal_strlit(" = ");
    lemma_quoted_is_single(value);
    lemma_joined(key, " = "@);
    lemma_joined(key + " = "@, quoted(value));
}

proof fn lemma_field(key: Seq<char>, value: Option<Seq<char>>)
    requires
        free_of(key, '\n'),
        opt_fits(value),
    ensures
        single_lines(field(key, value)),
{
    match value {
        Some(v) => {
            lemma_setting(key, v);
        },
        None => {},
    }
}

proof fn lemma_list(key: Seq<char>, values: Seq<Seq<char>>)
    requires
        free_of(key, '\n'),
        all_fit(values),
    ensures
        single_lines(list_field(key, values)),
{
    if values.len() > 0 {
        reveal_strlit(" = ");
        lemma_joined(key, " = "@);
        lemma_quoted_all(values);
        lemma_array(key + " = "@, quoted_all(values));
    }
}

proof fn lemma_flag(key: Seq<char>, on: bool)
    requires
        free_of(key, '\n'),
    ensures
        single_lines(flag_field(key, on)),
{
    if !on {
        reveal_strlit(" = false");
        lemma_joined(key, " = false"@);
    }
}

/// Whether the values of the `[package]` block keep to their lines.
pub open spec fn package_fits(m: ManifestView, build: Option<Seq<char>>) -> bool {
    &&& fits(m.name)
    &&& opt_fits(m.description)
    &&& fits(m.version)
    &&& all_fit(m.authors)
    &&& all_fit(m.keywords)
    &&& all_fit(m.categories)
    &&& opt_fits(m.license)
    &&& opt_fits(m.license_file)
    &&& opt_fits(m.readme)
    &&& opt_fits(m.homepage)
    &&& opt_fits(m.repository)
    &&& opt_fits(m.documentation)
    &&& all_fit(m.excluded)
    &&& all_fit(m.included)
    &&& opt_fits(m.links)
    &&& fits(m.edition)
    &&& m.publish matches Some(registries) ==> all_fit(registries)
    &&& opt_fits(m.default_run)
    &&& opt_fits(build)
}

proof fn lemma_identity(m: ManifestView)
    requires
        fits(m.name),
        opt_fits(m.description),
        fits(m.version),
        all_fit(m.authors),
        all_fit(m.keywords),
        all_fit(m.categories),
    ensures
        single_lines(identity_lines(m)),
{
    reveal_strlit("[package]");
    reveal_strlit("name");
    reveal_strlit("description");
    reveal_strlit("version");
    reveal_strlit("authors");
    reveal_strlit("keywords");
    reveal_strlit("categories");
    lemma_setting("name"@, m.name);
    let a = seq!["[package]"@, setting("name"@, m.name)];
    assert(single_lines(a));
    let b = field("description"@, m.description);
    lemma_field("description"@, m.description);
    lemma_setting("version"@, m.version);
    let c = seq![setting("version"@, m.version)];
    let d = list_field("authors"@, m.authors);
    lemma_list("authors"@, m.authors);
    let e = list_field("keywords"@, m.keywords);
    lemma_list("keywords"@, m.keywords);
    let f = list_field("categories"@, m.categories);
    lemma_list("categories"@, m.categories);
    lemma_stacked(a, b);
    lemma_stacked(a + b, c);
    lemma_stacked(a + b + c, d);
    lemma_stacked(a + b + c + d, e);
    lemma_stacked(a + b + c + d + e, f);
}

proof fn lemma_about(m: ManifestView)
    requires
        opt_fits(m.license),
        opt_fits(m.license_file),
        opt_fits(m.readme),
        opt_fits(m.homepage),
        opt_fits(m.repository),
        opt_fits(m.documentation),
    ensures
        single_lines(about_lines(m)),
{
    reveal_strlit("license");
    reveal_strlit("license-file");
    reveal_strlit("readme");
    reveal_strlit("homepage");
    reveal_strlit("repository");
    reveal_strlit("documentation");
    let a = field("license"@, m.license);
    lemma_field("license"@, m.license);
    let b = field("license-file"@, m.license_file);
    lemma_field("license-file"@, m.license_file);
    let c = readme_field(m.readme);
    match m.readme {
        Some(r) => {
            lemma_setting("readme"@, r);
        },
        None => {},
    }
    assert(single_lines(c));
    let d = field("homepage"@, m.homepage);
    lemma_field("homepage"@, m.homepage);
    let e = field("repository"@, m.repository);
    lemma_field("repository"@, m.repository);
    let f = field("documentation"@, m.documentation);
    lemma_field("documentation"@, m.documentation);
    lemma_stacked(a, b);
    lemma_stacked(a + b, c);
    lemma_stacked(a + b + c, d);
    lemma_stacked(a + b + c + d, e);
    lemma_stacked(a + b + c + d + e, f);
}

proof fn lemma_packaging(m: ManifestView)
    requires
        all_fit(m.excluded),
        all_fit(m.included),
        opt_fits(m.links),
        fits(m.edition),
        m.publish matches Some(registries) ==> all_fit(registries),
        opt_fits(m.default_run),
    ensures
        single_lines(packaging_lines(m)),
{
    reveal_strlit("exclude");
    reveal_strlit("links");
    reveal_strlit("edition");
    reveal_strlit("publish = false");
    reveal_strlit("publish = ");
    reveal_strlit("default-run");
    let a = list_field("exclude"@, m.excluded);
    lemma_list("exclude"@, m.excluded);
    let b = list_field(packaged_key(), m.included);
    lemma_list(packaged_key(), m.included);
    let c = field("links"@, m.links);
    lemma_field("links"@, m.links);
    lemma_setting("edition"@, m.edition);
    let d = seq![setting("edition"@, m.edition)];
    let e = publish_field(m.publish);
    match m.publish {
        Some(registries) => {
            if registries.len() > 0 {
                lemma_quoted_all(registries);
                lemma_array("publish = "@, quoted_all(registries));
            }
        },
        None => {},
    }
    assert(single_lines(e));
    let f = field("default-run"@, m.default_run);
    lemma_field("default-run"@, m.default_run);
    lemma_stacked(a, b);
    lemma_stacked(a + b, c);
    lemma_stacked(a + b + c, d);
    lemma_stacked(a + b + c + d, e);
    lemma_stacked(a + b + c + d + e, f);
}

proof fn lemma_discovery(x: ManifestExtraView, build: Option<Seq<char>>)
    requires
        opt_fits(build),
    ensures
        single_lines(discovery_lines(x, build)),
{
    reveal_strlit("autobenches");
    reveal_strlit("autobins");
    reveal_strlit("autoexamples");
    reveal_strlit("autotests");
    reveal_strlit("build");
    let a = flag_field("autobenches"@, x.autobenches);
    lemma_flag("autobenches"@, x.autobenches);
    let b = flag_field("autobins"@, x.autobins);
    lemma_flag("autobins"@, x.autobins);
    let c = flag_field("autoexamples"@, x.autoexamples);
    lemma_flag("autoexamples"@, x.autoexamples);
    let d = flag_field("autotests"@, x.autotests);
    lemma_flag("autotests"@, x.autotests);
    let e = build_field(build);
    match build {
        Some(rel) => {
            lemma_setting("build"@, rel);
        },
        None => {},
    }
    assert(single_lines(e));
    lemma_stacked(a, b);
    lemma_stacked(a + b, c);
    lemma_stacked(a + b + c, d);
    lemma_stacked(a + b + c + d, e);
}

/// The lines of the `[package]` block are lines, where its values keep to
/// theirs.
pub proof fn lemma_package_keeps_lines(m: ManifestView, x: ManifestExtraView, build: Option<Seq<char>>)
    requires
        package_fits(m, build),
    ensures
        single_lines(package_lines(m, x, build)),
{
    lemma_identity(m);
    lemma_about(m);
    lemma_packaging(m);
    lemma_discovery(x, build);
    lemma_stacked(identity_lines(m), about_lines(m));
    lemma_stacked(identity_lines(m) + about_lines(m), packaging_lines(m));
    lemma_stacked(
        identity_lines(m) + about_lines(m) + packaging_lines(m),
        discovery_lines(x, build),
    );
}

proof fn lemma_digits(s: Seq<char>, i: int)
    requires
        0 <= i <= s.len(),
    ensures
        i + digits_from(s, i) <= s.len(),
        free_of(digits(s, i), '\n'),
    decreases s.len() - i,
{
    if i < s.len() && is_digit(s[i]) {
        lemma_digits(s, i + 1);
        let here = digits(s, i);
        let rest = digits(s, i + 1);
        assert forall|j: int| 0 <= j < here.len() implies here[j] != '\n' by {
            if j > 0 {
                assert(here[j] == rest[j - 1]);
            }
        }
    }
}

/// A version requirement is spelled on one line, unless it is written
/// literally and holds a line feed.
pub proof fn lemma_version_is_single(req: Seq<char>)
    requires
        is_caret(req) || fits(req),
    ensures
        free_of(version_text(req), '\n'),
{
    if is_caret(req) {
        lemma_digits(req, 1);
        let major = digits(req, 1);
        let b = 1 + major.len() as int;
        let minor = if crate::version::has_component(req, b) {
            lemma_digits(req, b + 1);
            digits(req, b + 1)
        } else {
            seq!['0']
        };
        let c = crate::version::component_end(req, b);
        let patch = if crate::version::has_component(req, b) && crate::version::has_component(
            req,
            c,
        ) {
            lemma_digits(req, c + 1);
            digits(req, c + 1)
        } else {
            seq!['0']
        };
        lemma_joined(major, seq!['.']);
        lemma_joined(major + seq!['.'], minor);
        lemma_joined(major + seq!['.'] + minor, seq!['.']);
        lemma_joined(major + seq!['.'] + minor + seq!['.'], patch);
        assert(caret_version(req) == major + seq!['.'] + minor + seq!['.'] + patch);
        lemma_joined(seq!['"'], caret_version(req));
        lemma_joined(seq!['"'] + caret_version(req), seq!['"']);
    } else {
        lemma_quoted_is_single(req);
    }
}

/// Whether the keys and texts among the first `n` entries, and in the
/// tables below them, hold no line feed.
pub open spec fn metadata_fits(entries: Seq<MetaEntryView>, n: nat) -> bool
    decreases entries, n,
{
    if n == 0 || n > entries.len() {
        true
    } else {
        &&& metadata_fits(entries, (n - 1) as nat)
        &&& free_of(entries[n - 1].key, '\n')
        &&& match entries[n - 1].value {
            MetaValueView::Table(sub) => metadata_fits(sub, sub.len()),
            MetaValueView::Array(items) => single_lines(items),
            MetaValueView::Scalar(text) => free_of(text, '\n'),
        }
    }
}

proof fn lemma_entry(e: MetaEntryView)
    requires
        free_of(e.key, '\n'),
        e.value matches MetaValueView::Array(items) ==> single_lines(items),
        e.value matches MetaValueView::Scalar(text) ==> free_of(text, '\n'),
    ensures
        single_lines(entry_lines(e)),
{
    reveal_strlit(" = ");
    lemma_joined(e.key, " = "@);
    match e.value {
        MetaValueView::Table(_) => {},
        MetaValueView::Array(items) => {
            lemma_array(e.key + " = "@, items);
            lemma_comma_separated(items);
            lemma_joined(e.key + " = "@, flat_array(items));
        },
        MetaValueView::Scalar(text) => {
            lemma_joined(e.key + " = "@, text);
        },
    }
}

proof fn lemma_own(entries: Seq<MetaEntryView>, n: nat)
    requires
        n <= entries.len(),
        metadata_fits(entries, n),
    ensures
        single_lines(own_lines(entries, n)),
    decreases n,
{
    if n > 0 {
        lemma_own(entries, (n - 1) as nat);
        lemma_entry(entries[n - 1]);
        lemma_stacked(own_lines(entries, (n - 1) as nat), entry_lines(entries[n - 1]));
    }
}

proof fn lemma_nested(prefix: Seq<char>, entries: Seq<MetaEntryView>, n: nat)
    requires
        n <= entries.len(),
        metadata_fits(entries, n),
        free_of(prefix, '\n'),
    ensures
        single_lines(nested_lines(prefix, entries, n)),
    decreases entries, n,
{
    if n > 0 {
        lemma_nested(prefix, entries, (n - 1) as nat);
        let added: Seq<Seq<char>> = match entries[n - 1].value {
            MetaValueView::Table(sub) => {
                let below = prefix + seq!['.'] + entries[n - 1].key;
                lemma_joined(prefix, seq!['.']);
                lemma_joined(prefix + seq!['.'], entries[n - 1].key);
                lemma_table(below, sub);
                table_lines(below, sub)
            },
            _ => Seq::empty(),
        };
        lemma_stacked(nested_lines(prefix, entries, (n - 1) as nat), added);
    }
}

proof fn lemma_table(prefix: Seq<char>, entries: Seq<MetaEntryView>)
    requires
        metadata_fits(entries, entries.len()),
        free_of(prefix, '\n'),
    ensures
        single_lines(table_lines(prefix, entries)),
    decreases entries, entries.len() + 1,
{
    let own = own_lines(entries, entries.len());
    lemma_own(entries, entries.len());
    lemma_nested(prefix, entries, entries.len());
    let top: Seq<Seq<char>> = if own.len() == 0 {
        Seq::empty()
    } else {
        lemma_joined(seq!['['], prefix);
        lemma_joined(seq!['['] + prefix, seq![']']);
        let head = seq![Seq::<char>::empty(), seq!['['] + prefix + seq![']']];
        assert(single_lines(head));
        lemma_stacked(head, own);
        head + own
    };
    lemma_stacked(top, nested_lines(prefix, entries, entries.len()));
}

/// Whether the keys and texts of the metadata hold no line feed.
pub open spec fn metadata_value_fits(metadata: Option<MetaValueView>) -> bool {
    match metadata {
        Some(MetaValueView::Table(entries)) => metadata_fits(entries, entries.len()),
        _ => true,
    }
}

/// The lines of the metadata are lines, where its keys and texts hold no
/// line feed.
pub proof fn lemma_metadata_keeps_lines(metadata: Option<MetaValueView>)
    requires
        metadata_value_fits(metadata),
    ensures
        single_lines(metadata_lines(metadata)),
{
    reveal_strlit("package.metadata");
    match metadata {
        Some(MetaValueView::Table(entries)) => {
            lemma_table("package.metadata"@, entries);
        },
        _ => {},
    }
}

/// Whether the name of a target and its path from `base` keep to their
/// lines.
pub open spec fn target_fits(base: Seq<char>, target: TargetView) -> bool {
    fits(target.name) && fits(located(base, target))
}

pub open spec fn targets_fit(base: Seq<char>, targets: Seq<TargetView>) -> bool {
    forall|i: int| 0 <= i < targets.len() ==> target_fits(base, #[trigger] targets[i])
}

proof fn lemma_target(rel: Seq<char>, package_name: Seq<char>, target: TargetView)
    requires
        fits(target.name),
        fits(rel),
    ensures
        single_lines(target_lines(rel, package_name, target)),
{
    reveal_strlit("[lib]");
    reveal_strlit("[[bin]]");
    reveal_strlit("[[test]]");
    reveal_strlit("[[bench]]");
    reveal_strlit("[[example]]");
    reveal_strlit("name = ");
    reveal_strlit("proc-macro = true");
    reveal_strlit("path = ");
    reveal_strlit("harness = false");
    reveal_strlit("doc = false");
    let body = target_body(rel, target);
    lemma_quoted_is_single(rel);
    lemma_quoted_is_single(target.name);
    lemma_joined("path = "@, quoted(rel));
    lemma_joined("name = "@, quoted(target.name));
    let a: Seq<Seq<char>> = if crate::target::is_proc_macro(target.kind) {
        seq!["proc-macro = true"@]
    } else {
        Seq::empty()
    };
    let b: Seq<Seq<char>> = if crate::target::standard_path(target.kind, target.name, rel) {
        Seq::empty()
    } else {
        seq!["path = "@ + quoted(rel)]
    };
    let c: Seq<Seq<char>> = if target.harness {
        Seq::empty()
    } else {
        seq!["harness = false"@]
    };
    let d: Seq<Seq<char>> = if !target.documented && target.kind is Lib {
        seq!["doc = false"@]
    } else {
        Seq::empty()
    };
    lemma_stacked(a, b);
    lemma_stacked(a + b, c);
    lemma_stacked(a + b + c, d);
    assert(body == a + b + c + d);
    if !(target.kind is CustomBuild) && body.len() > 0 {
        let head = seq![Seq::<char>::empty(), target_header(target.kind)];
        assert(single_lines(head));
        let named: Seq<Seq<char>> = if crate::target::inferred(rel, package_name, target).name {
            Seq::empty()
        } else {
            seq!["name = "@ + quoted(target.name)]
        };
        lemma_stacked(head, named);
        lemma_stacked(head + named, body);
    }
}

proof fn lemma_group(
    base: Seq<char>,
    package_name: Seq<char>,
    targets: Seq<TargetView>,
    group: Group,
    n: int,
)
    requires
        n <= targets.len(),
        targets_fit(base, targets),
    ensures
        single_lines(group_lines(base, package_name, targets, group, n)),
    decreases n,
{
    if n > 0 {
        lemma_group(base, package_name, targets, group, n - 1);
        let t = targets[n - 1];
        assert(target_fits(base, t));
        lemma_target(located(base, t), package_name, t);
        let added: Seq<Seq<char>> = if in_group(t.kind, group) {
            target_lines(located(base, t), package_name, t)
        } else {
            Seq::empty()
        };
        lemma_stacked(group_lines(base, package_name, targets, group, n - 1), added);
    }
}

proof fn lemma_chosen_fit(base: Seq<char>, targets: Seq<TargetView>)
    requires
        targets_fit(base, targets),
    ensures
        library(targets) matches Some(t) ==> target_fits(base, t),
        build_script(targets) matches Some(t) ==> target_fits(base, t),
    decreases targets.len(),
{
    if targets.len() > 0 {
        let rest = targets.drop_last();
        assert(targets_fit(base, rest)) by {
            assert forall|i: int| 0 <= i < rest.len() implies target_fits(base, #[trigger] rest[i]) by {
                assert(rest[i] == targets[i]);
            }
        }
        lemma_chosen_fit(base, rest);
        assert(target_fits(base, targets[targets.len() - 1]));
    }
}

/// The lines of the blocks of the targets are lines, where the names and
/// paths of the targets keep to theirs.
pub proof fn lemma_targets_keep_lines(base: Seq<char>, m: ManifestView)
    requires
        targets_fit(base, m.targets),
    ensures
        single_lines(targets_lines(base, m)),
{
    let n = m.targets.len() as int;
    let lib = library_lines(base, m.name, m.targets);
    lemma_chosen_fit(base, m.targets);
    match library(m.targets) {
        Some(t) => {
            lemma_target(located(base, t), m.name, t);
        },
        None => {},
    }
    let a = group_lines(base, m.name, m.targets, Group::Bin, n);
    let b = group_lines(base, m.name, m.targets, Group::Example, n);
    let c = group_lines(base, m.name, m.targets, Group::Test, n);
    let d = group_lines(base, m.name, m.targets, Group::Bench, n);
    lemma_group(base, m.name, m.targets, Group::Bin, n);
    lemma_group(base, m.name, m.targets, Group::Example, n);
    lemma_group(base, m.name, m.targets, Group::Test, n);
    lemma_group(base, m.name, m.targets, Group::Bench, n);
    lemma_stacked(lib, a);
    lemma_stacked(lib + a, b);
    lemma_stacked(lib + a + b, c);
    lemma_stacked(lib + a + b + c, d);
}

/// Whether what a git dependency is pinned to keeps to its line.
pub open spec fn reference_fits(reference: GitReferenceView) -> bool {
    match reference {
        GitReferenceView::Tag(tag) => fits(tag),
        GitReferenceView::Branch(branch) => fits(branch),
        GitReferenceView::Rev(rev) => fits(rev),
        GitReferenceView::DefaultBranch => true,
    }
}

/// Whether the values of a dependency of a package rooted at `base` keep to
/// their lines: its key holds no line feed, its version requirement is a
/// caret requirement or fits, and every other value fits.
pub open spec fn dependency_fits(base: Seq<char>, d: DependencyView) -> bool {
    &&& free_of(d.name, '\n')
    &&& fits(d.package)
    &&& fits(resolved(base, d))
    &&& d.source matches SourceView::Git { url, reference } ==> fits(url) && reference_fits(
        reference,
    )
    &&& is_caret(d.version_req) || fits(d.version_req)
    &&& all_fit(d.features)
    &&& d.platform matches Some(p) ==> fits(p.text)
}

pub open spec fn dependencies_fit(base: Seq<char>, deps: Seq<DependencyView>) -> bool {
    forall|i: int| 0 <= i < deps.len() ==> dependency_fits(base, #[trigger] deps[i])
}

proof fn lemma_reference(reference: GitReferenceView)
    requires
        reference_fits(reference),
    ensures
        single_lines(reference_fields(reference)),
{
    reveal_strlit("tag = ");
    reveal_strlit("branch = ");
    reveal_strlit("rev = ");
    match reference {
        GitReferenceView::Tag(tag) => {
            lemma_quoted_is_single(tag);
            lemma_joined("tag = "@, quoted(tag));
        },
        GitReferenceView::Branch(branch) => {
            lemma_quoted_is_single(branch);
            lemma_joined("branch = "@, quoted(branch));
        },
        GitReferenceView::Rev(rev) => {
            lemma_quoted_is_single(rev);
            lemma_joined("rev = "@, quoted(rev));
        },
        GitReferenceView::DefaultBranch => {},
    }
}

proof fn lemma_dependency_value(base: Seq<char>, d: DependencyView)
    requires
        dependency_fits(base, d),
    ensures
        free_of(dependency_value(d, resolved(base, d)), '\n'),
{
    reveal_strlit("package = ");
    reveal_strlit("path = ");
    reveal_strlit("git = ");
    reveal_strlit("default-features = false");
    reveal_strlit("features = ");
    reveal_strlit("optional = true");
    reveal_strlit("version = ");
    reveal_strlit("{ ");
    reveal_strlit(" }");
    let rel = resolved(base, d);
    lemma_version_is_single(d.version_req);
    let renamed: Seq<Seq<char>> = if d.package == d.name {
        Seq::empty()
    } else {
        lemma_quoted_is_single(d.package);
        lemma_joined("package = "@, quoted(d.package));
        seq!["package = "@ + quoted(d.package)]
    };
    let from: Seq<Seq<char>> = match d.source {
        SourceView::Registry => Seq::empty(),
        SourceView::Path(_) => {
            lemma_quoted_is_single(rel);
            lemma_joined("path = "@, quoted(rel));
            seq!["path = "@ + quoted(rel)]
        },
        SourceView::Git { url, reference } => {
            lemma_quoted_is_single(url);
            lemma_joined("git = "@, quoted(url));
            lemma_reference(reference);
            lemma_stacked(seq!["git = "@ + quoted(url)], reference_fields(reference));
            seq!["git = "@ + quoted(url)] + reference_fields(reference)
        },
    };
    lemma_stacked(renamed, from);
    assert(source_fields(d, rel) == renamed + from);
    let version = version_field(d);
    if d.version_req != "*"@ {
        lemma_joined("version = "@, version_text(d.version_req));
    }
    assert(single_lines(version));
    let a: Seq<Seq<char>> = if d.default_features {
        Seq::empty()
    } else {
        seq!["default-features = false"@]
    };
    let b: Seq<Seq<char>> = if d.features.len() == 0 {
        Seq::empty()
    } else {
        lemma_quoted_all(d.features);
        lemma_comma_separated(quoted_all(d.features));
        lemma_joined("features = "@, flat_array(quoted_all(d.features)));
        seq!["features = "@ + flat_array(quoted_all(d.features))]
    };
    let c: Seq<Seq<char>> = if d.optional {
        seq!["optional = true"@]
    } else {
        Seq::empty()
    };
    lemma_stacked(a, b);
    lemma_stacked(a + b, c);
    assert(feature_fields(d) == a + b + c);
    let all = source_fields(d, rel) + version + feature_fields(d);
    lemma_stacked(source_fields(d, rel), version);
    lemma_stacked(source_fields(d, rel) + version, feature_fields(d));
    lemma_comma_separated(all);
    lemma_joined("{ "@, comma_separated(all));
    lemma_joined("{ "@ + comma_separated(all), " }"@);
}

proof fn lemma_block(c: Map<Seq<char>, Seq<Seq<char>>>, key: Seq<char>)
    requires
        comment_blocks(c),
    ensures
        single_lines(block(c, key)),
{
    assert forall|i: int| 0 <= i < block(c, key).len() implies free_of(
        #[trigger] block(c, key)[i],
        '\n',
    ) by {
        assert(is_comment_line(c[key][i]));
    }
}

proof fn lemma_dependency(base: Seq<char>, d: DependencyView, c: Map<Seq<char>, Seq<Seq<char>>>)
    requires
        comment_blocks(c),
        dependency_fits(base, d),
    ensures
        single_lines(dependency_lines(d, resolved(base, d), c)),
        free_of(section_header(section_of(d)), '\n'),
{
    reveal_strlit(" = ");
    reveal_strlit("dependencies");
    reveal_strlit("dev-dependencies");
    reveal_strlit("build-dependencies");
    reveal_strlit("target.");
    reveal_strlit(".dependencies");
    let rel = resolved(base, d);
    lemma_dependency_value(base, d);
    lemma_joined(d.name, " = "@);
    lemma_joined(d.name + " = "@, dependency_value(d, rel));
    lemma_block(c, comment_key(d));
    lemma_stacked(block(c, comment_key(d)), seq![dependency_line(d, rel)]);
    assert(dependency_lines(d, rel, c) =~= block(c, comment_key(d)) + seq![
        dependency_line(d, rel),
    ]);
    let table = section_table(section_of(d));
    match section_of(d) {
        Section::Normal(Some(p)) => {
            lemma_quoted_is_single(p.text);
            lemma_joined("target."@, quoted(p.text));
            lemma_joined("target."@ + quoted(p.text), ".dependencies"@);
        },
        _ => {},
    }
    lemma_joined(seq!['['], table);
    lemma_joined(seq!['['] + table, seq![']']);
}

/// The lines of the sections of dependencies are lines, where the values of
/// the dependencies keep to theirs.
pub proof fn lemma_sections_keep_lines(
    base: Seq<char>,
    sorted: Seq<DependencyView>,
    c: Map<Seq<char>, Seq<Seq<char>>>,
    n: int,
)
    requires
        comment_blocks(c),
        n <= sorted.len(),
        dependencies_fit(base, sorted),
    ensures
        single_lines(section_lines(base, sorted, c, n)),
    decreases n,
{
    if n > 0 {
        lemma_sections_keep_lines(base, sorted, c, n - 1);
        let d = sorted[n - 1];
        assert(dependency_fits(base, d));
        lemma_dependency(base, d, c);
        let opening = section_opening(sorted, n - 1);
        assert(single_lines(opening));
        lemma_stacked(section_lines(base, sorted, c, n - 1), opening);
        lemma_stacked(
            section_lines(base, sorted, c, n - 1) + opening,
            dependency_lines(d, resolved(base, d), c),
        );
    }
}

/// Whether the key of a feature and what it switches on keep to their
/// line.
pub open spec fn feature_fits(f: FeatureView) -> bool {
    free_of(f.name, '\n') && all_fit(activations(f.specs))
}

pub open spec fn features_fit(features: Seq<FeatureView>) -> bool {
    forall|i: int| 0 <= i < features.len() ==> feature_fits(#[trigger] features[i])
}

proof fn lemma_feature_entries(
    features: Seq<FeatureView>,
    c: Map<Seq<char>, Seq<Seq<char>>>,
    n: int,
)
    requires
        comment_blocks(c),
        n <= features.len(),
        features_fit(features),
    ensures
        single_lines(feature_entries(features, c, n)),
    decreases n,
{
    if n > 0 {
        reveal_strlit(" = ");
        lemma_feature_entries(features, c, n - 1);
        let f = features[n - 1];
        assert(feature_fits(f));
        lemma_quoted_all(activations(f.specs));
        lemma_comma_separated(quoted_all(activations(f.specs)));
        lemma_joined(f.name, " = "@);
        lemma_joined(f.name + " = "@, flat_array(quoted_all(activations(f.specs))));
        lemma_block(c, feature_key(f));
        lemma_stacked(block(c, feature_key(f)), seq![feature_line(f)]);
        assert(block(c, feature_key(f)).push(feature_line(f)) =~= block(c, feature_key(f))
            + seq![feature_line(f)]);
        lemma_stacked(
            feature_entries(features, c, n - 1),
            block(c, feature_key(f)).push(feature_line(f)),
        );
    }
}

/// The lines of the block of features are lines, where the features keep
/// to theirs.
pub proof fn lemma_features_keep_lines(features: Seq<FeatureView>, c: Map<Seq<char>, Seq<Seq<char>>>)
    requires
        comment_blocks(c),
        features_fit(features),
    ensures
        single_lines(feature_lines(features, c)),
{
    if features.len() > 0 {
        reveal_strlit("features");
        lemma_feature_entries(features, c, features.len() as int);
        let head = seq![Seq::<char>::empty(), features_header()];
        assert(single_lines(head));
        lemma_stacked(head, feature_entries(features, c, features.len() as int));
    }
}

/// Whether every value of the manifest of a package rooted at `base` keeps
/// to its line: no string that is written literally, and no key or text that
/// is written as it is, holds a line feed.
pub open spec fn values_fit(base: Seq<char>, m: ManifestView) -> bool {
    &&& package_fits(m, build_path(base, m.targets))
    &&& metadata_value_fits(m.custom_metadata)
    &&& targets_fit(base, m.targets)
    &&& dependencies_fit(base, m.dependencies)
    &&& features_fit(m.features)
}

/// Every line of the canonical manifest is a line, where the values of the
/// manifest keep to theirs and the comments are comment lines.
pub proof fn lemma_manifest_keeps_lines(base: Seq<char>, m: ManifestView, x: ManifestExtraView)
    requires
        comment_blocks(x.comments),
        values_fit(base, m),
    ensures
        single_lines(manifest_lines(base, m, x)),
{
    let sorted = ordered(m.dependencies);
    lemma_ordered_members(m.dependencies);
    assert(dependencies_fit(base, sorted)) by {
        assert forall|i: int| 0 <= i < sorted.len() implies dependency_fits(
            base,
            #[trigger] sorted[i],
        ) by {
            assert(sorted.contains(sorted[i]));
            assert(m.dependencies.contains(sorted[i]));
            let j = choose|j: int| 0 <= j < m.dependencies.len() && m.dependencies[j] == sorted[i];
            assert(dependency_fits(base, m.dependencies[j]));
        }
    }
    let a = package_lines(m, x, build_path(base, m.targets));
    let b = metadata_lines(m.custom_metadata);
    let c = targets_lines(base, m);
    let d = section_lines(base, sorted, x.comments, sorted.len() as int);
    let e = feature_lines(m.features, x.comments);
    lemma_package_keeps_lines(m, x, build_path(base, m.targets));
    lemma_metadata_keeps_lines(m.custom_metadata);
    lemma_targets_keep_lines(base, m);
    lemma_sections_keep_lines(base, sorted, x.comments, sorted.len() as int);
    lemma_features_keep_lines(m.features, x.comments);
    lemma_stacked(a, b);
    lemma_stacked(a + b, c);
    lemma_stacked(a + b + c, d);
    lemma_stacked(a + b + c + d, e);
}

} // verus!
