//! The scan and the rendering, held against each other: what the rendering
//! writes above a key, the scan finds again under that key, so a manifest
//! rendered with the comments of its own canonical text is that text.

use vstd::prelude::*;
use crate::array::flat_array;
use crate::comments::{
    block,
    comment_blocks,
    is_comment_line,
    is_space,
    scan,
    scan_from,
    scan_start,
    split_lines,
    ScanState,
};
use crate::dependency::{
    comment_key,
    dependency_line,
    dependency_lines,
    dependency_value,
    resolved,
    section_header,
    section_of,
    section_table,
    Section,
};
use crate::extra::ManifestExtraView;
use crate::features::{
    feature_entries,
    feature_key,
    feature_line,
    feature_lines,
    features_header,
    features_table,
};
use crate::front::{
    bare_metadata,
    front_lines,
    is_outside_key,
    lemma_front_is_plain,
    lemma_scan_stays_outside,
    stands_outside,
};
use crate::lines::{lemma_manifest_keeps_lines, values_fit};
use crate::manifest::{build_path, manifest_lines, rendered_manifest};
use crate::model::{DependencyView, FeatureView, ManifestView};
use crate::package::package_lines;
use crate::sections::{lemma_ordered_members, ordered, section_lines, section_opening};
use crate::reading::{
    begins_with_key,
    lemma_comment_block_is_kept,
    read_as_comments,
    trimmed,
    comment_lines,
    is_bare_key,
    leaves,
    lemma_scan_concat,
    lemma_scan_entry,
    lemma_scan_one,
    lemma_split_unlines,
    lemma_step_blank,
    lemma_step_header,
};
use crate::text::unlines;

verus! {

/// A comment block that stands right above the line of a dependency, in
/// the table of the section that the dependency is written in, is written
/// again right above that dependency, line for line.
///
/// The lines of the source `text` are `before`, the lines of `above`, each
/// of which reads as a comment, a line that begins with the dependency's
/// key, and `after`. What stands before the block leaves nothing pending,
/// which is so where its last line that is not blank is a header or begins
/// with a key; and nothing after the line sets the same key of the same
/// table again.
pub proof fn lemma_dependency_comment_returns(
    text: Seq<char>,
    before: Seq<Seq<char>>,
    above: Seq<Seq<char>>,
    key_line: Seq<char>,
    after: Seq<Seq<char>>,
    d: DependencyView,
    rel: Seq<char>,
)
    requires
        split_lines(text) == before + above.push(key_line) + after,
        scan_from(scan_start(), before).pending.len() == 0,
        scan_from(scan_start(), before).table == section_table(section_of(d)),
        read_as_comments(above),
        begins_with_key(key_line, d.name),
        leaves(scan_from(scan_start(), before + above.push(key_line)), after, comment_key(d)),
    ensures
        dependency_lines(d, rel, scan(text)) == trimmed(above).push(dependency_line(d, rel)),
{
    lemma_comment_block_is_kept(text, before, above, key_line, d.name, after);
    assert(scan_from(scan_start(), before).pending + trimmed(above) =~= trimmed(above));
}

/// A comment block that stands right above the line of a feature, in the
/// table of features, is written again right above that feature, line for
/// line, under the same conditions as for a dependency.
pub proof fn lemma_feature_comment_returns(
    text: Seq<char>,
    before: Seq<Seq<char>>,
    above: Seq<Seq<char>>,
    key_line: Seq<char>,
    after: Seq<Seq<char>>,
    features: Seq<FeatureView>,
    n: int,
)
    requires
        0 < n <= features.len(),
        split_lines(text) == before + above.push(key_line) + after,
        scan_from(scan_start(), before).pending.len() == 0,
        scan_from(scan_start(), before).table == features_table(),
        read_as_comments(above),
        begins_with_key(key_line, features[n - 1].name),
        leaves(
            scan_from(scan_start(), before + above.push(key_line)),
            after,
            feature_key(features[n - 1]),
        ),
    ensures
        feature_entries(features, scan(text), n) == feature_entries(features, scan(text), n - 1)
            + trimmed(above).push(feature_line(features[n - 1])),
{
    lemma_comment_block_is_kept(text, before, above, key_line, features[n - 1].name, after);
    assert(scan_from(scan_start(), before).pending + trimmed(above) =~= trimmed(above));
}

/// What the scan keeps after the first `n` entries of `sorted`, written
/// with the comments `c`, when it kept `start` before.
pub open spec fn kept_after(
    start: Map<Seq<char>, Seq<Seq<char>>>,
    sorted: Seq<DependencyView>,
    c: Map<Seq<char>, Seq<Seq<char>>>,
    n: int,
) -> Map<Seq<char>, Seq<Seq<char>>>
    decreases n,
{
    if n <= 0 {
        start
    } else {
        kept_after(start, sorted, c, n - 1).insert(
            comment_key(sorted[n - 1]),
            block(c, comment_key(sorted[n - 1])),
        )
    }
}

/// What the scan keeps after the first `n` features, written with the
/// comments `c`, when it kept `start` before.
pub open spec fn kept_features(
    start: Map<Seq<char>, Seq<Seq<char>>>,
    features: Seq<FeatureView>,
    c: Map<Seq<char>, Seq<Seq<char>>>,
    n: int,
) -> Map<Seq<char>, Seq<Seq<char>>>
    decreases n,
{
    if n <= 0 {
        start
    } else {
        kept_features(start, features, c, n - 1).insert(
            feature_key(features[n - 1]),
            block(c, feature_key(features[n - 1])),
        )
    }
}

proof fn lemma_block_is_comment_lines(c: Map<Seq<char>, Seq<Seq<char>>>, key: Seq<char>)
    requires
        comment_blocks(c),
    ensures
        comment_lines(block(c, key)),
{
    assert forall|i: int| 0 <= i < block(c, key).len() implies is_comment_line(
        #[trigger] block(c, key)[i],
    ) by {
        assert(is_comment_line(c[key][i]));
    }
}

proof fn lemma_value_ends(d: DependencyView, rel: Seq<char>)
    ensures
        dependency_value(d, rel).len() > 0,
        !is_space(dependency_value(d, rel).last()),
{
    reveal_strlit(" }");
    let v = dependency_value(d, rel);
    assert(v.last() == '"' || v.last() == '\'' || v.last() == '}');
}

/// The scan of the sections of dependencies keeps, under the key of each
/// entry in the table of its section, the comment that was written above
/// it.
pub proof fn lemma_scan_sections(
    st: ScanState,
    base: Seq<char>,
    sorted: Seq<DependencyView>,
    c: Map<Seq<char>, Seq<Seq<char>>>,
    n: int,
)
    requires
        comment_blocks(c),
        0 <= n <= sorted.len(),
        forall|i: int| 0 <= i < n ==> is_bare_key(#[trigger] sorted[i].name),
    ensures
        ({
            let end = scan_from(st, section_lines(base, sorted, c, n));
            &&& end.comments == kept_after(st.comments, sorted, c, n)
            &&& n > 0 ==> end.pending.len() == 0 && end.table == section_table(
                section_of(sorted[n - 1]),
            )
            &&& n == 0 ==> end == st
        }),
    decreases n,
{
    if n > 0 {
        lemma_scan_sections(st, base, sorted, c, n - 1);
        let d = sorted[n - 1];
        let before = section_lines(base, sorted, c, n - 1);
        let opening = section_opening(sorted, n - 1);
        let entry = dependency_lines(d, resolved(base, d), c);
        let s0 = scan_from(st, before);
        lemma_scan_concat(st, before + opening, entry);
        lemma_scan_concat(st, before, opening);
        let s1 = scan_from(s0, opening);
        let table = section_table(section_of(d));
        assert(s1.comments == s0.comments && s1.pending.len() == 0 && s1.table == table) by {
            if n - 1 == 0 || section_of(sorted[n - 2]) != section_of(d) {
                let header = section_header(section_of(d));
                assert(opening =~= seq![Seq::<char>::empty()] + seq![header]);
                lemma_scan_concat(s0, seq![Seq::<char>::empty()], seq![header]);
                lemma_scan_one(s0, Seq::<char>::empty());
                lemma_step_blank(s0);
                lemma_scan_one(s0, header);
                lemma_step_header(s0, header);
                assert(header.subrange(1, header.len() - 1) =~= table);
            } else {
                assert(opening =~= Seq::<Seq<char>>::empty());
            }
        }
        let above = block(c, comment_key(d));
        lemma_block_is_comment_lines(c, comment_key(d));
        lemma_value_ends(d, resolved(base, d));
        lemma_scan_entry(s1, above, d.name, dependency_value(d, resolved(base, d)));
        assert(entry == above.push(dependency_line(d, resolved(base, d))));
    } else {
        assert(section_lines(base, sorted, c, n) =~= Seq::<Seq<char>>::empty());
    }
}

/// The scan of the features keeps, under the key of each, the comment that
/// was written above it.
pub proof fn lemma_scan_feature_entries(
    st: ScanState,
    features: Seq<FeatureView>,
    c: Map<Seq<char>, Seq<Seq<char>>>,
    n: int,
)
    requires
        comment_blocks(c),
        0 <= n <= features.len(),
        forall|i: int| 0 <= i < n ==> is_bare_key(#[trigger] features[i].name),
        st.table == features_table(),
        st.pending.len() == 0,
    ensures
        ({
            let end = scan_from(st, feature_entries(features, c, n));
            &&& end.comments == kept_features(st.comments, features, c, n)
            &&& end.pending.len() == 0
            &&& end.table == features_table()
        }),
    decreases n,
{
    if n > 0 {
        lemma_scan_feature_entries(st, features, c, n - 1);
        let f = features[n - 1];
        let before = feature_entries(features, c, n - 1);
        let above = block(c, feature_key(f));
        let entry = above.push(feature_line(f));
        lemma_scan_concat(st, before, entry);
        lemma_block_is_comment_lines(c, feature_key(f));
        let s0 = scan_from(st, before);
        let value = flat_array(crate::array::quoted_all(crate::features::activations(f.specs)));
        assert(value.last() == ']');
        lemma_scan_entry(s0, above, f.name, value);
    } else {
        assert(feature_entries(features, c, n) =~= Seq::<Seq<char>>::empty());
    }
}

/// The scan of the block of features, from wherever it stands.
pub proof fn lemma_scan_features(
    st: ScanState,
    features: Seq<FeatureView>,
    c: Map<Seq<char>, Seq<Seq<char>>>,
)
    requires
        comment_blocks(c),
        forall|i: int| 0 <= i < features.len() ==> is_bare_key(#[trigger] features[i].name),
    ensures
        scan_from(st, feature_lines(features, c)).comments == kept_features(
            st.comments,
            features,
            c,
            features.len() as int,
        ),
{
    if features.len() > 0 {
        let header = features_header();
        let head = seq![Seq::<char>::empty(), header];
        let entries = feature_entries(features, c, features.len() as int);
        lemma_scan_concat(st, head, entries);
        assert(head =~= seq![Seq::<char>::empty()] + seq![header]);
        lemma_scan_concat(st, seq![Seq::<char>::empty()], seq![header]);
        lemma_scan_one(st, Seq::<char>::empty());
        lemma_step_blank(st);
        lemma_scan_one(st, header);
        lemma_step_header(st, header);
        assert(header.subrange(1, header.len() - 1) =~= features_table());
        lemma_scan_feature_entries(scan_from(st, head), features, c, features.len() as int);
    } else {
        assert(feature_lines(features, c) =~= Seq::<Seq<char>>::empty());
    }
}

/// Under every key of a table of dependencies or of features, `kept` holds
/// what `c` holds.
pub open spec fn is_faithful(
    kept: Map<Seq<char>, Seq<Seq<char>>>,
    c: Map<Seq<char>, Seq<Seq<char>>>,
) -> bool {
    forall|k: Seq<char>| #[trigger] kept.contains_key(k) && !is_outside_key(k) ==> kept[k] == block(c, k)
}

proof fn lemma_key_begins(d: DependencyView)
    ensures
        !is_outside_key(comment_key(d)),
{
    reveal_strlit("dependencies");
    reveal_strlit("target.");
    reveal_strlit("dev-dependencies");
    reveal_strlit("build-dependencies");
    let k = comment_key(d);
    match section_of(d) {
        Section::Normal(None) => {
            assert(k[0] == 'd');
        },
        Section::Normal(Some(p)) => {
            assert(k[0] == 't');
        },
        Section::Development => {
            assert(k[0] == 'd');
        },
        Section::Build => {
            assert(k[0] == 'b');
        },
    }
}

proof fn lemma_feature_key_begins(f: FeatureView)
    ensures
        !is_outside_key(feature_key(f)),
{
    reveal_strlit("features");
    assert(feature_key(f)[0] == 'f');
}

proof fn lemma_kept_after(
    start: Map<Seq<char>, Seq<Seq<char>>>,
    sorted: Seq<DependencyView>,
    c: Map<Seq<char>, Seq<Seq<char>>>,
    n: int,
)
    requires
        is_faithful(start, c),
        0 <= n <= sorted.len(),
    ensures
        is_faithful(kept_after(start, sorted, c, n), c),
        forall|k: Seq<char>| start.contains_key(k) ==> kept_after(start, sorted, c, n).contains_key(k),
        forall|i: int|
            0 <= i < n ==> kept_after(start, sorted, c, n).contains_key(
                comment_key(#[trigger] sorted[i]),
            ),
    decreases n,
{
    if n > 0 {
        lemma_kept_after(start, sorted, c, n - 1);
    }
}

proof fn lemma_kept_features(
    start: Map<Seq<char>, Seq<Seq<char>>>,
    features: Seq<FeatureView>,
    c: Map<Seq<char>, Seq<Seq<char>>>,
    n: int,
)
    requires
        is_faithful(start, c),
        0 <= n <= features.len(),
    ensures
        is_faithful(kept_features(start, features, c, n), c),
        forall|k: Seq<char>|
            start.contains_key(k) ==> kept_features(start, features, c, n).contains_key(k),
        forall|i: int|
            0 <= i < n ==> kept_features(start, features, c, n).contains_key(
                feature_key(#[trigger] features[i]),
            ),
    decreases n,
{
    if n > 0 {
        lemma_kept_features(start, features, c, n - 1);
    }
}

/// The sections of dependencies are the same under comments that agree
/// above every entry.
pub proof fn lemma_sections_agree(
    base: Seq<char>,
    sorted: Seq<DependencyView>,
    c1: Map<Seq<char>, Seq<Seq<char>>>,
    c2: Map<Seq<char>, Seq<Seq<char>>>,
    n: int,
)
    requires
        0 <= n <= sorted.len(),
        forall|i: int|
            0 <= i < n ==> block(c1, comment_key(#[trigger] sorted[i])) == block(
                c2,
                comment_key(sorted[i]),
            ),
    ensures
        section_lines(base, sorted, c1, n) == section_lines(base, sorted, c2, n),
    decreases n,
{
    if n > 0 {
        lemma_sections_agree(base, sorted, c1, c2, n - 1);
        assert(block(c1, comment_key(sorted[n - 1])) == block(c2, comment_key(sorted[n - 1])));
    }
}

/// The block of features is the same under comments that agree above every
/// feature.
pub proof fn lemma_features_agree(
    features: Seq<FeatureView>,
    c1: Map<Seq<char>, Seq<Seq<char>>>,
    c2: Map<Seq<char>, Seq<Seq<char>>>,
    n: int,
)
    requires
        0 <= n <= features.len(),
        forall|i: int|
            0 <= i < n ==> block(c1, feature_key(#[trigger] features[i])) == block(
                c2,
                feature_key(features[i]),
            ),
    ensures
        feature_entries(features, c1, n) == feature_entries(features, c2, n),
    decreases n,
{
    if n > 0 {
        lemma_features_agree(features, c1, c2, n - 1);
        assert(block(c1, feature_key(features[n - 1])) == block(c2, feature_key(features[n - 1])));
    }
}

/// What makes a canonical text read back as it was written:
///
/// - the comments are blocks of comment lines, as every scan gives them;
/// - every value keeps to its line: no string that is written literally,
///   and no text of the metadata, holds a line feed;
/// - the keys of the metadata, of the dependencies and of the features are
///   bare keys, which is what they are written as.
///
/// Where one of the last two fails, the text is no TOML document, or not
/// one that holds what the manifest holds.
pub open spec fn reads_back(base: Seq<char>, m: ManifestView, x: ManifestExtraView) -> bool {
    &&& comment_blocks(x.comments)
    &&& values_fit(base, m)
    &&& bare_metadata(m.custom_metadata)
    &&& forall|i: int| 0 <= i < m.dependencies.len() ==> is_bare_key(#[trigger] m.dependencies[i].name)
    &&& forall|i: int| 0 <= i < m.features.len() ==> is_bare_key(#[trigger] m.features[i].name)
}

/// `x` with the comments that the scan finds in `text`.
pub open spec fn with_comments_of(x: ManifestExtraView, text: Seq<char>) -> ManifestExtraView {
    ManifestExtraView {
        autobenches: x.autobenches,
        autobins: x.autobins,
        autoexamples: x.autoexamples,
        autotests: x.autotests,
        comments: scan(text),
    }
}

/// The scan of a canonical text finds, above every dependency and every
/// feature, the comment with which the text was written.
pub proof fn lemma_comments_are_found_again(base: Seq<char>, m: ManifestView, x: ManifestExtraView)
    requires
        reads_back(base, m, x),
    ensures
        ({
            let found = scan(unlines(manifest_lines(base, m, x)));
            let sorted = ordered(m.dependencies);
            &&& forall|i: int|
                0 <= i < sorted.len() ==> block(found, comment_key(#[trigger] sorted[i])) == block(
                    x.comments,
                    comment_key(sorted[i]),
                )
            &&& forall|i: int|
                0 <= i < m.features.len() ==> block(found, feature_key(#[trigger] m.features[i]))
                    == block(x.comments, feature_key(m.features[i]))
        }),
{
    let c = x.comments;
    let sorted = ordered(m.dependencies);
    let n = sorted.len() as int;
    let front = front_lines(base, m, x);
    let deps = section_lines(base, sorted, c, n);
    let feats = feature_lines(m.features, c);
    let lines = manifest_lines(base, m, x);
    assert(lines =~= front + deps + feats);
    lemma_manifest_keeps_lines(base, m, x);
    lemma_split_unlines(lines);
    let start = scan_start();
    lemma_scan_concat(start, front + deps, feats);
    lemma_scan_concat(start, front, deps);
    let s0 = scan_from(start, front);
    assert(stands_outside(start));
    lemma_front_is_plain(base, m, x);
    lemma_scan_stays_outside(start, front);
    assert(stands_outside(s0));
    assert(is_faithful(s0.comments, c));
    lemma_ordered_members(m.dependencies);
    assert forall|i: int| 0 <= i < n implies is_bare_key(#[trigger] sorted[i].name) by {
        assert(sorted.contains(sorted[i]));
        assert(m.dependencies.contains(sorted[i]));
        let j = choose|j: int| 0 <= j < m.dependencies.len() && m.dependencies[j] == sorted[i];
        assert(is_bare_key(m.dependencies[j].name));
    }
    lemma_scan_sections(start, base, sorted, c, 0);
    lemma_scan_sections(s0, base, sorted, c, n);
    let s1 = scan_from(s0, deps);
    lemma_kept_after(s0.comments, sorted, c, n);
    lemma_scan_features(s1, m.features, c);
    let s2 = scan_from(s1, feats);
    lemma_kept_features(s1.comments, m.features, c, m.features.len() as int);
    let found = s2.comments;
    assert(found == scan(unlines(lines)));
    assert forall|i: int| 0 <= i < n implies block(found, comment_key(#[trigger] sorted[i]))
        == block(c, comment_key(sorted[i])) by {
        lemma_key_begins(sorted[i]);
        assert(s1.comments.contains_key(comment_key(sorted[i])));
    }
    assert forall|i: int| 0 <= i < m.features.len() implies block(
        found,
        feature_key(#[trigger] m.features[i]),
    ) == block(c, feature_key(m.features[i])) by {
        lemma_feature_key_begins(m.features[i]);
    }
}

/// A manifest rendered with the comments of its own canonical text is that
/// text again: the canonical form is a fixed point of scanning and
/// rendering.
pub proof fn lemma_canonical_text_is_a_fixed_point(
    base: Seq<char>,
    m: ManifestView,
    x: ManifestExtraView,
)
    requires
        reads_back(base, m, x),
    ensures
        ({
            let text = unlines(manifest_lines(base, m, x));
            let again = with_comments_of(x, text);
            &&& manifest_lines(base, m, again) == manifest_lines(base, m, x)
            &&& rendered_manifest(base, m, again) == rendered_manifest(base, m, x)
        }),
{
    let text = unlines(manifest_lines(base, m, x));
    let again = with_comments_of(x, text);
    let sorted = ordered(m.dependencies);
    lemma_comments_are_found_again(base, m, x);
    lemma_sections_agree(base, sorted, again.comments, x.comments, sorted.len() as int);
    lemma_features_agree(m.features, again.comments, x.comments, m.features.len() as int);
    assert(package_lines(m, again, build_path(base, m.targets)) == package_lines(
        m,
        x,
        build_path(base, m.targets),
    ));
}

} // verus!
