//! The `[features]` block: each feature with what it switches on, in the
//! order in which the manifest holds them.

use vstd::prelude::*;
use vstd::string::StringExecFns;
use crate::array::{flat_array, quoted_all, toml_flat_array};
use crate::comments::{block, qualified};
use crate::extra::ManifestExtra;
use crate::model::{views, Feature, FeatureView};
use crate::text::{begins_with, concat3, from_chars, push_line, push_lines, starts_with, texts, to_chars};

verus! {

/// What a feature switches on, as it is written: a dependency switched on
/// as `dep:name` is written by its name alone.
pub open spec fn activation(spec: Seq<char>) -> Seq<char> {
    if begins_with(spec, "dep:"@) {
        spec.skip("dep:"@.len() as int)
    } else {
        spec
    }
}

pub open spec fn activations(specs: Seq<Seq<char>>) -> Seq<Seq<char>> {
    Seq::new(specs.len(), |i: int| activation(specs[i]))
}

/// The qualified key under which a feature's comment is kept.
pub open spec fn feature_key(f: FeatureView) -> Seq<char> {
    qualified(features_table(), f.name)
}

/// The table that holds the features.
pub open spec fn features_table() -> Seq<char> {
    "features"@
}

/// The header of the features.
pub open spec fn features_header() -> Seq<char> {
    seq!['['] + features_table() + seq![']']
}

/// The line of a feature.
pub open spec fn feature_line(f: FeatureView) -> Seq<char> {
    f.name + " = "@ + flat_array(quoted_all(activations(f.specs)))
}

/// The lines of the first `n` features, each under its comment.
pub open spec fn feature_entries(
    features: Seq<FeatureView>,
    comments: Map<Seq<char>, Seq<Seq<char>>>,
    n: int,
) -> Seq<Seq<char>>
    decreases n,
{
    if n <= 0 {
        Seq::empty()
    } else {
        feature_entries(features, comments, n - 1) + block(
            comments,
            feature_key(features[n - 1]),
        ).push(feature_line(features[n - 1]))
    }
}

/// The lines of the `[features]` block; none where there is no feature.
pub open spec fn feature_lines(
    features: Seq<FeatureView>,
    comments: Map<Seq<char>, Seq<Seq<char>>>,
) -> Seq<Seq<char>> {
    if features.len() == 0 {
        Seq::empty()
    } else {
        seq![Seq::empty(), features_header()] + feature_entries(
            features,
            comments,
            features.len() as int,
        )
    }
}

fn written_activations(specs: &Vec<String>) -> (r: Vec<String>)
    ensures
        texts(r@) == activations(texts(specs@)),
{
    let mut r: Vec<String> = Vec::new();
    let mut i: usize = 0;
    while i < specs.len()
        invariant
            i <= specs.len(),
            r.len() == i,
            forall|j: int| 0 <= j < i ==> r@[j]@ == activation(specs@[j]@),
        decreases specs.len() - i,
    {
        let chars = to_chars(specs[i].as_str());
        proof {
            reveal_strlit("dep:");
        }
        if starts_with(&chars, "dep:") {
            let rest = from_chars(&chars, 4, chars.len());
            assert(rest@ =~= activation(specs@[i as int]@));
            r.push(rest);
        } else {
            r.push(specs[i].clone());
        }
        i += 1;
    }
    assert(texts(r@) =~= activations(texts(specs@)));
    r
}

/// Writes the `[features]` block.
pub fn render_features(features: &Vec<Feature>, extra: &ManifestExtra) -> (r: Vec<String>)
    ensures
        texts(r@) == feature_lines(views(features@), extra@.comments),
{
    let mut out: Vec<String> = Vec::new();
    assert(texts(out@) =~= Seq::<Seq<char>>::empty());
    if features.len() == 0 {
        return out;
    }
    push_line(&mut out, String::new());
    let mut header = String::new();
    header.push('[');
    header.append("features");
    header.push(']');
    assert(header@ =~= features_header());
    push_line(&mut out, header);
    let ghost all = views(features@);
    let mut i: usize = 0;
    while i < features.len()
        invariant
            i <= features.len(),
            all == views(features@),
            texts(out@) == seq![Seq::empty(), features_header()] + feature_entries(
                all,
                extra@.comments,
                i as int,
            ),
        decreases features.len() - i,
    {
        let feature = &features[i];
        assert(all[i as int] == feature@);
        let name = feature.name.as_str();
        let key = concat3("features", ".", name);
        proof {
            reveal_strlit(".");
            assert(key@ =~= feature_key(all[i as int]));
        }
        let ghost before = texts(out@);
        push_lines(&mut out, extra.comments.lines(key.as_str()));
        let value = written_activations(&feature.specs);
        let list = toml_flat_array(&value);
        push_line(&mut out, concat3(name, " = ", list.as_str()));
        assert(texts(out@) =~= before + block(extra@.comments, feature_key(all[i as int])).push(
            feature_line(all[i as int]),
        ));
        i += 1;
    }
    out
}

} // verus!
