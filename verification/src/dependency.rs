//! One dependency: the key its comment is kept under, and how it is
//! written.

use vstd::prelude::*;
use vstd::string::StringExecFns;
use crate::array::{comma_join, comma_separated, flat_array, quoted_all, toml_flat_array};
use crate::comments::{block, qualified};
use crate::extra::ManifestExtra;
use crate::model::{
    DepKind,
    Dependency,
    DependencyView,
    GitReference,
    GitReferenceView,
    PlatformView,
    Source,
    SourceView,
};
use crate::paths::{rel_path, relative_to};
use crate::quote::{quoted, toml_str};
use crate::text::{concat2, concat3, push_line, push_lines, str_eq, texts};
use crate::version::{toml_version, version_text};

verus! {


/// The section a dependency stands in.
pub enum Section {
    /// The dependencies of the package, of one platform or of all.
    Normal(Option<PlatformView>),
    Development,
    Build,
}

pub open spec fn section_of(d: DependencyView) -> Section {
    match d.kind {
        DepKind::Normal => Section::Normal(d.platform),
        DepKind::Development => Section::Development,
        DepKind::Build => Section::Build,
    }
}

/// The table that holds a section.
pub open spec fn section_table(s: Section) -> Seq<char> {
    match s {
        Section::Normal(None) => "dependencies"@,
        Section::Normal(Some(p)) => "target."@ + quoted(p.text) + ".dependencies"@,
        Section::Development => "dev-dependencies"@,
        Section::Build => "build-dependencies"@,
    }
}

/// The header of a section.
pub open spec fn section_header(s: Section) -> Seq<char> {
    seq!['['] + section_table(s) + seq![']']
}

/// The qualified key under which a dependency's comment is kept: its key in
/// the table of the section it stands in.
pub open spec fn comment_key(d: DependencyView) -> Seq<char> {
    qualified(section_table(section_of(d)), d.name)
}

/// The settings that say what a git dependency is pinned to. The branch
/// `master` goes without saying.
pub open spec fn reference_fields(reference: GitReferenceView) -> Seq<Seq<char>> {
    match reference {
        GitReferenceView::Tag(tag) => seq!["tag = "@ + quoted(tag)],
        GitReferenceView::Branch(branch) => if branch == "master"@ {
            Seq::empty()
        } else {
            seq!["branch = "@ + quoted(branch)]
        },
        GitReferenceView::Rev(rev) => seq!["rev = "@ + quoted(rev)],
        GitReferenceView::DefaultBranch => Seq::empty(),
    }
}

/// The settings that stand before the version: the package where the
/// dependency is renamed, then where it comes from. `rel` is the path of a
/// path dependency from the package's root.
pub open spec fn source_fields(d: DependencyView, rel: Seq<char>) -> Seq<Seq<char>> {
    (if d.package == d.name {
        Seq::empty()
    } else {
        seq!["package = "@ + quoted(d.package)]
    }) + (match d.source {
        SourceView::Registry => Seq::empty(),
        SourceView::Path(_) => seq!["path = "@ + quoted(rel)],
        SourceView::Git { url, reference } => seq!["git = "@ + quoted(url)] + reference_fields(
            reference,
        ),
    })
}

/// The settings that stand after the version.
pub open spec fn feature_fields(d: DependencyView) -> Seq<Seq<char>> {
    (if d.default_features {
        Seq::empty()
    } else {
        seq!["default-features = false"@]
    }) + (if d.features.len() == 0 {
        Seq::empty()
    } else {
        seq!["features = "@ + flat_array(quoted_all(d.features))]
    }) + (if d.optional {
        seq!["optional = true"@]
    } else {
        Seq::empty()
    })
}

/// The version as a setting; the requirement `*` goes without saying.
pub open spec fn version_field(d: DependencyView) -> Seq<Seq<char>> {
    if d.version_req == "*"@ {
        Seq::empty()
    } else {
        seq!["version = "@ + version_text(d.version_req)]
    }
}

/// Whether a dependency is written as its version alone.
pub open spec fn is_plain(d: DependencyView, rel: Seq<char>) -> bool {
    source_fields(d, rel).len() + feature_fields(d).len() == 0
}

/// What stands for a dependency after its key: the version alone where
/// nothing else is to say, else an inline table of its settings.
pub open spec fn dependency_value(d: DependencyView, rel: Seq<char>) -> Seq<char> {
    if is_plain(d, rel) {
        version_text(d.version_req)
    } else {
        "{ "@ + comma_separated(source_fields(d, rel) + version_field(d) + feature_fields(d))
            + " }"@
    }
}

/// The line of a dependency.
pub open spec fn dependency_line(d: DependencyView, rel: Seq<char>) -> Seq<char> {
    d.name + " = "@ + dependency_value(d, rel)
}

/// The lines of a dependency: its comment, then its line.
pub open spec fn dependency_lines(
    d: DependencyView,
    rel: Seq<char>,
    comments: Map<Seq<char>, Seq<Seq<char>>>,
) -> Seq<Seq<char>> {
    block(comments, comment_key(d)).push(dependency_line(d, rel))
}

/// Whether what a dependency needs of `base` can be had: the path of a path
/// dependency, written from `base`.
pub open spec fn resolves(base: Seq<char>, d: DependencyView) -> bool {
    d.source matches SourceView::Path(p) ==> relative_to(p, base) is Some
}

/// The path of a path dependency from `base`; of no meaning for another.
pub open spec fn resolved(base: Seq<char>, d: DependencyView) -> Seq<char> {
    match d.source {
        SourceView::Path(p) => match relative_to(p, base) {
            Some(rel) => rel,
            None => Seq::empty(),
        },
        _ => Seq::empty(),
    }
}

/// The lines of a dependency of a package rooted at `base`; `None` where it
/// is a path dependency whose path cannot be written from `base`.
pub open spec fn rendered_dependency(
    base: Seq<char>,
    d: DependencyView,
    comments: Map<Seq<char>, Seq<Seq<char>>>,
) -> Option<Seq<Seq<char>>> {
    if resolves(base, d) {
        Some(dependency_lines(d, resolved(base, d), comments))
    } else {
        None
    }
}

fn reference_settings(reference: &GitReference) -> (r: Vec<String>)
    ensures
        texts(r@) == reference_fields(reference@),
{
    let mut out: Vec<String> = Vec::new();
    assert(texts(out@) =~= Seq::<Seq<char>>::empty());
    match reference {
        GitReference::Tag(tag) => {
            let q = toml_str(tag.as_str());
            push_line(&mut out, concat2("tag = ", q.as_str()));
        },
        GitReference::Branch(branch) => {
            if !str_eq(branch.as_str(), "master") {
                let q = toml_str(branch.as_str());
                push_line(&mut out, concat2("branch = ", q.as_str()));
            }
        },
        GitReference::Rev(rev) => {
            let q = toml_str(rev.as_str());
            push_line(&mut out, concat2("rev = ", q.as_str()));
        },
        GitReference::DefaultBranch => {},
    }
    assert(texts(out@) =~= reference_fields(reference@));
    out
}

fn source_settings(dep: &Dependency, rel: &str) -> (r: Vec<String>)
    ensures
        texts(r@) == source_fields(dep@, rel@),
{
    let mut out: Vec<String> = Vec::new();
    assert(texts(out@) =~= Seq::<Seq<char>>::empty());
    if !str_eq(dep.package_name.as_str(), dep.name_in_toml.as_str()) {
        let q = toml_str(dep.package_name.as_str());
        push_line(&mut out, concat2("package = ", q.as_str()));
    }
    match &dep.source {
        Source::Registry => {},
        Source::Path(_) => {
            let q = toml_str(rel);
            push_line(&mut out, concat2("path = ", q.as_str()));
        },
        Source::Git { url, reference } => {
            let q = toml_str(url.as_str());
            push_line(&mut out, concat2("git = ", q.as_str()));
            push_lines(&mut out, reference_settings(reference));
        },
    }
    assert(texts(out@) =~= source_fields(dep@, rel@));
    out
}

fn feature_settings(dep: &Dependency) -> (r: Vec<String>)
    ensures
        texts(r@) == feature_fields(dep@),
{
    let mut out: Vec<String> = Vec::new();
    assert(texts(out@) =~= Seq::<Seq<char>>::empty());
    if !dep.default_features {
        push_line(&mut out, String::from_str("default-features = false"));
    }
    if dep.features.len() > 0 {
        let list = toml_flat_array(&dep.features);
        push_line(&mut out, concat2("features = ", list.as_str()));
    }
    if dep.optional {
        push_line(&mut out, String::from_str("optional = true"));
    }
    assert(texts(out@) =~= feature_fields(dep@));
    out
}

/// Writes a dependency: its comment, then its line. `rel` is the path of a
/// path dependency from the package's root.
pub fn dependency_entry(rel: &str, dep: &Dependency, extra: &ManifestExtra) -> (r: Vec<String>)
    ensures
        texts(r@) == dependency_lines(dep@, rel@, extra@.comments),
{
    let name = dep.name_in_toml.as_str();
    let mut key = table_of(dep);
    key.push('.');
    key.append(name);
    assert(key@ =~= comment_key(dep@));
    let mut out = extra.comments.lines(key.as_str());
    let mut fields = source_settings(dep, rel);
    let after = feature_settings(dep);
    let value = if fields.len() == 0 && after.len() == 0 {
        toml_version(dep.version_req.as_str())
    } else {
        if !str_eq(dep.version_req.as_str(), "*") {
            let v = toml_version(dep.version_req.as_str());
            push_line(&mut fields, concat2("version = ", v.as_str()));
        }
        push_lines(&mut fields, after);
        assert(texts(fields@) =~= source_fields(dep@, rel@) + version_field(dep@)
            + feature_fields(dep@));
        let inner = comma_join(&fields);
        concat3("{ ", inner.as_str(), " }")
    };
    assert(value@ == dependency_value(dep@, rel@));
    push_line(&mut out, concat3(name, " = ", value.as_str()));
    out
}

/// Writes a dependency of a package rooted at `base`.
pub fn render_dependency(base: &str, dep: &Dependency, extra: &ManifestExtra) -> (r: Option<
    Vec<String>,
>)
    ensures
        match r {
            Some(lines) => rendered_dependency(base@, dep@, extra@.comments) == Some(
                texts(lines@),
            ),
            None => rendered_dependency(base@, dep@, extra@.comments) is None,
        },
{
    match &dep.source {
        Source::Path(path) => match rel_path(base, path.as_str()) {
            Some(rel) => Some(dependency_entry(rel.as_str(), dep, extra)),
            None => None,
        },
        _ => {
            let rel = String::new();
            Some(dependency_entry(rel.as_str(), dep, extra))
        },
    }
}

/// The table of the section that `dep` stands in.
pub(crate) fn table_of(dep: &Dependency) -> (r: String)
    ensures
        r@ == section_table(section_of(dep@)),
{
    match dep.kind {
        DepKind::Normal => match &dep.platform {
            None => String::from_str("dependencies"),
            Some(p) => {
                let q = toml_str(p.text.as_str());
                concat3("target.", q.as_str(), ".dependencies")
            },
        },
        DepKind::Development => String::from_str("dev-dependencies"),
        DepKind::Build => String::from_str("build-dependencies"),
    }
}

} // verus!
