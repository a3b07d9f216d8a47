//! The `[package]` block: the package's own settings in a fixed order, each
//! left out where it is absent, empty, or what is assumed anyway.

use vstd::prelude::*;
use vstd::string::StringExecFns;
use crate::array::{array_lines, push_array_lines, quote_all, quoted_all};
use crate::extra::{ManifestExtra, ManifestExtraView};
use crate::model::{opt_text, Manifest, ManifestView};
use crate::quote::{quoted, toml_str};
use crate::text::{concat2, concat3, push_line, push_lines, str_eq, texts};

verus! {

/// The line of a string setting.
pub open spec fn setting(key: Seq<char>, value: Seq<char>) -> Seq<char> {
    key + " = "@ + quoted(value)
}

/// The line of a string setting that may be absent.
pub open spec fn field(key: Seq<char>, value: Option<Seq<char>>) -> Seq<Seq<char>> {
    match value {
        Some(v) => seq![setting(key, v)],
        None => Seq::empty(),
    }
}

/// The lines of a list of strings; none for an empty list, rows for a list
/// of more than one.
pub open spec fn list_field(key: Seq<char>, values: Seq<Seq<char>>) -> Seq<Seq<char>> {
    if values.len() == 0 {
        Seq::empty()
    } else {
        array_lines(key + " = "@, quoted_all(values))
    }
}

/// The line of a switch that is on unless the manifest says otherwise.
pub open spec fn flag_field(key: Seq<char>, on: bool) -> Seq<Seq<char>> {
    if on {
        Seq::empty()
    } else {
        seq![key + " = false"@]
    }
}

/// The readme, unless it is the file assumed anyway.
pub open spec fn readme_field(readme: Option<Seq<char>>) -> Seq<Seq<char>> {
    match readme {
        Some(r) => if r == "README.md"@ {
            Seq::empty()
        } else {
            seq![setting("readme"@, r)]
        },
        None => Seq::empty(),
    }
}

/// Where the package may be published: nowhere for an empty list.
pub open spec fn publish_field(publish: Option<Seq<Seq<char>>>) -> Seq<Seq<char>> {
    match publish {
        Some(registries) => if registries.len() == 0 {
            seq!["publish = false"@]
        } else {
            array_lines("publish = "@, quoted_all(registries))
        },
        None => Seq::empty(),
    }
}

/// The build script, given by its path from the package's root, unless it
/// is the file assumed anyway.
pub open spec fn build_field(build: Option<Seq<char>>) -> Seq<Seq<char>> {
    match build {
        Some(rel) => if rel == "build.rs"@ {
            Seq::empty()
        } else {
            seq![setting("build"@, rel)]
        },
        None => Seq::empty(),
    }
}

/// The key of the list of files that are packaged.
pub open spec fn packaged_key() -> Seq<char> {
    seq!['i', 'n', 'c', 'l', 'u', 'd', 'e']
}

/// What the package is: its name, what it is for, its version and who
/// made it.
pub open spec fn identity_lines(m: ManifestView) -> Seq<Seq<char>> {
    seq!["[package]"@, setting("name"@, m.name)] + field("description"@, m.description)
        + seq![setting("version"@, m.version)] + list_field("authors"@, m.authors) + list_field(
        "keywords"@,
        m.keywords,
    ) + list_field("categories"@, m.categories)
}

/// Under what terms the package is given out, and where more about it is
/// found.
pub open spec fn about_lines(m: ManifestView) -> Seq<Seq<char>> {
    field("license"@, m.license) + field("license-file"@, m.license_file) + readme_field(
        m.readme,
    ) + field("homepage"@, m.homepage) + field("repository"@, m.repository) + field(
        "documentation"@,
        m.documentation,
    )
}

/// How the package is packed, built and published.
pub open spec fn packaging_lines(m: ManifestView) -> Seq<Seq<char>> {
    list_field("exclude"@, m.excluded) + list_field(packaged_key(), m.included) + field(
        "links"@,
        m.links,
    ) + seq![setting("edition"@, m.edition)] + publish_field(m.publish) + field(
        "default-run"@,
        m.default_run,
    )
}

/// Which kinds of target are not discovered automatically, and where the
/// build script lies.
pub open spec fn discovery_lines(x: ManifestExtraView, build: Option<Seq<char>>) -> Seq<
    Seq<char>,
> {
    flag_field("autobenches"@, x.autobenches) + flag_field("autobins"@, x.autobins)
        + flag_field("autoexamples"@, x.autoexamples) + flag_field("autotests"@, x.autotests)
        + build_field(build)
}

/// The lines of the `[package]` block. `build` is the path of the build
/// script from the package's root, where the package has one.
pub open spec fn package_lines(m: ManifestView, x: ManifestExtraView, build: Option<Seq<char>>) -> Seq<
    Seq<char>,
> {
    identity_lines(m) + about_lines(m) + packaging_lines(m) + discovery_lines(x, build)
}

fn setting_line(key: &str, value: &str) -> (r: String)
    ensures
        r@ == setting(key@, value@),
{
    let q = toml_str(value);
    concat3(key, " = ", q.as_str())
}

fn push_field(out: &mut Vec<String>, key: &str, value: &Option<String>)
    ensures
        texts(final(out)@) == texts(old(out)@) + field(key@, opt_text(*value)),
{
    match value {
        Some(v) => {
            push_line(out, setting_line(key, v.as_str()));
            assert(texts(out@) =~= texts(old(out)@) + field(key@, opt_text(*value)));
        },
        None => {
            assert(texts(out@) =~= texts(old(out)@) + field(key@, opt_text(*value)));
        },
    }
}

fn push_list(out: &mut Vec<String>, key: &str, values: &Vec<String>)
    ensures
        texts(final(out)@) == texts(old(out)@) + list_field(key@, texts(values@)),
{
    if values.len() > 0 {
        let lead = concat2(key, " = ");
        let items = quote_all(values);
        push_array_lines(out, lead.as_str(), &items);
    } else {
        assert(texts(out@) =~= texts(old(out)@) + list_field(key@, texts(values@)));
    }
}

fn push_flag(out: &mut Vec<String>, key: &str, on: bool)
    ensures
        texts(final(out)@) == texts(old(out)@) + flag_field(key@, on),
{
    if !on {
        push_line(out, concat2(key, " = false"));
    }
    assert(texts(out@) =~= texts(old(out)@) + flag_field(key@, on));
}

fn packaged() -> (r: String)
    ensures
        r@ == packaged_key(),
{
    let mut r = String::from_str("in");
    r.append("clude");
    proof {
        reveal_strlit("in");
        reveal_strlit("clude");
        assert(r@ =~= packaged_key());
    }
    r
}

fn identity_block(manifest: &Manifest) -> (r: Vec<String>)
    ensures
        texts(r@) == identity_lines(manifest@),
{
    let mut out: Vec<String> = Vec::new();
    assert(texts(out@) =~= Seq::<Seq<char>>::empty());
    push_line(&mut out, String::from_str("[package]"));
    push_line(&mut out, setting_line("name", manifest.name.as_str()));
    assert(texts(out@) =~= seq!["[package]"@, setting("name"@, manifest@.name)]);
    push_field(&mut out, "description", &manifest.description);
    push_line(&mut out, setting_line("version", manifest.version.as_str()));
    push_list(&mut out, "authors", &manifest.authors);
    push_list(&mut out, "keywords", &manifest.keywords);
    push_list(&mut out, "categories", &manifest.categories);
    assert(texts(out@) =~= identity_lines(manifest@));
    out
}

fn about_block(manifest: &Manifest) -> (r: Vec<String>)
    ensures
        texts(r@) == about_lines(manifest@),
{
    let mut out: Vec<String> = Vec::new();
    assert(texts(out@) =~= Seq::<Seq<char>>::empty());
    push_field(&mut out, "license", &manifest.license);
    push_field(&mut out, "license-file", &manifest.license_file);
    let ghost before_readme = texts(out@);
    match &manifest.readme {
        Some(readme) => {
            if !str_eq(readme.as_str(), "README.md") {
                push_line(&mut out, setting_line("readme", readme.as_str()));
            }
        },
        None => {},
    }
    assert(texts(out@) =~= before_readme + readme_field(manifest@.readme));
    push_field(&mut out, "homepage", &manifest.homepage);
    push_field(&mut out, "repository", &manifest.repository);
    push_field(&mut out, "documentation", &manifest.documentation);
    assert(texts(out@) =~= about_lines(manifest@));
    out
}

fn packaging_block(manifest: &Manifest) -> (r: Vec<String>)
    ensures
        texts(r@) == packaging_lines(manifest@),
{
    let mut out: Vec<String> = Vec::new();
    assert(texts(out@) =~= Seq::<Seq<char>>::empty());
    push_list(&mut out, "exclude", &manifest.excluded);
    let key = packaged();
    push_list(&mut out, key.as_str(), &manifest.included);
    push_field(&mut out, "links", &manifest.links);
    push_line(&mut out, setting_line("edition", manifest.edition.as_str()));
    let ghost before_publish = texts(out@);
    match &manifest.publish {
        Some(registries) => {
            if registries.len() == 0 {
                push_line(&mut out, String::from_str("publish = false"));
            } else {
                let items = quote_all(registries);
                push_array_lines(&mut out, "publish = ", &items);
            }
        },
        None => {},
    }
    assert(texts(out@) =~= before_publish + publish_field(manifest@.publish));
    push_field(&mut out, "default-run", &manifest.default_run);
    assert(texts(out@) =~= packaging_lines(manifest@));
    out
}

fn discovery_block(extra: &ManifestExtra, build: &Option<String>) -> (r: Vec<String>)
    ensures
        texts(r@) == discovery_lines(extra@, opt_text(*build)),
{
    let mut out: Vec<String> = Vec::new();
    assert(texts(out@) =~= Seq::<Seq<char>>::empty());
    push_flag(&mut out, "autobenches", extra.autobenches);
    push_flag(&mut out, "autobins", extra.autobins);
    push_flag(&mut out, "autoexamples", extra.autoexamples);
    push_flag(&mut out, "autotests", extra.autotests);
    let ghost before_build = texts(out@);
    match build {
        Some(rel) => {
            if !str_eq(rel.as_str(), "build.rs") {
                push_line(&mut out, setting_line("build", rel.as_str()));
            }
        },
        None => {},
    }
    assert(texts(out@) =~= before_build + build_field(opt_text(*build)));
    assert(texts(out@) =~= discovery_lines(extra@, opt_text(*build)));
    out
}

/// Writes the `[package]` block. `build` is the path of the build script
/// from the package's root, where the package has one.
pub fn package_block(manifest: &Manifest, extra: &ManifestExtra, build: &Option<String>) -> (r:
    Vec<String>)
    ensures
        texts(r@) == package_lines(manifest@, extra@, opt_text(*build)),
{
    let mut out = identity_block(manifest);
    push_lines(&mut out, about_block(manifest));
    push_lines(&mut out, packaging_block(manifest));
    push_lines(&mut out, discovery_block(extra, build));
    out
}

} // verus!
