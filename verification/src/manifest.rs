//! The whole manifest in its canonical form: the package, its metadata, its
//! targets, its dependencies and its features, always in this order.

use vstd::prelude::*;
use crate::sections::{
    all_resolve,
    keys_are_unique,
    lemma_given_order_does_not_matter,
    ordered,
    render_dependencies,
    section_lines,
};
use crate::extra::{ManifestExtra, ManifestExtraView};
use crate::features::{feature_lines, render_features};
use crate::metadata::{metadata_lines, render_package_metadata};
use crate::model::{
    views,
    DependencyView,
    Manifest,
    ManifestView,
    Target,
    TargetKind,
    TargetKindView,
    TargetView,
};
use crate::package::{package_block, package_lines};
use crate::paths::{rel_path, relative_to};
use crate::target::{render_target, target_lines};
use crate::text::{join_lines, push_lines, texts, unlines};

verus! {

/// The kinds of target of which a package may have many, in the order in
/// which their blocks stand.
#[derive(Clone, Copy, PartialEq, Eq, Structural, Debug)]
pub enum Group {
    Bin,
    Example,
    Test,
    Bench,
}

pub open spec fn in_group(kind: TargetKindView, group: Group) -> bool {
    match kind {
        TargetKindView::Bin => group == Group::Bin,
        TargetKindView::ExampleLib(_) => group == Group::Example,
        TargetKindView::ExampleBin => group == Group::Example,
        TargetKindView::Test => group == Group::Test,
        TargetKindView::Bench => group == Group::Bench,
        _ => false,
    }
}

/// The package's library: the last target that is one.
pub open spec fn library(targets: Seq<TargetView>) -> Option<TargetView>
    decreases targets.len(),
{
    if targets.len() == 0 {
        None
    } else if targets.last().kind is Lib {
        Some(targets.last())
    } else {
        library(targets.drop_last())
    }
}

/// The package's build script: the last target that is one.
pub open spec fn build_script(targets: Seq<TargetView>) -> Option<TargetView>
    decreases targets.len(),
{
    if targets.len() == 0 {
        None
    } else if targets.last().kind is CustomBuild {
        Some(targets.last())
    } else {
        build_script(targets.drop_last())
    }
}

/// Whether the target's path can be written from `base`.
pub open spec fn locates(base: Seq<char>, target: TargetView) -> bool {
    relative_to(target.src_path, base) is Some
}

/// The target's path from `base`; of no meaning where there is none.
pub open spec fn located(base: Seq<char>, target: TargetView) -> Seq<char> {
    match relative_to(target.src_path, base) {
        Some(rel) => rel,
        None => Seq::empty(),
    }
}

/// The blocks of those of the first `n` targets that belong to `group`.
pub open spec fn group_lines(
    base: Seq<char>,
    package_name: Seq<char>,
    targets: Seq<TargetView>,
    group: Group,
    n: int,
) -> Seq<Seq<char>>
    decreases n,
{
    if n <= 0 {
        Seq::empty()
    } else {
        group_lines(base, package_name, targets, group, n - 1) + (if in_group(
            targets[n - 1].kind,
            group,
        ) {
            target_lines(located(base, targets[n - 1]), package_name, targets[n - 1])
        } else {
            Seq::empty()
        })
    }
}

/// The block of the library, where the package has one.
pub open spec fn library_lines(
    base: Seq<char>,
    package_name: Seq<char>,
    targets: Seq<TargetView>,
) -> Seq<Seq<char>> {
    match library(targets) {
        Some(lib) => target_lines(located(base, lib), package_name, lib),
        None => Seq::empty(),
    }
}

/// The path of the build script from `base`, where the package has one.
pub open spec fn build_path(base: Seq<char>, targets: Seq<TargetView>) -> Option<Seq<char>> {
    match build_script(targets) {
        Some(script) => Some(located(base, script)),
        None => None,
    }
}

/// Whether every target of `group` has a path from `base`.
pub open spec fn group_locates(base: Seq<char>, targets: Seq<TargetView>, group: Group) -> bool {
    forall|i: int|
        0 <= i < targets.len() && in_group((#[trigger] targets[i]).kind, group) ==> locates(
            base,
            targets[i],
        )
}

/// Whether every path that the manifest writes can be written from `base`:
/// that of the build script, of the library, of every other target, and of
/// every path dependency.
pub open spec fn resolvable(base: Seq<char>, m: ManifestView) -> bool {
    &&& build_script(m.targets) matches Some(script) ==> locates(base, script)
    &&& library(m.targets) matches Some(lib) ==> locates(base, lib)
    &&& group_locates(base, m.targets, Group::Bin)
    &&& group_locates(base, m.targets, Group::Example)
    &&& group_locates(base, m.targets, Group::Test)
    &&& group_locates(base, m.targets, Group::Bench)
    &&& all_resolve(base, ordered(m.dependencies))
}

/// The blocks of all targets: the library, then the binaries, the examples,
/// the tests and the benchmarks, each kind in the order of the manifest.
pub open spec fn targets_lines(base: Seq<char>, m: ManifestView) -> Seq<Seq<char>> {
    let n = m.targets.len() as int;
    library_lines(base, m.name, m.targets) + group_lines(
        base,
        m.name,
        m.targets,
        Group::Bin,
        n,
    ) + group_lines(base, m.name, m.targets, Group::Example, n) + group_lines(
        base,
        m.name,
        m.targets,
        Group::Test,
        n,
    ) + group_lines(base, m.name, m.targets, Group::Bench, n)
}

/// The lines of the canonical manifest of a package rooted at `base`.
pub open spec fn manifest_lines(base: Seq<char>, m: ManifestView, x: ManifestExtraView) -> Seq<
    Seq<char>,
> {
    let deps = ordered(m.dependencies);
    package_lines(m, x, build_path(base, m.targets)) + metadata_lines(m.custom_metadata)
        + targets_lines(base, m) + section_lines(base, deps, x.comments, deps.len() as int)
        + feature_lines(m.features, x.comments)
}

/// The canonical manifest of a package rooted at `base`; `None` where a
/// path that it writes cannot be written from `base`.
pub open spec fn rendered_manifest(base: Seq<char>, m: ManifestView, x: ManifestExtraView) -> Option<
    Seq<char>,
> {
    if resolvable(base, m) {
        Some(unlines(manifest_lines(base, m, x)))
    } else {
        None
    }
}

/// `m` with `dependencies` in place of its own.
pub open spec fn with_dependencies(m: ManifestView, dependencies: Seq<DependencyView>) -> ManifestView {
    ManifestView { dependencies, ..m }
}

/// The canonical manifest does not depend on the order in which the
/// dependencies are given, where every key stands once in its section.
pub proof fn lemma_given_order_is_forgotten(
    base: Seq<char>,
    m: ManifestView,
    again: Seq<DependencyView>,
    x: ManifestExtraView,
)
    requires
        m.dependencies.to_multiset() == again.to_multiset(),
        keys_are_unique(m.dependencies),
    ensures
        rendered_manifest(base, with_dependencies(m, again), x) == rendered_manifest(base, m, x),
{
    lemma_given_order_does_not_matter(base, m.dependencies, again, x.comments);
    let n = with_dependencies(m, again);
    assert(package_lines(n, x, build_path(base, n.targets)) == package_lines(
        m,
        x,
        build_path(base, m.targets),
    ));
    assert(targets_lines(base, n) == targets_lines(base, m));
}

fn belongs(kind: &TargetKind, group: Group) -> (r: bool)
    ensures
        r == in_group(kind@, group),
{
    match kind {
        TargetKind::Bin => match group {
            Group::Bin => true,
            _ => false,
        },
        TargetKind::ExampleLib(_) => match group {
            Group::Example => true,
            _ => false,
        },
        TargetKind::ExampleBin => match group {
            Group::Example => true,
            _ => false,
        },
        TargetKind::Test => match group {
            Group::Test => true,
            _ => false,
        },
        TargetKind::Bench => match group {
            Group::Bench => true,
            _ => false,
        },
        _ => false,
    }
}

/// The place of the library among the targets.
fn find_library(targets: &Vec<Target>) -> (r: Option<usize>)
    ensures
        match r {
            Some(i) => i < targets.len() && targets@[i as int]@.kind is Lib && library(
                views(targets@),
            ) == Some(targets@[i as int]@),
            None => library(views(targets@)) is None,
        },
{
    let ghost all = views(targets@);
    let mut found: Option<usize> = None;
    let mut i: usize = 0;
    assert(all.take(0).len() == 0);
    while i < targets.len()
        invariant
            i <= targets.len(),
            all == views(targets@),
            match found {
                Some(k) => k < targets.len() && targets@[k as int]@.kind is Lib && library(
                    all.take(i as int),
                ) == Some(targets@[k as int]@),
                None => library(all.take(i as int)) is None,
            },
        decreases targets.len() - i,
    {
        assert(all.take(i + 1).drop_last() == all.take(i as int));
        assert(all.take(i + 1).last() == targets@[i as int]@);
        match &targets[i].kind {
            TargetKind::Lib(_) => {
                found = Some(i);
            },
            _ => {},
        }
        i += 1;
    }
    assert(all.take(i as int) == all);
    found
}

/// The place of the build script among the targets.
fn find_build_script(targets: &Vec<Target>) -> (r: Option<usize>)
    ensures
        match r {
            Some(i) => i < targets.len() && build_script(views(targets@)) == Some(
                targets@[i as int]@,
            ),
            None => build_script(views(targets@)) is None,
        },
{
    let ghost all = views(targets@);
    let mut found: Option<usize> = None;
    let mut i: usize = 0;
    assert(all.take(0).len() == 0);
    while i < targets.len()
        invariant
            i <= targets.len(),
            all == views(targets@),
            match found {
                Some(k) => k < targets.len() && build_script(all.take(i as int)) == Some(
                    targets@[k as int]@,
                ),
                None => build_script(all.take(i as int)) is None,
            },
        decreases targets.len() - i,
    {
        assert(all.take(i + 1).drop_last() == all.take(i as int));
        assert(all.take(i + 1).last() == targets@[i as int]@);
        match &targets[i].kind {
            TargetKind::CustomBuild => {
                found = Some(i);
            },
            _ => {},
        }
        i += 1;
    }
    assert(all.take(i as int) == all);
    found
}

/// Writes the blocks of the targets of `group`, in the order of `targets`.
pub fn render_group(base: &str, package_name: &str, targets: &Vec<Target>, group: Group) -> (r:
    Option<Vec<String>>)
    ensures
        match r {
            Some(lines) => group_locates(base@, views(targets@), group) && texts(lines@)
                == group_lines(
                base@,
                package_name@,
                views(targets@),
                group,
                targets.len() as int,
            ),
            None => !group_locates(base@, views(targets@), group),
        },
{
    let ghost all = views(targets@);
    let mut out: Vec<String> = Vec::new();
    assert(texts(out@) =~= Seq::<Seq<char>>::empty());
    let mut i: usize = 0;
    while i < targets.len()
        invariant
            i <= targets.len(),
            all == views(targets@),
            forall|j: int| 0 <= j < i && in_group((#[trigger] all[j]).kind, group) ==> locates(base@, all[j]),
            texts(out@) == group_lines(base@, package_name@, all, group, i as int),
        decreases targets.len() - i,
    {
        let target = &targets[i];
        assert(all[i as int] == target@);
        if belongs(&target.kind, group) {
            match render_target(base, package_name, target) {
                Some(lines) => {
                    push_lines(&mut out, lines);
                },
                None => {
                    assert(!locates(base@, all[i as int]));
                    return None;
                },
            }
        } else {
            assert(texts(out@) =~= group_lines(base@, package_name@, all, group, i + 1));
        }
        i += 1;
    }
    Some(out)
}

/// Writes the blocks of all targets.
fn render_targets(base: &str, manifest: &Manifest) -> (r: Option<Vec<String>>)
    ensures
        match r {
            Some(lines) => {
                &&& library(manifest@.targets) matches Some(lib) ==> locates(base@, lib)
                &&& group_locates(base@, manifest@.targets, Group::Bin)
                &&& group_locates(base@, manifest@.targets, Group::Example)
                &&& group_locates(base@, manifest@.targets, Group::Test)
                &&& group_locates(base@, manifest@.targets, Group::Bench)
                &&& texts(lines@) == targets_lines(base@, manifest@)
            },
            None => !resolvable(base@, manifest@),
        },
{
    let name = manifest.name.as_str();
    let targets = &manifest.targets;
    let mut out: Vec<String> = Vec::new();
    assert(texts(out@) =~= Seq::<Seq<char>>::empty());
    match find_library(targets) {
        Some(i) => match render_target(base, name, &targets[i]) {
            Some(lines) => {
                push_lines(&mut out, lines);
            },
            None => {
                return None;
            },
        },
        None => {},
    }
    assert(texts(out@) =~= library_lines(base@, manifest@.name, manifest@.targets));
    assert(library(manifest@.targets) matches Some(lib) ==> locates(base@, lib));
    let ghost n = targets.len() as int;
    let ghost all = manifest@.targets;
    let ghost pkg = manifest@.name;
    let ghost lib = library_lines(base@, pkg, all);
    match render_group(base, name, targets, Group::Bin) {
        Some(lines) => {
            push_lines(&mut out, lines);
        },
        None => {
            return None;
        },
    }
    match render_group(base, name, targets, Group::Example) {
        Some(lines) => {
            push_lines(&mut out, lines);
        },
        None => {
            return None;
        },
    }
    match render_group(base, name, targets, Group::Test) {
        Some(lines) => {
            push_lines(&mut out, lines);
        },
        None => {
            return None;
        },
    }
    match render_group(base, name, targets, Group::Bench) {
        Some(lines) => {
            push_lines(&mut out, lines);
        },
        None => {
            return None;
        },
    }
    assert(texts(out@) =~= lib + group_lines(base@, pkg, all, Group::Bin, n) + group_lines(
        base@,
        pkg,
        all,
        Group::Example,
        n,
    ) + group_lines(base@, pkg, all, Group::Test, n) + group_lines(
        base@,
        pkg,
        all,
        Group::Bench,
        n,
    ));
    Some(out)
}

/// Writes the canonical manifest of a package rooted at `base`.
///
/// The result is `None` exactly where one of the paths that the manifest
/// writes has no form relative to `base`.
pub fn render_manifest(base: &str, manifest: &Manifest, extra: &ManifestExtra) -> (r: Option<
    String,
>)
    ensures
        match r {
            Some(text) => rendered_manifest(base@, manifest@, extra@) == Some(text@),
            None => rendered_manifest(base@, manifest@, extra@) is None,
        },
{
    let build = match find_build_script(&manifest.targets) {
        Some(i) => match rel_path(base, manifest.targets[i].src_path.as_str()) {
            Some(rel) => Some(rel),
            None => {
                return None;
            },
        },
        None => None,
    };
    assert(crate::model::opt_text(build) == build_path(base@, manifest@.targets));
    let mut out = package_block(manifest, extra, &build);
    push_lines(&mut out, render_package_metadata(&manifest.custom_metadata));
    match render_targets(base, manifest) {
        Some(lines) => {
            push_lines(&mut out, lines);
        },
        None => {
            return None;
        },
    }
    match render_dependencies(base, &manifest.dependencies, extra) {
        Some(lines) => {
            push_lines(&mut out, lines);
        },
        None => {
            return None;
        },
    }
    push_lines(&mut out, render_features(&manifest.features, extra));
    assert(texts(out@) =~= manifest_lines(base@, manifest@, extra@));
    Some(join_lines(&out))
}

} // verus!
