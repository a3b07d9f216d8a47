//! The manifest as the formatter reads it, and the mathematical view of each
//! of its parts.

use vstd::prelude::*;
use crate::text::texts;

verus! {

/// The text of an optional string.
pub open spec fn opt_text(o: Option<String>) -> Option<Seq<char>> {
    match o {
        Some(s) => Some(s@),
        None => None,
    }
}

/// The texts of an optional list of strings.
pub open spec fn opt_texts(o: Option<Vec<String>>) -> Option<Seq<Seq<char>>> {
    match o {
        Some(v) => Some(texts(v@)),
        None => None,
    }
}

/// The views of a sequence of values.
pub open spec fn views<T: View>(v: Seq<T>) -> Seq<T::V> {
    Seq::new(v.len(), |i: int| v[i]@)
}

/// How the output of a library target is linked.
#[derive(Clone, Copy, PartialEq, Eq, Structural, Debug)]
pub enum CrateType {
    Bin,
    Lib,
    Rlib,
    Dylib,
    Cdylib,
    Staticlib,
    ProcMacro,
    Other,
}

/// What a target builds.
#[derive(Clone, Debug)]
pub enum TargetKind {
    Lib(Vec<CrateType>),
    Bin,
    Test,
    Bench,
    ExampleLib(Vec<CrateType>),
    ExampleBin,
    CustomBuild,
}

pub enum TargetKindView {
    Lib(Seq<CrateType>),
    Bin,
    Test,
    Bench,
    ExampleLib(Seq<CrateType>),
    ExampleBin,
    CustomBuild,
}

impl View for TargetKind {
    type V = TargetKindView;

    open spec fn view(&self) -> TargetKindView {
        match self {
            TargetKind::Lib(types) => TargetKindView::Lib(types@),
            TargetKind::Bin => TargetKindView::Bin,
            TargetKind::Test => TargetKindView::Test,
            TargetKind::Bench => TargetKindView::Bench,
            TargetKind::ExampleLib(types) => TargetKindView::ExampleLib(types@),
            TargetKind::ExampleBin => TargetKindView::ExampleBin,
            TargetKind::CustomBuild => TargetKindView::CustomBuild,
        }
    }
}

/// One build artifact of a package.
#[derive(Clone, Debug)]
pub struct Target {
    pub kind: TargetKind,
    pub name: String,
    /// Where the target's root source file lies on disk.
    pub src_path: String,
    /// Whether the target runs under the standard test harness.
    pub harness: bool,
    /// Whether the target is part of the generated documentation.
    pub documented: bool,
}

pub struct TargetView {
    pub kind: TargetKindView,
    pub name: Seq<char>,
    pub src_path: Seq<char>,
    pub harness: bool,
    pub documented: bool,
}

impl View for Target {
    type V = TargetView;

    open spec fn view(&self) -> TargetView {
        TargetView {
            kind: self.kind@,
            name: self.name@,
            src_path: self.src_path@,
            harness: self.harness,
            documented: self.documented,
        }
    }
}

/// What a git dependency is pinned to.
#[derive(Clone, Debug)]
pub enum GitReference {
    Tag(String),
    Branch(String),
    Rev(String),
    DefaultBranch,
}

pub enum GitReferenceView {
    Tag(Seq<char>),
    Branch(Seq<char>),
    Rev(Seq<char>),
    DefaultBranch,
}

impl View for GitReference {
    type V = GitReferenceView;

    open spec fn view(&self) -> GitReferenceView {
        match self {
            GitReference::Tag(s) => GitReferenceView::Tag(s@),
            GitReference::Branch(s) => GitReferenceView::Branch(s@),
            GitReference::Rev(s) => GitReferenceView::Rev(s@),
            GitReference::DefaultBranch => GitReferenceView::DefaultBranch,
        }
    }
}

/// Where a dependency comes from.
#[derive(Clone, Debug)]
pub enum Source {
    /// A registry, found by version alone.
    Registry,
    /// A directory on disk.
    Path(String),
    /// A git repository.
    Git { url: String, reference: GitReference },
}

pub enum SourceView {
    Registry,
    Path(Seq<char>),
    Git { url: Seq<char>, reference: GitReferenceView },
}

impl View for Source {
    type V = SourceView;

    open spec fn view(&self) -> SourceView {
        match self {
            Source::Registry => SourceView::Registry,
            Source::Path(p) => SourceView::Path(p@),
            Source::Git { url, reference } => SourceView::Git { url: url@, reference: reference@ },
        }
    }
}

/// A platform that a dependency is limited to.
#[derive(Clone, Debug)]
pub struct Platform {
    /// The platform as it is written: the name of a target, or a `cfg`
    /// expression.
    pub text: String,
    /// The place of the platform in the order of platforms: of two
    /// platforms, the one of the lower rank stands first.
    pub rank: u64,
}

pub struct PlatformView {
    pub text: Seq<char>,
    pub rank: u64,
}

impl View for Platform {
    type V = PlatformView;

    open spec fn view(&self) -> PlatformView {
        PlatformView { text: self.text@, rank: self.rank }
    }
}

/// The view of an optional platform.
pub open spec fn opt_platform(o: Option<Platform>) -> Option<PlatformView> {
    match o {
        Some(p) => Some(p@),
        None => None,
    }
}

/// What a dependency is needed for.
#[derive(Clone, Copy, PartialEq, Eq, Structural, Debug)]
pub enum DepKind {
    Normal,
    Development,
    Build,
}

/// One required package.
#[derive(Clone, Debug)]
pub struct Dependency {
    /// The key under which the dependency stands in the manifest.
    pub name_in_toml: String,
    /// The package's own name; it differs from the key where the dependency
    /// is renamed.
    pub package_name: String,
    /// The version requirement, as text.
    pub version_req: String,
    pub source: Source,
    pub kind: DepKind,
    /// The platform the dependency is limited to, if any.
    pub platform: Option<Platform>,
    pub default_features: bool,
    pub features: Vec<String>,
    pub optional: bool,
}

pub struct DependencyView {
    pub name: Seq<char>,
    pub package: Seq<char>,
    pub version_req: Seq<char>,
    pub source: SourceView,
    pub kind: DepKind,
    pub platform: Option<PlatformView>,
    pub default_features: bool,
    pub features: Seq<Seq<char>>,
    pub optional: bool,
}

impl View for Dependency {
    type V = DependencyView;

    open spec fn view(&self) -> DependencyView {
        DependencyView {
            name: self.name_in_toml@,
            package: self.package_name@,
            version_req: self.version_req@,
            source: self.source@,
            kind: self.kind,
            platform: opt_platform(self.platform),
            default_features: self.default_features,
            features: texts(self.features@),
            optional: self.optional,
        }
    }
}

/// One feature and what it switches on.
#[derive(Clone, Debug)]
pub struct Feature {
    pub name: String,
    pub specs: Vec<String>,
}

pub struct FeatureView {
    pub name: Seq<char>,
    pub specs: Seq<Seq<char>>,
}

impl View for Feature {
    type V = FeatureView;

    open spec fn view(&self) -> FeatureView {
        FeatureView { name: self.name@, specs: texts(self.specs@) }
    }
}

/// A value of the package's free-form metadata. Tables keep their entries
/// in order; an array keeps its items, and a plain value itself, as the
/// text that stands for it in a manifest.
#[derive(Debug)]
pub enum MetaValue {
    Table(Vec<MetaEntry>),
    Array(Vec<String>),
    Scalar(String),
}

/// One entry of a metadata table.
#[derive(Debug)]
pub struct MetaEntry {
    pub key: String,
    pub value: MetaValue,
}

pub enum MetaValueView {
    Table(Seq<MetaEntryView>),
    Array(Seq<Seq<char>>),
    Scalar(Seq<char>),
}

pub struct MetaEntryView {
    pub key: Seq<char>,
    pub value: MetaValueView,
}

/// The views of the first `n` entries.
pub open spec fn entry_views(entries: Seq<MetaEntry>, n: nat) -> Seq<MetaEntryView>
    decreases entries, n,
{
    if n == 0 || n > entries.len() {
        Seq::empty()
    } else {
        entry_views(entries, (n - 1) as nat).push(
            MetaEntryView { key: entries[n - 1].key@, value: meta_view(entries[n - 1].value) },
        )
    }
}

pub open spec fn meta_view(value: MetaValue) -> MetaValueView
    decreases value,
{
    match value {
        MetaValue::Table(entries) => MetaValueView::Table(
            entry_views(entries@, entries@.len()),
        ),
        MetaValue::Array(items) => MetaValueView::Array(texts(items@)),
        MetaValue::Scalar(text) => MetaValueView::Scalar(text@),
    }
}

impl View for MetaValue {
    type V = MetaValueView;

    open spec fn view(&self) -> MetaValueView {
        meta_view(*self)
    }
}

impl View for MetaEntry {
    type V = MetaEntryView;

    open spec fn view(&self) -> MetaEntryView {
        MetaEntryView { key: self.key@, value: self.value@ }
    }
}

/// The structured description of one package.
#[derive(Debug)]
pub struct Manifest {
    pub name: String,
    pub description: Option<String>,
    pub version: String,
    pub authors: Vec<String>,
    pub keywords: Vec<String>,
    pub categories: Vec<String>,
    pub license: Option<String>,
    pub license_file: Option<String>,
    pub readme: Option<String>,
    pub homepage: Option<String>,
    pub repository: Option<String>,
    pub documentation: Option<String>,
    pub excluded: Vec<String>,
    pub included: Vec<String>,
    pub links: Option<String>,
    pub edition: String,
    /// The registries the package may be published to; an empty list
    /// forbids publishing.
    pub publish: Option<Vec<String>>,
    pub default_run: Option<String>,
    pub targets: Vec<Target>,
    pub dependencies: Vec<Dependency>,
    pub features: Vec<Feature>,
    pub custom_metadata: Option<MetaValue>,
}

pub struct ManifestView {
    pub name: Seq<char>,
    pub description: Option<Seq<char>>,
    pub version: Seq<char>,
    pub authors: Seq<Seq<char>>,
    pub keywords: Seq<Seq<char>>,
    pub categories: Seq<Seq<char>>,
    pub license: Option<Seq<char>>,
    pub license_file: Option<Seq<char>>,
    pub readme: Option<Seq<char>>,
    pub homepage: Option<Seq<char>>,
    pub repository: Option<Seq<char>>,
    pub documentation: Option<Seq<char>>,
    pub excluded: Seq<Seq<char>>,
    pub included: Seq<Seq<char>>,
    pub links: Option<Seq<char>>,
    pub edition: Seq<char>,
    pub publish: Option<Seq<Seq<char>>>,
    pub default_run: Option<Seq<char>>,
    pub targets: Seq<TargetView>,
    pub dependencies: Seq<DependencyView>,
    pub features: Seq<FeatureView>,
    pub custom_metadata: Option<MetaValueView>,
}

impl View for Manifest {
    type V = ManifestView;

    open spec fn view(&self) -> ManifestView {
        ManifestView {
            name: self.name@,
            description: opt_text(self.description),
            version: self.version@,
            authors: texts(self.authors@),
            keywords: texts(self.keywords@),
            categories: texts(self.categories@),
            license: opt_text(self.license),
            license_file: opt_text(self.license_file),
            readme: opt_text(self.readme),
            homepage: opt_text(self.homepage),
            repository: opt_text(self.repository),
            documentation: opt_text(self.documentation),
            excluded: texts(self.excluded@),
            included: texts(self.included@),
            links: opt_text(self.links),
            edition: self.edition@,
            publish: opt_texts(self.publish),
            default_run: opt_text(self.default_run),
            targets: views(self.targets@),
            dependencies: views(self.dependencies@),
            features: views(self.features@),
            custom_metadata: match self.custom_metadata {
                Some(value) => Some(value@),
                None => None,
            },
        }
    }
}

} // verus!
