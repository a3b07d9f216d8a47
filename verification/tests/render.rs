use manifmt::comments::{scan_comments, CommentMap};
use manifmt::dependency::{dependency_entry, render_dependency};
use manifmt::sections::{render_dependencies, sort_dependencies};
use manifmt::extra::ManifestExtra;
use manifmt::features::render_features;
use manifmt::manifest::{render_group, render_manifest, Group};
use manifmt::metadata::render_metadata;
use manifmt::model::{
    CrateType, DepKind, Dependency, Feature, GitReference, Manifest, MetaEntry, MetaValue, Platform,
    Source, Target, TargetKind,
};
use manifmt::package::package_block;
use manifmt::target::{infer, render_target, target_block};

fn strings(items: &[&str]) -> Vec<String> {
    items.iter().map(|s| s.to_string()).collect()
}

fn manifest(name: &str, version: &str) -> Manifest {
    Manifest {
        name: name.to_string(),
        description: None,
        version: version.to_string(),
        authors: vec![],
        keywords: vec![],
        categories: vec![],
        license: None,
        license_file: None,
        readme: None,
        homepage: None,
        repository: None,
        documentation: None,
        excluded: vec![],
        included: vec![],
        links: None,
        edition: "2018".to_string(),
        publish: None,
        default_run: None,
        targets: vec![],
        dependencies: vec![],
        features: vec![],
        custom_metadata: None,
    }
}

fn extra(comments: CommentMap) -> ManifestExtra {
    ManifestExtra { autobenches: true, autobins: true, autoexamples: true, autotests: true, comments }
}

fn plain() -> ManifestExtra {
    extra(CommentMap::new())
}

fn dep(name: &str, req: &str) -> Dependency {
    Dependency {
        name_in_toml: name.to_string(),
        package_name: name.to_string(),
        version_req: req.to_string(),
        source: Source::Registry,
        kind: DepKind::Normal,
        platform: None,
        default_features: true,
        features: vec![],
        optional: false,
    }
}

fn platform(text: &str, rank: u64) -> Option<Platform> {
    Some(Platform { text: text.to_string(), rank })
}

fn target(kind: TargetKind, name: &str, path: &str) -> Target {
    Target { kind, name: name.to_string(), src_path: path.to_string(), harness: true, documented: true }
}

#[test]
fn end_to_end_scenario() {
    let mut m = manifest("foo", "0.1.0");
    m.dependencies.push(dep("bar", "^1.0"));
    let out = render_manifest("/pkg", &m, &plain()).unwrap();
    assert_eq!(
        out,
        "[package]\nname = \"foo\"\nversion = \"0.1.0\"\nedition = \"2018\"\n\n[dependencies]\nbar = \"1.0.0\"\n"
    );
}

#[test]
fn description_with_double_quote_is_literal() {
    let mut m = manifest("foo", "0.1.0");
    m.description = Some("a \"fine\" crate".to_string());
    let out = render_manifest("/pkg", &m, &plain()).unwrap();
    assert!(out.contains("description = 'a \"fine\" crate'\n"));
    m.description = Some("it's a \"fine\" crate".to_string());
    let out = render_manifest("/pkg", &m, &plain()).unwrap();
    assert!(out.contains("description = \"it's a \\\"fine\\\" crate\"\n"));
}

#[test]
fn authors_of_one_are_flat_and_of_three_are_rows() {
    let mut m = manifest("foo", "0.1.0");
    m.authors = strings(&["A"]);
    let out = render_manifest("/pkg", &m, &plain()).unwrap();
    assert!(out.contains("\nauthors = [\"A\"]\n"));
    m.authors = strings(&["A", "B", "C"]);
    let out = render_manifest("/pkg", &m, &plain()).unwrap();
    assert!(out.contains("\nauthors = [\n    \"A\",\n    \"B\",\n    \"C\",\n]\n"));
}

#[test]
fn package_block_in_full() {
    let mut m = manifest("foo", "1.2.3");
    m.description = Some("does things".to_string());
    m.authors = strings(&["A <a@x>", "B"]);
    m.keywords = strings(&["k"]);
    m.categories = strings(&["c1", "c2"]);
    m.license = Some("MIT".to_string());
    m.license_file = Some("LICENSE".to_string());
    m.readme = Some("docs/README.md".to_string());
    m.homepage = Some("https://h".to_string());
    m.repository = Some("https://r".to_string());
    m.documentation = Some("https://d".to_string());
    m.excluded = strings(&["target"]);
    m.included = strings(&["src/**", "Cargo.toml"]);
    m.links = Some("z".to_string());
    m.edition = "2021".to_string();
    m.publish = Some(strings(&["crates-io", "mine"]));
    m.default_run = Some("foo".to_string());
    let x = ManifestExtra {
        autobenches: false,
        autobins: false,
        autoexamples: false,
        autotests: false,
        comments: CommentMap::new(),
    };
    let lines = package_block(&m, &x, &Some("scripts/build.rs".to_string()));
    assert_eq!(
        lines,
        strings(&[
            "[package]",
            "name = \"foo\"",
            "description = \"does things\"",
            "version = \"1.2.3\"",
            "authors = [",
            "    \"A <a@x>\",",
            "    \"B\",",
            "]",
            "keywords = [\"k\"]",
            "categories = [",
            "    \"c1\",",
            "    \"c2\",",
            "]",
            "license = \"MIT\"",
            "license-file = \"LICENSE\"",
            "readme = \"docs/README.md\"",
            "homepage = \"https://h\"",
            "repository = \"https://r\"",
            "documentation = \"https://d\"",
            "exclude = [\"target\"]",
            "include = [",
            "    \"src/**\",",
            "    \"Cargo.toml\",",
            "]",
            "links = \"z\"",
            "edition = \"2021\"",
            "publish = [",
            "    \"crates-io\",",
            "    \"mine\",",
            "]",
            "default-run = \"foo\"",
            "autobenches = false",
            "autobins = false",
            "autoexamples = false",
            "autotests = false",
            "build = \"scripts/build.rs\"",
        ])
    );
}

#[test]
fn defaults_of_the_package_are_left_out() {
    let mut m = manifest("foo", "0.1.0");
    m.readme = Some("README.md".to_string());
    m.publish = Some(vec![]);
    let lines = package_block(&m, &plain(), &Some("build.rs".to_string()));
    assert_eq!(
        lines,
        strings(&[
            "[package]",
            "name = \"foo\"",
            "version = \"0.1.0\"",
            "edition = \"2018\"",
            "publish = false",
        ])
    );
}

#[test]
fn build_script_gives_a_key_and_no_block() {
    let mut m = manifest("foo", "0.1.0");
    m.targets.push(target(TargetKind::CustomBuild, "build-script-build", "/pkg/tools/b.rs"));
    let out = render_manifest("/pkg", &m, &plain()).unwrap();
    assert_eq!(
        out,
        "[package]\nname = \"foo\"\nversion = \"0.1.0\"\nedition = \"2018\"\nbuild = \"tools/b.rs\"\n"
    );
    m.targets[0].src_path = "/pkg/build.rs".to_string();
    let out = render_manifest("/pkg", &m, &plain()).unwrap();
    assert_eq!(out, "[package]\nname = \"foo\"\nversion = \"0.1.0\"\nedition = \"2018\"\n");
    let block = render_target("/pkg", "foo", &m.targets[0]).unwrap();
    assert_eq!(block, Vec::<String>::new());
    let block = target_block("tools/b.rs", "foo", &m.targets[0]);
    assert_eq!(block, Vec::<String>::new());
}

#[test]
fn library_at_its_place_with_the_package_name_says_nothing() {
    let lib = target(TargetKind::Lib(vec![CrateType::Lib]), "foo", "/pkg/src/lib.rs");
    assert_eq!(render_target("/pkg", "foo", &lib).unwrap(), Vec::<String>::new());
    let omit = infer("src/lib.rs", "foo", &lib);
    assert!(omit.name && omit.path);
}

#[test]
fn library_elsewhere_names_its_path_but_not_itself() {
    let mut lib = target(TargetKind::Lib(vec![CrateType::Lib]), "foo", "/pkg/lib.rs");
    assert_eq!(
        render_target("/pkg", "foo", &lib).unwrap(),
        strings(&["", "[lib]", "path = \"lib.rs\""])
    );
    lib.name = "other".to_string();
    assert_eq!(
        render_target("/pkg", "foo", &lib).unwrap(),
        strings(&["", "[lib]", "name = \"other\"", "path = \"lib.rs\""])
    );
}

#[test]
fn library_settings() {
    let mut lib = target(
        TargetKind::Lib(vec![CrateType::Rlib, CrateType::ProcMacro]),
        "foo",
        "/pkg/src/lib.rs",
    );
    lib.harness = false;
    lib.documented = false;
    assert_eq!(
        render_target("/pkg", "foo", &lib).unwrap(),
        strings(&["", "[lib]", "proc-macro = true", "harness = false", "doc = false"])
    );
}

#[test]
fn conventional_paths_by_kind() {
    let cases = [
        (TargetKind::Bin, "src/main.rs", true),
        (TargetKind::Bin, "src/bin/t.rs", true),
        (TargetKind::Bin, "src/bin/t/main.rs", true),
        (TargetKind::Bin, "src/bin/u.rs", false),
        (TargetKind::Bin, "src/lib.rs", false),
        (TargetKind::Test, "tests/t.rs", true),
        (TargetKind::Test, "tests/t/main.rs", true),
        (TargetKind::Test, "src/main.rs", false),
        (TargetKind::Bench, "benches/t.rs", true),
        (TargetKind::Bench, "benches/t/main.rs", true),
        (TargetKind::Bench, "tests/t.rs", false),
        (TargetKind::ExampleBin, "examples/t.rs", true),
        (TargetKind::ExampleBin, "examples/t/main.rs", true),
        (TargetKind::ExampleLib(vec![]), "examples/t.rs", true),
        (TargetKind::ExampleLib(vec![]), "examples/t/lib.rs", false),
        (TargetKind::Lib(vec![]), "src/lib.rs", true),
        (TargetKind::Lib(vec![]), "src/main.rs", false),
        (TargetKind::CustomBuild, "build.rs", false),
    ];
    for (kind, rel, expected) in cases {
        let t = target(kind, "t", "/unused");
        assert_eq!(infer(rel, "pkg", &t).path, expected, "{:?} {}", t.kind, rel);
    }
}

#[test]
fn target_at_its_place_has_no_path_line() {
    let mut t = target(TargetKind::Test, "smoke", "/pkg/tests/smoke.rs");
    t.harness = false;
    let lines = render_target("/pkg", "foo", &t).unwrap();
    assert_eq!(lines, strings(&["", "[[test]]", "name = \"smoke\"", "harness = false"]));
    assert!(!lines.iter().any(|l| l.starts_with("path = ")));
}

#[test]
fn binary_named_like_the_package_keeps_its_name() {
    let t = target(TargetKind::Bin, "foo", "/pkg/main.rs");
    assert_eq!(
        render_target("/pkg", "foo", &t).unwrap(),
        strings(&["", "[[bin]]", "name = \"foo\"", "path = \"main.rs\""])
    );
}

#[test]
fn example_library_is_no_library() {
    let mut t = target(TargetKind::ExampleLib(vec![CrateType::ProcMacro]), "ex", "/pkg/ex.rs");
    t.documented = false;
    assert_eq!(
        render_target("/pkg", "ex", &t).unwrap(),
        strings(&["", "[[example]]", "name = \"ex\"", "path = \"ex.rs\""])
    );
}

#[test]
fn paths_are_written_from_the_root() {
    let t = target(TargetKind::Bench, "b", "/other/b.rs");
    assert_eq!(
        render_target("/pkg/sub", "foo", &t).unwrap(),
        strings(&["", "[[bench]]", "name = \"b\"", "path = \"../../other/b.rs\""])
    );
    let t = target(TargetKind::Bench, "b", "/pkg/benches/b.rs");
    assert_eq!(render_target("/pkg/", "foo", &t).unwrap(), Vec::<String>::new());
}

#[test]
fn path_that_cannot_be_written_from_the_root() {
    let t = target(TargetKind::Bin, "b", "src/main.rs");
    assert_eq!(render_target("/pkg", "foo", &t), None);
    let mut m = manifest("foo", "0.1.0");
    m.targets.push(t);
    assert_eq!(render_manifest("/pkg", &m, &plain()), None);
    assert_eq!(render_group("/pkg", "foo", &m.targets, Group::Bin), None);
    assert_eq!(render_group("/pkg", "foo", &m.targets, Group::Test), Some(vec![]));
    let mut m = manifest("foo", "0.1.0");
    m.targets.push(target(TargetKind::CustomBuild, "build-script-build", "build.rs"));
    assert_eq!(render_manifest("/pkg", &m, &plain()), None);
    let mut m = manifest("foo", "0.1.0");
    let mut d = dep("local", "*");
    d.source = Source::Path("../local".to_string());
    assert_eq!(render_dependency("/pkg", &d, &plain()), None);
    m.dependencies.push(d);
    assert_eq!(render_manifest("/pkg", &m, &plain()), None);
    assert_eq!(render_dependencies("/pkg", &m.dependencies, &plain()), None);
}

#[test]
fn targets_stand_by_kind_and_then_in_their_order() {
    let mut m = manifest("foo", "0.1.0");
    m.targets.push(target(TargetKind::Bench, "be", "/pkg/be.rs"));
    m.targets.push(target(TargetKind::Test, "t2", "/pkg/t2.rs"));
    m.targets.push(target(TargetKind::ExampleBin, "e1", "/pkg/e1.rs"));
    m.targets.push(target(TargetKind::Bin, "b2", "/pkg/b2.rs"));
    m.targets.push(target(TargetKind::Lib(vec![]), "foo", "/pkg/l.rs"));
    m.targets.push(target(TargetKind::Test, "t1", "/pkg/t1.rs"));
    m.targets.push(target(TargetKind::ExampleLib(vec![]), "e2", "/pkg/e2.rs"));
    m.targets.push(target(TargetKind::Bin, "b1", "/pkg/b1.rs"));
    m.targets.push(target(TargetKind::Bin, "quiet", "/pkg/src/bin/quiet.rs"));
    let out = render_manifest("/pkg", &m, &plain()).unwrap();
    assert_eq!(
        out,
        "[package]\nname = \"foo\"\nversion = \"0.1.0\"\nedition = \"2018\"\n\
         \n[lib]\npath = \"l.rs\"\n\
         \n[[bin]]\nname = \"b2\"\npath = \"b2.rs\"\n\
         \n[[bin]]\nname = \"b1\"\npath = \"b1.rs\"\n\
         \n[[example]]\nname = \"e1\"\npath = \"e1.rs\"\n\
         \n[[example]]\nname = \"e2\"\npath = \"e2.rs\"\n\
         \n[[test]]\nname = \"t2\"\npath = \"t2.rs\"\n\
         \n[[test]]\nname = \"t1\"\npath = \"t1.rs\"\n\
         \n[[bench]]\nname = \"be\"\npath = \"be.rs\"\n"
    );
}

#[test]
fn last_library_is_the_library() {
    let mut m = manifest("foo", "0.1.0");
    m.targets.push(target(TargetKind::Lib(vec![]), "a", "not/absolute.rs"));
    m.targets.push(target(TargetKind::Lib(vec![]), "b", "/pkg/b.rs"));
    let out = render_manifest("/pkg", &m, &plain()).unwrap();
    assert!(out.ends_with("\n[lib]\nname = \"b\"\npath = \"b.rs\"\n"));
    assert!(!out.contains("\"a\""));
}

#[test]
fn plain_dependency_is_its_version() {
    assert_eq!(dependency_entry("", &dep("bar", "^1"), &plain()), strings(&["bar = \"1.0.0\""]));
    assert_eq!(dependency_entry("", &dep("bar", "*"), &plain()), strings(&["bar = \"*\""]));
    assert_eq!(dependency_entry("", &dep("bar", "~1.2"), &plain()), strings(&["bar = \"~1.2\""]));
}

#[test]
fn inline_table_has_its_settings_in_order() {
    let mut d = dep("bar", "^1.2.3");
    d.package_name = "real-bar".to_string();
    d.source = Source::Git {
        url: "https://example.com/bar.git".to_string(),
        reference: GitReference::Branch("next".to_string()),
    };
    d.default_features = false;
    d.features = strings(&["a", "b"]);
    d.optional = true;
    assert_eq!(
        dependency_entry("", &d, &plain()),
        strings(&[
            "bar = { package = \"real-bar\", git = \"https://example.com/bar.git\", branch = \"next\", version = \"1.2.3\", default-features = false, features = [\"a\", \"b\"], optional = true }"
        ])
    );
}

#[test]
fn git_references() {
    let mut d = dep("bar", "*");
    let url = "https://example.com/bar.git".to_string();
    d.source = Source::Git { url: url.clone(), reference: GitReference::Branch("master".to_string()) };
    assert_eq!(
        dependency_entry("", &d, &plain()),
        strings(&["bar = { git = \"https://example.com/bar.git\" }"])
    );
    d.source = Source::Git { url: url.clone(), reference: GitReference::DefaultBranch };
    assert_eq!(
        dependency_entry("", &d, &plain()),
        strings(&["bar = { git = \"https://example.com/bar.git\" }"])
    );
    d.source = Source::Git { url: url.clone(), reference: GitReference::Tag("v1".to_string()) };
    assert_eq!(
        dependency_entry("", &d, &plain()),
        strings(&["bar = { git = \"https://example.com/bar.git\", tag = \"v1\" }"])
    );
    d.source = Source::Git { url, reference: GitReference::Rev("abc123".to_string()) };
    d.version_req = "^0.4".to_string();
    assert_eq!(
        dependency_entry("", &d, &plain()),
        strings(&["bar = { git = \"https://example.com/bar.git\", rev = \"abc123\", version = \"0.4.0\" }"])
    );
}

#[test]
fn path_dependency_is_written_from_the_root() {
    let mut d = dep("local", "*");
    d.source = Source::Path("/work/local".to_string());
    assert_eq!(
        render_dependency("/work/pkg", &d, &plain()).unwrap(),
        strings(&["local = { path = \"../local\" }"])
    );
    d.version_req = "^0.1.0".to_string();
    assert_eq!(
        render_dependency("/work", &d, &plain()).unwrap(),
        strings(&["local = { path = \"local\", version = \"0.1.0\" }"])
    );
}

#[test]
fn single_settings_make_an_inline_table() {
    let mut d = dep("bar", "^1");
    d.optional = true;
    assert_eq!(
        dependency_entry("", &d, &plain()),
        strings(&["bar = { version = \"1.0.0\", optional = true }"])
    );
    let mut d = dep("bar", "*");
    d.default_features = false;
    assert_eq!(dependency_entry("", &d, &plain()), strings(&["bar = { default-features = false }"]));
    let mut d = dep("bar", ">=2");
    d.features = strings(&["x"]);
    assert_eq!(
        dependency_entry("", &d, &plain()),
        strings(&["bar = { version = \">=2\", features = [\"x\"] }"])
    );
}

#[test]
fn dependencies_are_sorted_within_their_section() {
    let mut m = manifest("foo", "0.1.0");
    for name in ["zeta", "alpha", "Mid", "beta-2", "beta_1", "beta"] {
        m.dependencies.push(dep(name, "^1"));
    }
    let lines = render_dependencies("/pkg", &m.dependencies, &plain()).unwrap();
    assert_eq!(
        lines,
        strings(&[
            "",
            "[dependencies]",
            "Mid = \"1.0.0\"",
            "alpha = \"1.0.0\"",
            "beta = \"1.0.0\"",
            "beta-2 = \"1.0.0\"",
            "beta_1 = \"1.0.0\"",
            "zeta = \"1.0.0\"",
        ])
    );
    let mut names: Vec<&str> = lines[2..].iter().map(|l| l.split(' ').next().unwrap()).collect();
    let written = names.clone();
    names.sort();
    assert_eq!(written, names);
}

#[test]
fn sorting_does_not_depend_on_the_order_given() {
    let names = ["d", "a", "c", "b"];
    let mut first = Vec::new();
    for n in names {
        first.push(dep(n, "^1"));
    }
    let mut second = Vec::new();
    for n in names.iter().rev() {
        second.push(dep(n, "^1"));
    }
    assert_eq!(
        render_dependencies("/pkg", &first, &plain()),
        render_dependencies("/pkg", &second, &plain())
    );
    assert_eq!(sort_dependencies(&first), vec![1, 3, 2, 0]);
    assert_eq!(sort_dependencies(&second), vec![2, 0, 1, 3]);
}

#[test]
fn equal_keys_keep_their_order() {
    let mut a = dep("same", "^1");
    a.optional = true;
    let b = dep("same", "^2");
    let deps = vec![a, b, dep("aaa", "*")];
    assert_eq!(sort_dependencies(&deps), vec![2, 0, 1]);
}

#[test]
fn sections_stand_in_their_order() {
    let mut deps = Vec::new();
    let mut b = dep("cc", "^1");
    b.kind = DepKind::Build;
    deps.push(b);
    let mut d = dep("quick", "^1");
    d.kind = DepKind::Development;
    deps.push(d);
    let mut w = dep("winapi", "^0.3");
    w.platform = platform("cfg(windows)", 1);
    deps.push(w);
    let mut u = dep("libc", "^0.2");
    u.platform = platform("cfg(target_os = \"linux\")", 2);
    deps.push(u);
    let mut u2 = dep("errno", "*");
    u2.platform = platform("cfg(target_os = \"linux\")", 2);
    deps.push(u2);
    let mut t = dep("triple", "^1");
    t.platform = platform("x86_64-pc-windows-gnu", 0);
    deps.push(t);
    deps.push(dep("serde", "^1"));
    let mut dp = dep("devp", "^1");
    dp.kind = DepKind::Development;
    dp.platform = platform("cfg(unix)", 3);
    deps.push(dp);
    let lines = render_dependencies("/pkg", &deps, &plain()).unwrap();
    assert_eq!(
        lines,
        strings(&[
            "",
            "[dependencies]",
            "serde = \"1.0.0\"",
            "",
            "[target.\"x86_64-pc-windows-gnu\".dependencies]",
            "triple = \"1.0.0\"",
            "",
            "[target.\"cfg(windows)\".dependencies]",
            "winapi = \"0.3.0\"",
            "",
            "[target.'cfg(target_os = \"linux\")'.dependencies]",
            "errno = \"*\"",
            "libc = \"0.2.0\"",
            "",
            "[dev-dependencies]",
            "devp = \"1.0.0\"",
            "quick = \"1.0.0\"",
            "",
            "[build-dependencies]",
            "cc = \"1.0.0\"",
        ])
    );
}

#[test]
fn platforms_of_one_rank_stand_by_their_text() {
    let mut a = dep("a", "^1");
    a.platform = platform("zeta", 0);
    let mut b = dep("b", "^1");
    b.platform = platform("alpha", 0);
    let mut c = dep("c", "^1");
    c.platform = platform("mid", 0);
    let lines = render_dependencies("/pkg", &vec![a, b, c], &plain()).unwrap();
    assert_eq!(
        lines,
        strings(&[
            "",
            "[target.\"alpha\".dependencies]",
            "b = \"1.0.0\"",
            "",
            "[target.\"mid\".dependencies]",
            "c = \"1.0.0\"",
            "",
            "[target.\"zeta\".dependencies]",
            "a = \"1.0.0\"",
        ])
    );
}

#[test]
fn no_dependencies_no_section() {
    assert_eq!(render_dependencies("/pkg", &vec![], &plain()), Some(vec![]));
    let mut d = dep("only", "^1");
    d.kind = DepKind::Build;
    assert_eq!(
        render_dependencies("/pkg", &vec![d], &plain()).unwrap(),
        strings(&["", "[build-dependencies]", "only = \"1.0.0\""])
    );
}

#[test]
fn comments_stand_above_their_keys() {
    let source = "[package]\nname = \"foo\"\n\n[dependencies]\n# keep in step\n# with the server\nbar = \"1\"\nbaz = \"2\"\n\n[target.\"cfg(unix)\".dependencies]\n# unix only\nlibc = \"0.2\"\n\n[features]\n# the usual\ndefault = []\n";
    let x = extra(scan_comments(source));
    let mut m = manifest("foo", "0.1.0");
    m.dependencies.push(dep("baz", "^2"));
    m.dependencies.push(dep("bar", "^1"));
    let mut l = dep("libc", "^0.2");
    l.platform = platform("cfg(unix)", 0);
    m.dependencies.push(l);
    m.features.push(Feature { name: "default".to_string(), specs: vec![] });
    let out = render_manifest("/pkg", &m, &x).unwrap();
    assert_eq!(
        out,
        "[package]\nname = \"foo\"\nversion = \"0.1.0\"\nedition = \"2018\"\n\
         \n[dependencies]\n# keep in step\n# with the server\nbar = \"1.0.0\"\nbaz = \"2.0.0\"\n\
         \n[target.\"cfg(unix)\".dependencies]\n# unix only\nlibc = \"0.2.0\"\n\
         \n[features]\n# the usual\ndefault = []\n"
    );
}

#[test]
fn comment_of_a_dependency_is_sought_in_the_table_of_its_section() {
    let x = extra(scan_comments(
        "[dependencies]\n# n\nbar = \"1\"\n[dev-dependencies]\n# d\nbar = \"1\"\n[build-dependencies]\n# b\nbar = \"1\"\n[target.\"cfg(unix)\".dependencies]\n# u\nbar = \"1\"\n",
    ));
    let mut d = dep("bar", "^1");
    assert_eq!(dependency_entry("", &d, &x), strings(&["# n", "bar = \"1.0.0\""]));
    d.kind = DepKind::Development;
    assert_eq!(dependency_entry("", &d, &x), strings(&["# d", "bar = \"1.0.0\""]));
    d.kind = DepKind::Build;
    assert_eq!(dependency_entry("", &d, &x), strings(&["# b", "bar = \"1.0.0\""]));
    d.kind = DepKind::Normal;
    d.platform = platform("cfg(unix)", 0);
    assert_eq!(dependency_entry("", &d, &x), strings(&["# u", "bar = \"1.0.0\""]));
    d.kind = DepKind::Development;
    assert_eq!(dependency_entry("", &d, &x), strings(&["# d", "bar = \"1.0.0\""]));
}

#[test]
fn comment_above_a_development_dependency_is_kept_above_it() {
    let x = extra(scan_comments("[dev-dependencies]\n# only for tests\nbar = \"1\"\n"));
    let mut d = dep("bar", "^1");
    d.kind = DepKind::Development;
    assert_eq!(
        render_dependency("/pkg", &d, &x).unwrap(),
        strings(&["# only for tests", "bar = \"1.0.0\""])
    );
    d.kind = DepKind::Build;
    assert_eq!(render_dependency("/pkg", &d, &x).unwrap(), strings(&["bar = \"1.0.0\""]));
}

#[test]
fn comment_of_another_section_is_not_taken() {
    let x = extra(scan_comments("[dependencies]\n# n\nbar = \"1\"\n"));
    let mut m = manifest("foo", "0.1.0");
    let mut d = dep("bar", "^1");
    d.kind = DepKind::Development;
    m.dependencies.push(d);
    let first = render_manifest("/pkg", &m, &x).unwrap();
    assert!(first.ends_with("\n[dev-dependencies]\nbar = \"1.0.0\"\n"));
    let second = render_manifest("/pkg", &m, &extra(scan_comments(&first))).unwrap();
    assert_eq!(first, second);
}

#[test]
fn rendering_again_keeps_the_comments_of_every_section() {
    let source = "[dependencies]\n# n\nbar = \"1\"\n[dev-dependencies]\n# d1\n# d2\nbar = \"1\"\n[build-dependencies]\n# b\ncc = \"1\"\n";
    let mut m = manifest("foo", "0.1.0");
    m.dependencies.push(dep("bar", "^1"));
    let mut d = dep("bar", "^1");
    d.kind = DepKind::Development;
    m.dependencies.push(d);
    let mut b = dep("cc", "^1");
    b.kind = DepKind::Build;
    m.dependencies.push(b);
    let first = render_manifest("/pkg", &m, &extra(scan_comments(source))).unwrap();
    assert!(first.ends_with(
        "\n[dependencies]\n# n\nbar = \"1.0.0\"\n\n[dev-dependencies]\n# d1\n# d2\nbar = \"1.0.0\"\n\n[build-dependencies]\n# b\ncc = \"1.0.0\"\n"
    ));
    let second = render_manifest("/pkg", &m, &extra(scan_comments(&first))).unwrap();
    assert_eq!(first, second);
}

#[test]
fn features_in_their_order_without_the_dep_prefix() {
    let features = vec![
        Feature { name: "std".to_string(), specs: strings(&["dep:libc", "alloc", "serde/std"]) },
        Feature { name: "alloc".to_string(), specs: vec![] },
        Feature { name: "odd".to_string(), specs: strings(&["dep:", "xdep:y", "dep", "dep:dep:z"]) },
    ];
    assert_eq!(
        render_features(&features, &plain()),
        strings(&[
            "",
            "[features]",
            "std = [\"libc\", \"alloc\", \"serde/std\"]",
            "alloc = []",
            "odd = [\"\", \"xdep:y\", \"dep\", \"dep:z\"]",
        ])
    );
    assert_eq!(render_features(&vec![], &plain()), Vec::<String>::new());
}

fn entry(key: &str, value: MetaValue) -> MetaEntry {
    MetaEntry { key: key.to_string(), value }
}

fn scalar(text: &str) -> MetaValue {
    MetaValue::Scalar(text.to_string())
}

#[test]
fn metadata_is_flattened() {
    let table = vec![
        entry("top", scalar("1")),
        entry(
            "docs",
            MetaValue::Table(vec![
                entry("rs", MetaValue::Table(vec![entry("all-features", scalar("true"))])),
                entry("targets", MetaValue::Array(strings(&["\"a\"", "\"b\""]))),
            ]),
        ),
        entry("empty", MetaValue::Table(vec![])),
        entry("only-tables", MetaValue::Table(vec![entry("x", MetaValue::Table(vec![entry("y", scalar("\"z\""))]))])),
        entry("last", scalar("\"s\"")),
    ];
    assert_eq!(
        render_metadata("package.metadata", &table),
        strings(&[
            "",
            "[package.metadata]",
            "top = 1",
            "last = \"s\"",
            "",
            "[package.metadata.docs]",
            "targets = [\"a\", \"b\"]",
            "",
            "[package.metadata.docs.rs]",
            "all-features = true",
            "",
            "[package.metadata.only-tables.x]",
            "y = \"z\"",
        ])
    );
    assert_eq!(render_metadata("package.metadata", &vec![]), Vec::<String>::new());
}

#[test]
fn metadata_array_is_spread_when_its_line_is_long() {
    let item = format!("\"{}\"", "x".repeat(44));
    let key = "k";
    let flat = format!("{key} = [{item}, {item}]");
    assert_eq!(flat.chars().count(), 100);
    let table = vec![entry(key, MetaValue::Array(vec![item.clone(), item.clone()]))];
    assert_eq!(render_metadata("p", &table), vec!["".to_string(), "[p]".to_string(), flat]);
    let table = vec![entry("kk", MetaValue::Array(vec![item.clone(), item.clone()]))];
    assert_eq!(
        render_metadata("p", &table),
        vec![
            "".to_string(),
            "[p]".to_string(),
            "kk = [".to_string(),
            format!("    {item},"),
            format!("    {item},"),
            "]".to_string(),
        ]
    );
    let long = format!("\"{}\"", "y".repeat(200));
    let table = vec![entry("one", MetaValue::Array(vec![long.clone()]))];
    assert_eq!(
        render_metadata("p", &table),
        vec!["".to_string(), "[p]".to_string(), format!("one = [{long}]")]
    );
}

#[test]
fn width_is_counted_in_characters() {
    let item = format!("\"{}\"", "é".repeat(44));
    let flat = format!("k = [{item}, {item}]");
    assert_eq!(flat.chars().count(), 100);
    assert!(flat.len() > 100);
    let table = vec![entry("k", MetaValue::Array(vec![item.clone(), item.clone()]))];
    assert_eq!(render_metadata("p", &table), vec!["".to_string(), "[p]".to_string(), flat]);
}

#[test]
fn metadata_stands_between_package_and_targets() {
    let mut m = manifest("foo", "0.1.0");
    m.custom_metadata = Some(MetaValue::Table(vec![entry("k", scalar("1"))]));
    m.targets.push(target(TargetKind::Lib(vec![]), "foo", "/pkg/l.rs"));
    let out = render_manifest("/pkg", &m, &plain()).unwrap();
    assert_eq!(
        out,
        "[package]\nname = \"foo\"\nversion = \"0.1.0\"\nedition = \"2018\"\n\n[package.metadata]\nk = 1\n\n[lib]\npath = \"l.rs\"\n"
    );
    m.custom_metadata = Some(scalar("1"));
    m.targets.clear();
    let out = render_manifest("/pkg", &m, &plain()).unwrap();
    assert_eq!(out, "[package]\nname = \"foo\"\nversion = \"0.1.0\"\nedition = \"2018\"\n");
}

#[test]
fn rendering_again_from_its_own_output_changes_nothing() {
    let source = "[package]\nname = \"foo\"\n[dependencies]\n# a\n# b\nbar = \"1\"\n\n# c\nabc = \"1\"\n[target.'cfg(target_os = \"linux\")'.dependencies]\n# l\nlibc = \"1\"\n[features]\n# f\nfull = [\"bar\"]\n";
    let mut m = manifest("foo", "0.1.0");
    m.authors = strings(&["A", "B"]);
    m.description = Some("with \"quotes\"".to_string());
    m.targets.push(target(TargetKind::Bin, "tool", "/pkg/tool.rs"));
    m.dependencies.push(dep("bar", "^1"));
    m.dependencies.push(dep("abc", "^1"));
    let mut l = dep("libc", "^1");
    l.platform = platform("cfg(target_os = \"linux\")", 0);
    m.dependencies.push(l);
    let mut d = dep("quick", "^1");
    d.kind = DepKind::Development;
    m.dependencies.push(d);
    m.features.push(Feature { name: "full".to_string(), specs: strings(&["bar"]) });
    m.custom_metadata = Some(MetaValue::Table(vec![entry(
        "list",
        MetaValue::Array(vec![format!("\"{}\"", "x".repeat(60)), format!("\"{}\"", "y".repeat(60))]),
    )]));
    let first = render_manifest("/pkg", &m, &extra(scan_comments(source))).unwrap();
    assert!(first.contains("# a\n# b\nbar = \"1.0.0\"\n"));
    assert!(first.contains("# c\nabc = \"1.0.0\"\n"));
    assert!(first.contains("# l\nlibc = \"1.0.0\"\n"));
    assert!(first.contains("# f\nfull = [\"bar\"]\n"));
    let second = render_manifest("/pkg", &m, &extra(scan_comments(&first))).unwrap();
    assert_eq!(first, second);
}
