use manifmt::comments::CommentMap;
use manifmt::extra::ManifestExtra;
use manifmt::model::{DepKind, Dependency, Platform, Source};
use manifmt::sections::render_dependencies;

fn dep(name: &str, platform: Option<Platform>) -> Dependency {
    Dependency {
        name_in_toml: name.to_string(),
        package_name: name.to_string(),
        version_req: "*".to_string(),
        source: Source::Registry,
        kind: DepKind::Normal,
        platform,
        default_features: true,
        features: vec![],
        optional: false,
    }
}

fn ranked(texts: &[&str]) -> Vec<Platform> {
    let parsed: Vec<cargo_platform::Platform> = texts.iter().map(|t| t.parse().unwrap()).collect();
    parsed
        .iter()
        .map(|p| Platform {
            text: p.to_string(),
            rank: parsed.iter().filter(|other| *other < p).count() as u64,
        })
        .collect()
}

#[test]
fn platforms_ranked_by_cargo_stand_in_cargo_s_order() {
    let platforms = ranked(&[
        "cfg(target_os = \"linux\")",
        "x86_64-pc-windows-gnu",
        "cfg(windows)",
        "aarch64-apple-darwin",
        "cfg(all(unix, not(target_os = \"macos\")))",
        "cfg(not(windows))",
        "cfg(windows)",
    ]);
    let mut deps = Vec::new();
    for (i, p) in platforms.into_iter().enumerate() {
        deps.push(dep(&format!("d{i}"), Some(p)));
    }
    deps.push(dep("plain", None));
    let extra = ManifestExtra {
        autobenches: true,
        autobins: true,
        autoexamples: true,
        autotests: true,
        comments: CommentMap::new(),
    };
    let lines = render_dependencies("/pkg", &deps, &extra).unwrap();
    let headers: Vec<&str> =
        lines.iter().filter(|l| l.starts_with('[')).map(|l| l.as_str()).collect();
    assert_eq!(
        headers,
        vec![
            "[dependencies]",
            "[target.\"aarch64-apple-darwin\".dependencies]",
            "[target.\"x86_64-pc-windows-gnu\".dependencies]",
            "[target.\"cfg(not(windows))\".dependencies]",
            "[target.'cfg(all(unix, not(target_os = \"macos\")))'.dependencies]",
            "[target.\"cfg(windows)\".dependencies]",
            "[target.'cfg(target_os = \"linux\")'.dependencies]",
        ]
    );
    let under_windows: Vec<&str> = lines
        .iter()
        .skip_while(|l| l.as_str() != "[target.\"cfg(windows)\".dependencies]")
        .skip(1)
        .take_while(|l| !l.is_empty())
        .map(|l| l.as_str())
        .collect();
    assert_eq!(under_windows, vec!["d2 = \"*\"", "d6 = \"*\""]);
}
