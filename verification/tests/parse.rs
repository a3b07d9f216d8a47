use manifmt::comments::CommentMap;
use manifmt::extra::{extra_from, parse_manifest, ParseError};

#[test]
fn switches_are_on_unless_switched_off() {
    let extra = parse_manifest("[package]\nname = \"x\"\n").unwrap();
    assert!(extra.autobenches && extra.autobins && extra.autoexamples && extra.autotests);
    let extra = parse_manifest("[package]\nautobins = false\nautotests = false\n").unwrap();
    assert!(extra.autobenches && !extra.autobins && extra.autoexamples && !extra.autotests);
    let extra = parse_manifest("[package]\nautobenches = false\nautoexamples = false\n").unwrap();
    assert!(!extra.autobenches && extra.autobins && !extra.autoexamples && extra.autotests);
}

#[test]
fn switch_that_is_no_boolean_is_on() {
    let extra = parse_manifest("[package]\nautobins = \"false\"\nautotests = 0\n").unwrap();
    assert!(extra.autobins && extra.autotests);
    let extra = parse_manifest("package = 3\n").unwrap();
    assert!(extra.autobins && extra.autotests && extra.autobenches && extra.autoexamples);
}

#[test]
fn switches_elsewhere_do_not_count() {
    let extra = parse_manifest("autobins = false\n[package]\nname = \"x\"\n[lib]\nautotests = false\n")
        .unwrap();
    assert!(extra.autobins && extra.autotests);
}

#[test]
fn comments_come_with_the_switches() {
    let extra = parse_manifest("[package]\nname = \"x\"\n[dependencies]\n# c\nfoo = \"1\"\n").unwrap();
    assert_eq!(extra.comments.lines("dependencies.foo"), vec!["# c".to_string()]);
}

#[test]
fn text_that_is_no_document() {
    match parse_manifest("[package\nname = ") {
        Err(ParseError::Syntax { message }) => assert!(!message.is_empty()),
        other => panic!("{:?}", other.map(|_| ())),
    }
}

#[test]
fn document_without_package() {
    assert!(matches!(parse_manifest("[lib]\nname = \"x\"\n"), Err(ParseError::NoPackage)));
    assert!(matches!(parse_manifest(""), Err(ParseError::NoPackage)));
}

#[test]
fn extra_from_a_document() {
    let mut package = toml::Table::new();
    package.insert("autobins".to_string(), toml::Value::Boolean(false));
    package.insert("autotests".to_string(), toml::Value::Boolean(true));
    let mut doc = toml::Table::new();
    doc.insert("package".to_string(), toml::Value::Table(package));
    let extra = extra_from(&toml::Value::Table(doc), CommentMap::new()).unwrap();
    assert!(!extra.autobins && extra.autotests && extra.autobenches && extra.autoexamples);
    assert!(extra_from(&toml::Value::Boolean(true), CommentMap::new()).is_none());
    assert!(extra_from(&toml::Value::Table(toml::Table::new()), CommentMap::new()).is_none());
}
