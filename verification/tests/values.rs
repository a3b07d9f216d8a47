use manifmt::array::{flat_items, pretty_items, toml_flat_array, toml_pretty_array};
use manifmt::quote::toml_str;
use manifmt::text::{join_lines, str_eq, str_le};
use manifmt::version::toml_version;

fn strings(items: &[&str]) -> Vec<String> {
    items.iter().map(|s| s.to_string()).collect()
}

#[test]
fn plain_string_is_double_quoted() {
    assert_eq!(toml_str("hello"), "\"hello\"");
    assert_eq!(toml_str(""), "\"\"");
}

#[test]
fn double_quote_alone_gives_literal_string() {
    assert_eq!(toml_str("say \"hi\""), "'say \"hi\"'");
}

#[test]
fn both_quotes_give_escaped_basic_string() {
    assert_eq!(toml_str("it's \"so\""), "\"it's \\\"so\\\"\"");
}

#[test]
fn single_quote_alone_stays_basic() {
    assert_eq!(toml_str("it's"), "\"it's\"");
}

#[test]
fn short_escapes() {
    assert_eq!(toml_str("a\u{8}b"), "\"a\\bb\"");
    assert_eq!(toml_str("a\tb"), "\"a\\tb\"");
    assert_eq!(toml_str("a\nb"), "\"a\\nb\"");
    assert_eq!(toml_str("a\u{c}b"), "\"a\\fb\"");
    assert_eq!(toml_str("a\rb"), "\"a\\rb\"");
    assert_eq!(toml_str("a\\b"), "\"a\\\\b\"");
}

#[test]
fn control_characters_are_written_in_hexadecimal() {
    assert_eq!(toml_str("\u{0}"), "\"\\u0000\"");
    assert_eq!(toml_str("\u{1}"), "\"\\u0001\"");
    assert_eq!(toml_str("\u{b}"), "\"\\u000B\"");
    assert_eq!(toml_str("\u{1a}"), "\"\\u001A\"");
    assert_eq!(toml_str("\u{1e}"), "\"\\u001E\"");
}

#[test]
fn unit_separator_and_delete_stand_for_themselves() {
    assert_eq!(toml_str("\u{1f}"), "\"\u{1f}\"");
    assert_eq!(toml_str("\u{7f}"), "\"\u{7f}\"");
}

#[test]
fn literal_string_escapes_nothing() {
    assert_eq!(toml_str("a\"\\\n"), "'a\"\\\n'");
}

#[test]
fn non_ascii_text_is_kept() {
    assert_eq!(toml_str("größe ✓"), "\"größe ✓\"");
}

#[test]
fn caret_requirements_are_completed() {
    assert_eq!(toml_version("^1.2"), "\"1.2.0\"");
    assert_eq!(toml_version("^2"), "\"2.0.0\"");
    assert_eq!(toml_version("^1.0"), "\"1.0.0\"");
    assert_eq!(toml_version("^0.3.17"), "\"0.3.17\"");
}

#[test]
fn other_requirements_are_kept() {
    assert_eq!(toml_version(">=1.0, <2.0"), "\">=1.0, <2.0\"");
    assert_eq!(toml_version("*"), "\"*\"");
    assert_eq!(toml_version("~1.2"), "\"~1.2\"");
    assert_eq!(toml_version("=1.2.3"), "\"=1.2.3\"");
    assert_eq!(toml_version("^"), "\"^\"");
    assert_eq!(toml_version("^x"), "\"^x\"");
}

#[test]
fn requirements_through_semver() {
    let caret = semver::VersionReq::parse("1.2").unwrap().to_string();
    assert_eq!(caret, "^1.2");
    assert_eq!(toml_version(&caret), "\"1.2.0\"");
    let range = semver::VersionReq::parse(">=1.0, <2.0").unwrap().to_string();
    assert_eq!(toml_version(&range), "\">=1.0, <2.0\"");
    let any = semver::VersionReq::STAR.to_string();
    assert_eq!(toml_version(&any), "\"*\"");
}

#[test]
fn only_a_whole_caret_requirement_is_rewritten() {
    assert_eq!(toml_version("^1.2, <1.5"), "\"^1.2, <1.5\"");
    assert_eq!(toml_version(">=1, ^2.5"), "\">=1, ^2.5\"");
    assert_eq!(toml_version("^1.2.3-beta"), "\"^1.2.3-beta\"");
    assert_eq!(toml_version("^1.2.3+build"), "\"^1.2.3+build\"");
    assert_eq!(toml_version("^1.x"), "\"^1.x\"");
    assert_eq!(toml_version("^1.2."), "\"^1.2.\"");
    assert_eq!(toml_version("^1.2.3.4"), "\"^1.2.3.4\"");
    assert_eq!(toml_version("^^3"), "\"^^3\"");
    assert_eq!(toml_version(" ^3"), "\" ^3\"");
    assert_eq!(toml_version("^3 "), "\"^3 \"");
}

#[test]
fn compound_requirement_through_semver_keeps_every_comparator() {
    let req = semver::VersionReq::parse("^1.2, <1.5").unwrap().to_string();
    assert_eq!(req, "^1.2, <1.5");
    assert_eq!(toml_version(&req), "\"^1.2, <1.5\"");
}

fn by_pattern(req: &str) -> String {
    let pattern = regex::Regex::new(
        r#"\A\^(?P<major>[0-9]+)(\.(?P<minor>[0-9]+)(\.(?P<patch>[0-9]+))?)?\z"#,
    )
    .unwrap();
    match pattern.captures(req) {
        Some(caps) => format!(
            "\"{}.{}.{}\"",
            caps.name("major").map_or("0", |m| m.as_str()),
            caps.name("minor").map_or("0", |m| m.as_str()),
            caps.name("patch").map_or("0", |m| m.as_str())
        ),
        None => toml_str(req),
    }
}

#[test]
fn versions_agree_with_the_pattern() {
    let samples = [
        "", "^", "^1", "^1.", "^1.2", "^1.2.", "^1.2.3", "^1.2.3.4", "^01.002.0003", "1.2.3",
        "^a", "a^1", "^.1", "^1..2", "^1.2..3", ">=1.0, <2.0", "~1", "*", "^1, ^2", "^x ^3.4",
        "^١", "^1.٢", "\"^1\"", "^1.2.3-alpha.1", "^1.2.3+build", "=1.2.3", " ^ 1", "^^", "^^1.1",
        "^1\n", "^1.2\n", "\n^1", "^12345678901234567890.0.1", "^0", "^0.0", "^0.0.0",
    ];
    for s in samples {
        assert_eq!(toml_version(s), by_pattern(s), "{s:?}");
    }
}

#[test]
fn flat_arrays() {
    assert_eq!(toml_flat_array(&strings(&[])), "[]");
    assert_eq!(toml_flat_array(&strings(&["a"])), "[\"a\"]");
    assert_eq!(toml_flat_array(&strings(&["a", "b", "c"])), "[\"a\", \"b\", \"c\"]");
    assert_eq!(flat_items(&strings(&["1", "2.5", "true"])), "[1, 2.5, true]");
}

#[test]
fn pretty_arrays() {
    assert_eq!(toml_pretty_array(&strings(&[])), "[]");
    assert_eq!(toml_pretty_array(&strings(&["A"])), "[\"A\"]");
    assert_eq!(
        toml_pretty_array(&strings(&["A", "B", "C"])),
        "[\n    \"A\",\n    \"B\",\n    \"C\",\n]"
    );
    assert_eq!(pretty_items(&strings(&["1", "2"])), "[\n    1,\n    2,\n]");
}

#[test]
fn lines_are_joined_with_line_feeds() {
    assert_eq!(join_lines(&strings(&[])), "");
    assert_eq!(join_lines(&strings(&["a", "", "b"])), "a\n\nb\n");
}

#[test]
fn strings_compare_as_str_does() {
    let samples = ["", "a", "ab", "b", "B", "a-b", "a_b", "é", "z", "ab\u{10000}", "ab\u{ffff}"];
    for a in samples {
        for b in samples {
            assert_eq!(str_le(a, b), a <= b, "{a:?} {b:?}");
            assert_eq!(str_eq(a, b), a == b);
        }
    }
}
