use manifmt::comments::{scan_comments, CommentMap};

fn block(map: &CommentMap, key: &str) -> Option<Vec<String>> {
    map.get(key).cloned()
}

fn strings(items: &[&str]) -> Vec<String> {
    items.iter().map(|s| s.to_string()).collect()
}

#[test]
fn comment_is_kept_under_table_and_key() {
    let map = scan_comments("[dependencies]\n# why\nfoo = \"1\"\n");
    assert_eq!(block(&map, "dependencies.foo"), Some(strings(&["# why"])));
}

#[test]
fn comment_block_of_several_lines() {
    let map = scan_comments("[features]\n# one\n  # two  \n#three\ndefault = []\n");
    assert_eq!(block(&map, "features.default"), Some(strings(&["# one", "# two", "#three"])));
    assert_eq!(map.lines("features.default"), strings(&["# one", "# two", "#three"]));
}

#[test]
fn key_without_comment_is_kept_with_nothing() {
    let map = scan_comments("[package]\nname = \"x\"\n");
    assert_eq!(block(&map, "package.name"), Some(vec![]));
    assert_eq!(block(&map, "package.version"), None);
    assert_eq!(map.lines("package.version"), Vec::<String>::new());
}

#[test]
fn blank_lines_do_not_part_a_comment_from_its_key() {
    let map = scan_comments("[dependencies]\n# note\n\n   \nfoo = \"1\"\n");
    assert_eq!(block(&map, "dependencies.foo"), Some(strings(&["# note"])));
}

#[test]
fn header_clears_pending_comment() {
    let map = scan_comments("# lost\n[dependencies]\nfoo = \"1\"\n");
    assert_eq!(block(&map, "dependencies.foo"), Some(vec![]));
}

#[test]
fn other_line_clears_pending_comment() {
    let map = scan_comments("[a]\n# lost\n\"quoted\" = 1\nb = 2\n");
    assert_eq!(block(&map, "a.b"), Some(vec![]));
}

#[test]
fn key_seen_again_replaces() {
    let map = scan_comments("[a]\n# first\nk = 1\n# second\nk = 2\n");
    assert_eq!(block(&map, "a.k"), Some(strings(&["# second"])));
    let map = scan_comments("[a]\n# first\nk = 1\nk = 2\n");
    assert_eq!(block(&map, "a.k"), Some(vec![]));
}

#[test]
fn table_name_is_taken_as_written() {
    let map = scan_comments("[target.'cfg(unix)'.dependencies]\n# u\nlibc = \"0.2\"\n");
    assert_eq!(block(&map, "target.'cfg(unix)'.dependencies.libc"), Some(strings(&["# u"])));
    let map = scan_comments("  [[bin]]  \n# b\nname = \"x\"\n");
    assert_eq!(block(&map, "[bin].name"), Some(strings(&["# b"])));
    let map = scan_comments("[]\nk = 1\n");
    assert_eq!(block(&map, ".k"), Some(vec![]));
}

#[test]
fn keys_before_any_header_have_an_empty_table() {
    let map = scan_comments("# top\nkey-1_x.y = 3");
    assert_eq!(block(&map, ".key-1_x"), Some(strings(&["# top"])));
}

#[test]
fn key_is_the_longest_run_of_key_characters() {
    let map = scan_comments("[t]\nabc-DEF_09é = 1\n");
    assert_eq!(block(&map, "t.abc-DEF_09"), Some(vec![]));
}

#[test]
fn carriage_returns_and_last_line_without_line_feed() {
    let map = scan_comments("[d]\r\n# c\r\nfoo = 1");
    assert_eq!(block(&map, "d.foo"), Some(strings(&["# c"])));
}

#[test]
fn unicode_white_space_is_trimmed() {
    let map = scan_comments("[d]\n\u{a0}\u{2003}# c\u{3000}\n\u{2028}foo = 1\n");
    assert_eq!(block(&map, "d.foo"), Some(strings(&["# c"])));
}

#[test]
fn any_text_gives_a_map() {
    let map = scan_comments("][\n=\n[\n]\n#\n\u{0}\n[[[x\n");
    assert_eq!(block(&map, ".x"), None);
    let map = scan_comments("");
    assert_eq!(block(&map, ""), None);
}

#[test]
fn lone_comment_sign_is_a_comment() {
    let map = scan_comments("[t]\n#\nk = 1\n");
    assert_eq!(block(&map, "t.k"), Some(strings(&["#"])));
}

#[test]
fn insert_and_get() {
    let mut map = CommentMap::new();
    assert_eq!(block(&map, "a.b"), None);
    map.insert("a.b".to_string(), strings(&["# x"]));
    map.insert("a.c".to_string(), strings(&["# y"]));
    map.insert("a.b".to_string(), strings(&["# z"]));
    assert_eq!(block(&map, "a.b"), Some(strings(&["# z"])));
    assert_eq!(block(&map, "a.c"), Some(strings(&["# y"])));
}

#[test]
fn white_space_is_what_char_says() {
    for code in (0..=0xffffu32).chain((0x10000..=0x10ffffu32).step_by(251)) {
        let Some(c) = char::from_u32(code) else { continue };
        if c == '\n' {
            continue;
        }
        let text = format!("[t]\n{c}k = 1{c}\n");
        let map = scan_comments(&text);
        assert_eq!(map.get("t.k").is_some(), c.is_whitespace(), "{code:x}");
    }
}

#[test]
fn key_characters_are_ascii_letters_digits_hyphen_and_underscore() {
    for code in (0..=0xffffu32).chain((0x10000..=0x10ffffu32).step_by(251)) {
        let Some(c) = char::from_u32(code) else { continue };
        let text = format!("[t]\nk{c}x = 1\n");
        let map = scan_comments(&text);
        let expected = c.is_ascii_alphanumeric() || c == '-' || c == '_';
        assert_eq!(map.get(&format!("t.k{c}x")).is_some(), expected, "{code:x}");
        assert_eq!(map.get("t.k").is_some(), !expected, "{code:x}");
    }
}
