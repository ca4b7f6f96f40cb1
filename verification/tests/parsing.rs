use niniparse::INIContext;

fn parse(text: &str, strict: bool) -> Result<niniparse::INITree, usize> {
    let mut buffer = String::from(text);
    INIContext::parse_string(&mut buffer, strict)
}

#[test]
fn default_section_key_line() {
    let tree = parse("name=value\n", true).unwrap();
    assert_eq!(
        tree.search("generaly".to_string(), "name".to_string()),
        Some("value".to_string())
    );
}

#[test]
fn empty_input_default_section() {
    let tree = parse("", true).unwrap();
    assert_eq!(tree.leaf_count(), 1);
    let (tag, text) = tree.leaf(0);
    assert!(tag == INIContext::Section);
    assert_eq!(text, "generaly");
    assert_eq!(tree.search("generaly".to_string(), "anything".to_string()), None);
    let tree = parse("", false).unwrap();
    assert_eq!(tree.leaf_count(), 1);
}

#[test]
fn strict_rejects_at_offset() {
    assert_eq!(parse("key@=val\n", true).unwrap_err(), 3);
}

#[test]
fn lenient_drops_rejected_char() {
    let tree = parse("key@=val\n", false).unwrap();
    let (tag, text) = tree.leaf(1);
    assert!(tag == INIContext::Key);
    assert_eq!(text, "key");
    assert_eq!(
        tree.search("generaly".to_string(), "key".to_string()),
        Some("val".to_string())
    );
}

#[test]
fn crlf_section_tokens() {
    let tree = parse("[sec]\r\nk=v\r\n", true).unwrap();
    assert_eq!(tree.leaf_count(), 4);
    let expected = [
        (INIContext::Section, "generaly"),
        (INIContext::Section, "sec"),
        (INIContext::Key, "k"),
        (INIContext::Value, "v"),
    ];
    for (i, (tag, text)) in expected.iter().enumerate() {
        let (t, s) = tree.leaf(i);
        assert!(t == *tag);
        assert_eq!(s, *text);
    }
    assert_eq!(
        tree.search("sec".to_string(), "k".to_string()),
        Some("v".to_string())
    );
}

#[test]
fn truncated_value_dropped() {
    let tree = parse("k=v", true).unwrap();
    assert_eq!(tree.leaf_count(), 2);
    let (tag, text) = tree.leaf(1);
    assert!(tag == INIContext::Key);
    assert_eq!(text, "k");
    assert_eq!(tree.search("generaly".to_string(), "k".to_string()), None);
}

#[test]
fn comment_token_emitted_and_ignored() {
    let tree = parse("; note\r\nk=v\n", true).unwrap();
    assert_eq!(tree.leaf_count(), 4);
    let (tag, text) = tree.leaf(1);
    assert!(tag == INIContext::Comment);
    assert_eq!(text, " note");
    assert_eq!(
        tree.search("generaly".to_string(), "k".to_string()),
        Some("v".to_string())
    );
}

#[test]
fn strict_offset_counts_chars_not_bytes() {
    // the two-byte character sits inside the comment; the rejected '@' is the
    // fifth character even though it is the sixth byte
    assert_eq!(parse(";\u{e9}\nk@=v\n", true).unwrap_err(), 4);
}

#[test]
fn junk_after_section_header() {
    assert_eq!(parse("[s]x\ny=1\n", true).unwrap_err(), 3);
    let tree = parse("[s]x\ny=1\n", false).unwrap();
    assert_eq!(
        tree.search("s".to_string(), "y".to_string()),
        Some("1".to_string())
    );
}

#[test]
fn empty_value_kept() {
    let tree = parse("k=\n", true).unwrap();
    assert_eq!(
        tree.search("generaly".to_string(), "k".to_string()),
        Some("".to_string())
    );
}

#[test]
fn lenient_never_fails() {
    let tree = parse("@#!$\n", false).unwrap();
    assert_eq!(tree.leaf_count(), 1);
}

#[test]
fn buffer_left_unchanged() {
    let mut buffer = String::from("[s]\na=1\n");
    let _ = INIContext::parse_string(&mut buffer, true);
    assert_eq!(buffer, "[s]\na=1\n");
    let mut bad = String::from("k@=v\n");
    let _ = INIContext::parse_string(&mut bad, true);
    assert_eq!(bad, "k@=v\n");
}

#[test]
fn key_chars_beyond_alnum() {
    let tree = parse("a.b-c_d~e=1\n", true).unwrap();
    assert_eq!(
        tree.search("generaly".to_string(), "a.b-c_d~e".to_string()),
        Some("1".to_string())
    );
}

#[test]
fn strict_rejects_key_start_with_symbol() {
    // a key may only start with a letter or digit
    assert_eq!(parse(".k=v\n", true).unwrap_err(), 0);
}
