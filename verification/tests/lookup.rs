use niniparse::INIContext;
use niniparse::INITree;

fn parse(text: &str) -> INITree {
    let mut buffer = String::from(text);
    INIContext::parse_string(&mut buffer, true).unwrap()
}

fn search(tree: &INITree, section: &str, key: &str) -> Option<String> {
    tree.search(section.to_string(), key.to_string())
}

#[test]
fn key_requested_before_it_appears() {
    let tree = parse("[s]\na=1\n");
    assert_eq!(search(&tree, "generaly", "a"), None);
}

#[test]
fn absent_key_not_found() {
    let tree = parse("[s]\na=1\n");
    assert_eq!(search(&tree, "s", "b"), None);
}

#[test]
fn absent_section_not_found() {
    let tree = parse("[s]\na=1\n");
    assert_eq!(search(&tree, "nope", "a"), None);
}

#[test]
fn reopened_section_is_additive() {
    let tree = parse("[s]\na=1\n[s]\nb=2\n");
    assert_eq!(search(&tree, "s", "a"), Some("1".to_string()));
    assert_eq!(search(&tree, "s", "b"), Some("2".to_string()));
}

#[test]
fn parse_twice_same_answers() {
    let text = "[s]\na=1\nb=2\n[t]\na=3\n";
    let first = parse(text);
    let second = parse(text);
    assert_eq!(first.leaf_count(), second.leaf_count());
    for i in 0..first.leaf_count() {
        let (t1, s1) = first.leaf(i);
        let (t2, s2) = second.leaf(i);
        assert!(t1 == t2);
        assert_eq!(s1, s2);
    }
    for (sec, key) in [("s", "a"), ("s", "b"), ("t", "a"), ("t", "b"), ("u", "a")] {
        assert_eq!(search(&first, sec, key), search(&second, sec, key));
    }
}

#[test]
fn key_flag_stays_set_across_sections() {
    // the deliberate quirk: the key matched in [a], and the flag is never
    // cleared, so the value in [b] answers for it
    let tree = parse("[a]\nx=1\n[b]\ny=2\n");
    assert_eq!(search(&tree, "b", "x"), Some("2".to_string()));
}

#[test]
fn section_flag_reevaluated_on_each_header() {
    // once [b] opens, the scan is no longer inside [a]
    let tree = parse("[a]\nx=1\n[b]\ny=2\n");
    assert_eq!(search(&tree, "a", "y"), None);
}

#[test]
fn first_qualifying_value_wins() {
    let tree = parse("[s]\nk=1\nk=2\n");
    assert_eq!(search(&tree, "s", "k"), Some("1".to_string()));
}

#[test]
fn default_section_keys_before_first_header() {
    let tree = parse("top=1\n[s]\ninner=2\n");
    assert_eq!(search(&tree, "generaly", "top"), Some("1".to_string()));
    assert_eq!(search(&tree, "s", "inner"), Some("2".to_string()));
}
