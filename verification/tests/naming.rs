use agentlane::naming::{default_name, fresh_id, name_from_base};

#[test]
fn ids_are_random_uuids() {
    let a = fresh_id();
    let b = fresh_id();
    assert_ne!(a, b);
    assert_eq!(a.len(), 36);
    assert_eq!(a.as_bytes()[14], b'4');
    assert!("89ab".contains(a.chars().nth(19).unwrap()));
    for (i, c) in a.chars().enumerate() {
        if [8, 13, 18, 23].contains(&i) {
            assert_eq!(c, '-');
        } else {
            assert!(c.is_ascii_digit() || ('a'..='f').contains(&c));
        }
    }
}

#[test]
fn a_name_ends_with_the_start_of_the_id() {
    assert_eq!(default_name("/home/me/proj", "abcdef"), "proj-abcd");
    assert_eq!(default_name("/home/me/proj/", "ab"), "proj-ab");
    assert_eq!(default_name("/", "abcdef"), "session-abcd");
    for (path, base) in [
        ("a/b/./", "b"),
        ("a//.", "a"),
        ("x", "x"),
        ("./x", "x"),
        ("", "session"),
        (".", "session"),
        ("./.", "session"),
        ("/.", "session"),
        ("a/..", "session"),
        ("a/../", "session"),
        ("a/...", "..."),
        ("a b/c d", "c d"),
    ] {
        assert_eq!(default_name(path, "abcdef"), format!("{base}-abcd"));
    }
    // A backslash separates on some platforms only; the end is the same on all.
    for path in ["C:\\path\\to\\project", "C:project", "a\\b/project"] {
        let name = default_name(path, "abcdef");
        assert!(name.ends_with("project-abcd"));
    }
    assert_eq!(name_from_base(&None, "xy"), "session-xy");
    assert_eq!(name_from_base(&Some("b".to_string()), "12345"), "b-1234");
}
