use syncopy::paths::{is_ancestor_of, normalize, rel_name, split_container};

#[test]
fn normalize_strips_trailing_separators() {
    assert_eq!(normalize(&"docs/".to_string()), "docs");
    assert_eq!(normalize(&"docs///".to_string()), "docs");
    assert_eq!(normalize(&"docs".to_string()), "docs");
    assert_eq!(normalize(&"/".to_string()), "/");
    assert_eq!(normalize(&"///".to_string()), "/");
    assert_eq!(normalize(&"".to_string()), "");
}

#[test]
fn split_container_of_nested_path() {
    let (container, name) = split_container(&"a/b".to_string());
    assert_eq!(container, "a");
    assert_eq!(name, "b");
}

#[test]
fn split_container_of_absolute_path() {
    let (container, name) = split_container(&"/home/me/docs".to_string());
    assert_eq!(container, "/home/me");
    assert_eq!(name, "docs");
}

#[test]
fn split_container_of_root_anchored_name() {
    let (container, name) = split_container(&"/abc".to_string());
    assert_eq!(container, "/");
    assert_eq!(name, "abc");
}

#[test]
fn split_container_of_bare_name() {
    let (container, name) = split_container(&"readme.txt".to_string());
    assert_eq!(container, "");
    assert_eq!(name, "readme.txt");
}

#[test]
fn split_container_of_root_suppresses_name() {
    let (container, name) = split_container(&"/".to_string());
    assert_eq!(container, "/");
    assert_eq!(name, "");
}

#[test]
fn rel_name_strips_the_container() {
    assert_eq!(rel_name("a", "a/b/c"), Some("b/c".to_string()));
    assert_eq!(rel_name("", "x"), Some("x".to_string()));
    assert_eq!(rel_name("/", "/x"), Some("x".to_string()));
    assert_eq!(rel_name("/home/me", "/home/me/docs/f.txt"), Some("docs/f.txt".to_string()));
}

#[test]
fn rel_name_refuses_non_ancestors() {
    assert_eq!(rel_name("a", "ab/c"), None);
    assert_eq!(rel_name("a/b", "a/b"), None);
    assert_eq!(rel_name("x", "y/z"), None);
}

#[test]
fn ancestor_relation() {
    assert!(is_ancestor_of("a", "a/b"));
    assert!(is_ancestor_of("", "anything"));
    assert!(is_ancestor_of("/", "/x"));
    assert!(!is_ancestor_of("/", "/"));
    assert!(!is_ancestor_of("a", "ab"));
    assert!(!is_ancestor_of("a/b", "a/b"));
}
