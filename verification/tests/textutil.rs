use get_license_helper::text::{ends_with_str, find_str, lower_str, split_str, starts_with_str, str_eq};

#[test]
fn prefix_and_suffix_checks() {
    assert!(starts_with_str("https://gitlab.example.com", "https://gitlab."));
    assert!(!starts_with_str("https://example.com", "https://gitlab."));
    assert!(!starts_with_str("http", "https://gitlab."));
    assert!(ends_with_str("repo.git", ".git"));
    assert!(!ends_with_str("repo.gitx", ".git"));
    assert!(!ends_with_str("it", ".git"));
}

#[test]
fn string_equality() {
    assert!(str_eq("MIT", "MIT"));
    assert!(!str_eq("MIT", "MIT "));
    assert!(!str_eq("MIT", "MIX"));
    assert!(str_eq("", ""));
}

#[test]
fn leftmost_occurrence_is_found() {
    assert_eq!(find_str("a/tree/master/b/tree/master/c", "/tree/master/"), Some(1));
    assert_eq!(find_str("abc", "d"), None);
    assert_eq!(find_str("abc", ""), Some(0));
    assert_eq!(find_str("abc", "abcd"), None);
    assert_eq!(find_str("abcabc", "cab"), Some(2));
}

#[test]
fn splitting_on_the_separator() {
    let parts = split_str("MIT OR Apache-2.0 OR Zlib", " OR ");
    assert_eq!(parts, vec!["MIT".to_string(), "Apache-2.0".to_string(), "Zlib".to_string()]);
    let parts = split_str("MIT", " OR ");
    assert_eq!(parts, vec!["MIT".to_string()]);
    let parts = split_str("", " OR ");
    assert_eq!(parts, vec!["".to_string()]);
}

#[test]
fn ascii_lowercasing() {
    assert_eq!(lower_str("LICENSE-MIT.md"), "license-mit.md");
    assert_eq!(lower_str("already lower"), "already lower");
    assert_eq!(lower_str(""), "");
}
