use rust_utils::fs::{matches_pattern, should_exclude};

fn patterns(items: &[&str]) -> Vec<String> {
    items.iter().map(|item| item.to_string()).collect()
}

#[test]
fn test_matches_pattern() {
    assert!(matches_pattern("file.log", "*.log"));
    assert!(matches_pattern("test.txt", "test.*"));
    assert!(matches_pattern("var/log/test.log", "var/log/*"));
    assert!(!matches_pattern("file.txt", "*.log"));
    assert!(matches_pattern("exact/match", "exact/match"));
}

#[test]
fn test_matches_pattern_edge_cases() {
    // Empty pattern
    assert!(!matches_pattern("file.txt", ""));

    // Pattern with only asterisk
    assert!(matches_pattern("anything", "*"));

    // Multiple asterisks (fallback to exact match)
    assert!(!matches_pattern("a.b.c", "a*b*c"));

    // Substring matching
    assert!(matches_pattern("path/to/file", "path/to"));
    assert!(matches_pattern("long/path/name", "path"));

    // Case sensitivity
    assert!(!matches_pattern("File.LOG", "*.log"));
    assert!(matches_pattern("file.log", "*.log"));
}

#[test]
fn test_should_exclude() {
    let patterns = vec!["*.log".to_string(), "tmp/*".to_string()];

    assert!(should_exclude("test.log", &patterns));
    assert!(should_exclude("tmp/file.txt", &patterns));
    assert!(!should_exclude("test.txt", &patterns));
    assert!(!should_exclude("src/main.rs", &patterns));
}

#[test]
fn test_should_exclude_empty_patterns() {
    let patterns: Vec<String> = vec![];
    assert!(!should_exclude("any/file", &patterns));
}

#[test]
fn test_should_exclude_multiple_patterns() {
    let patterns = vec![
        "*.log".to_string(),
        "tmp/*".to_string(),
        "*.sock".to_string(),
        "var/cache/*".to_string(),
    ];

    assert!(should_exclude("app.log", &patterns));
    assert!(should_exclude("tmp/temp.txt", &patterns));
    assert!(should_exclude("server.sock", &patterns));
    assert!(should_exclude("var/cache/data", &patterns));
    assert!(!should_exclude("src/main.rs", &patterns));
}

#[test]
fn exclusion_examples() {
    assert!(should_exclude("file.log", &patterns(&["*.log"])));
    assert!(!should_exclude("src/main.x", &patterns(&["*.log"])));
    assert!(!should_exclude("anything", &patterns(&[])));
}

#[test]
fn pattern_with_several_stars_is_taken_literally() {
    assert!(matches_pattern("a*b*c", "a*b*c"));
    assert!(!matches_pattern("axbxc", "a*b*c"));
    assert!(!matches_pattern("abc", "a*b*c"));
    assert!(matches_pattern("**", "**"));
    assert!(!matches_pattern("anything", "**"));
    assert!(!matches_pattern("xx/a*b*c/yy", "a*b*c"));
}

#[test]
fn prefix_and_suffix_are_tested_independently() {
    // Both hold on overlapping parts of a path shorter than the two together.
    assert!(matches_pattern("aba", "ab*ba"));
    assert!(matches_pattern("abba", "ab*ba"));
    assert!(matches_pattern("ab..ba", "ab*ba"));
    assert!(!matches_pattern("ab", "ab*ba"));
    assert!(!matches_pattern("ba", "ab*ba"));
    assert!(!matches_pattern("xab..ba", "ab*ba"));
    assert!(!matches_pattern("ab..bax", "ab*ba"));
}

#[test]
fn one_star_needs_the_prefix_at_the_start_and_the_suffix_at_the_end() {
    assert!(matches_pattern("tmp/", "tmp/*"));
    assert!(!matches_pattern("a/tmp/b", "tmp/*"));
    assert!(matches_pattern(".log", "*.log"));
    assert!(!matches_pattern("file.log.bak", "*.log"));
    assert!(!matches_pattern("log", "*.log"));
    assert!(matches_pattern("", "*"));
}

#[test]
fn pattern_without_star_matches_anywhere_in_the_path() {
    assert!(matches_pattern("a/tmp/b", "tmp"));
    assert!(matches_pattern("tmp", "tmp"));
    assert!(matches_pattern("a/b/tmp", "tmp"));
    assert!(matches_pattern("attempt", "tmp") == false);
    assert!(matches_pattern("xtmpx", "tmp"));
    assert!(!matches_pattern("tm", "tmp"));
    assert!(!matches_pattern("", "tmp"));
    assert!(!matches_pattern("t/m/p", "tmp"));
}

#[test]
fn empty_pattern_matches_nothing() {
    assert!(!matches_pattern("", ""));
    assert!(!matches_pattern("a", ""));
    assert!(!should_exclude("a", &patterns(&[""])));
    assert!(should_exclude("a", &patterns(&["", "a"])));
}

#[test]
fn matching_goes_by_characters_and_case() {
    assert!(matches_pattern("données/été.log", "*été.log"));
    assert!(matches_pattern("données/été.log", "données/*"));
    assert!(matches_pattern("données/été.log", "/été"));
    assert!(!matches_pattern("données/ete.log", "été"));
    assert!(!matches_pattern("TMP", "tmp"));
    assert!(!matches_pattern("file.LOG", "*.log"));
}

#[test]
fn any_matching_pattern_excludes() {
    let list = patterns(&["*.sock", "cache", "a*b*c"]);
    assert!(should_exclude("run/server.sock", &list));
    assert!(should_exclude("var/cache/x", &list));
    assert!(should_exclude("a*b*c", &list));
    assert!(!should_exclude("var/lib/x", &list));
    // The last pattern alone decides here.
    assert!(should_exclude("last", &patterns(&["first", "second", "last"])));
}
