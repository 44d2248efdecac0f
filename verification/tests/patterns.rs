use namefmt::pattern::matches_pattern;

#[test]
fn star_matches_prefix_and_suffix() {
    assert!(matches_pattern("error.log", "*.log"));
    assert!(!matches_pattern("error.logger", "*.log"));
    assert!(matches_pattern("test_main.rs", "test_*"));
    assert!(!matches_pattern("main_test.rs", "test_*"));
    assert!(matches_pattern("a.txt", "a*.txt"));
    assert!(matches_pattern("anything", "*"));
    assert!(matches_pattern("", "*"));
}

#[test]
fn star_lets_prefix_and_suffix_overlap() {
    assert!(matches_pattern("aba", "ab*ba"));
    assert!(matches_pattern("a", "a*a"));
    assert!(!matches_pattern("ab", "abc*"));
    assert!(!matches_pattern("ab", "*cab"));
}

#[test]
fn plain_pattern_is_contained() {
    assert!(matches_pattern("my_component.rs", "component"));
    assert!(matches_pattern("component", "component"));
    assert!(!matches_pattern("compon", "component"));
    assert!(!matches_pattern("my_file.rs", "component"));
    assert!(matches_pattern("anything", ""));
    assert!(matches_pattern("", ""));
    assert!(matches_pattern("xxab", "ab"));
}

#[test]
fn two_stars_match_nothing() {
    assert!(!matches_pattern("error.log", "*.*"));
    assert!(!matches_pattern("**", "**"));
    assert!(!matches_pattern("abc", "a*b*c"));
}
