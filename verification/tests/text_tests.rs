use minios::text::contains_pattern;

#[test]
fn contains_exact_match() {
    assert!(contains_pattern("hello world", "world"));
}

#[test]
fn contains_at_start() {
    assert!(contains_pattern("hello", "hel"));
}

#[test]
fn contains_not_found() {
    assert!(!contains_pattern("hello", "xyz"));
}

#[test]
fn contains_empty_pattern() {
    assert!(contains_pattern("hello", ""));
}

#[test]
fn contains_pattern_longer_than_haystack() {
    assert!(!contains_pattern("hi", "hello"));
}
