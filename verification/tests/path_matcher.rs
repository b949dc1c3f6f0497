use file_watcher::matcher::{PathMatcher, MAX_PATTERN_LEN, TOO_LONG};
use file_watcher::paths::relativize;

#[test]
fn star_does_not_cross_directories() {
    let relative = relativize("/proj", "/proj/src/app.scss");
    assert_eq!(relative, "src/app.scss");
    let matcher = PathMatcher::compile("*.scss").unwrap();
    assert!(!matcher.is_match(&relative));
    assert!(matcher.is_match("app.scss"));
}

#[test]
fn recursive_wildcard_crosses_directories() {
    let relative = relativize("/proj", "/proj/src/app.scss");
    let matcher = PathMatcher::compile("**/*.scss").unwrap();
    assert!(matcher.is_match(&relative));
    assert!(matcher.is_match("app.scss"));
    assert!(matcher.is_match("a/b/c/app.scss"));
    assert!(!matcher.is_match("a/b/c/app.css"));
}

#[test]
fn question_mark_matches_one_character_of_a_component() {
    let matcher = PathMatcher::compile("src/?.ts").unwrap();
    assert!(matcher.is_match("src/a.ts"));
    assert!(!matcher.is_match("src/ab.ts"));
    assert!(!matcher.is_match("src//.ts"));
}

#[test]
fn literal_directory_prefix_is_matched() {
    let matcher = PathMatcher::compile("src/**/*.ts").unwrap();
    assert!(matcher.is_match("src/a/b.ts"));
    assert!(matcher.is_match("src/b.ts"));
    assert!(!matcher.is_match("lib/b.ts"));
}

#[test]
fn matching_is_case_sensitive() {
    let matcher = PathMatcher::compile("*.scss").unwrap();
    assert!(!matcher.is_match("APP.SCSS"));
}

#[test]
fn same_pattern_and_path_always_give_the_same_answer() {
    let first = PathMatcher::compile("**/_*.scss").unwrap();
    let second = PathMatcher::compile("**/_*.scss").unwrap();
    for path in ["src/_a.scss", "src/a.scss", "_a.scss", "x/y/_z.scss", ""] {
        let answer = first.is_match(path);
        assert_eq!(first.is_match(path), answer);
        assert_eq!(second.is_match(path), answer);
    }
}

#[test]
fn matcher_keeps_its_pattern() {
    let matcher = PathMatcher::compile("src/**/*.ts").unwrap();
    assert_eq!(matcher.pattern(), "src/**/*.ts");
}

#[test]
fn unclosed_class_is_an_invalid_pattern() {
    let invalid = PathMatcher::compile("[abc").unwrap_err();
    assert!(invalid.reason.contains("unclosed character class"));
    assert!(invalid.reason.contains("[abc"));
}

#[test]
fn unclosed_alternates_are_an_invalid_pattern() {
    let unclosed = PathMatcher::compile("{a,b").unwrap_err();
    assert!(unclosed.reason.contains("unclosed alternate group"));
    let unopened = PathMatcher::compile("a,b}").unwrap_err();
    assert!(unopened.reason.contains("unopened alternate group"));
}

#[test]
fn reversed_range_is_an_invalid_pattern() {
    let invalid = PathMatcher::compile("[z-a]").unwrap_err();
    assert!(invalid.reason.contains("invalid range"));
}

#[test]
fn pattern_over_the_limit_is_invalid_as_too_long() {
    let pattern = "a".repeat(MAX_PATTERN_LEN + 1);
    let invalid = PathMatcher::compile(&pattern).unwrap_err();
    assert_eq!(invalid.reason, TOO_LONG);
}

#[test]
fn pattern_at_the_limit_compiles() {
    let pattern = "a".repeat(MAX_PATTERN_LEN);
    let matcher = PathMatcher::compile(&pattern).unwrap();
    assert!(matcher.is_match(&pattern));
    assert!(!matcher.is_match("a"));
}

#[test]
fn limit_counts_characters_not_bytes() {
    let pattern = "é".repeat(MAX_PATTERN_LEN);
    assert!(PathMatcher::compile(&pattern).is_ok());
}

#[test]
fn braces_nested_deeper_than_the_compiler_allows_are_refused_not_fatal() {
    let mut pattern = String::new();
    for _ in 0..1000 {
        pattern.push('{');
    }
    pattern.push('a');
    for _ in 0..1000 {
        pattern.push('}');
    }
    let invalid = PathMatcher::compile(&pattern).unwrap_err();
    assert!(!invalid.reason.is_empty());
    assert!(invalid.reason != TOO_LONG);
}

#[test]
fn wildcards_at_the_limit_compile() {
    let pattern = "*a".repeat(MAX_PATTERN_LEN / 2);
    assert!(pattern.chars().count() <= MAX_PATTERN_LEN);
    let matcher = PathMatcher::compile(&pattern).unwrap();
    assert!(matcher.is_match(&"a".repeat(MAX_PATTERN_LEN / 2)));
    assert!(!matcher.is_match("b"));
}
