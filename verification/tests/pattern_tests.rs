use hotspot_analyzer::pattern::glob_to_regex;
use hotspot_analyzer::pattern::PathPattern;
use hotspot_analyzer::pattern::PatternSet;

#[test]
fn test_glob_to_regex() {
    let test_cases = [
        ("*.py", "^[^/]*\\.py$"),
        ("src/*.rs", "^src/[^/]*\\.rs$"),
        ("**/*.js", "^.*/[^/]*\\.js$"),
        ("src/**/*.ts", "^src/.*/[^/]*\\.ts$"),
        ("doc/*.md", "^doc/[^/]*\\.md$"),
        ("test/**", "^test/.*$"),
        ("**.txt", "^.*\\.txt$"),
    ];

    for (input, expected) in test_cases {
        let result = glob_to_regex(input);
        assert_eq!(
            result, expected,
            "Pattern '{}' should convert to '{}', but got '{}'",
            input, expected, result
        );
    }
}

#[test]
fn test_glob_to_regex_special_cases() {
    let test_cases = [
        ("doc/(a|b).md", "^doc/\\(a\\|b\\)\\.md$"),
        ("**/*.min.*", "^.*/[^/]*\\.min\\.[^/]*$"),
        (".gitignore", "^\\.gitignore$"),
        ("*.config.js", "^[^/]*\\.config\\.js$"),
        (
            "src/**/test/**/*.spec.js",
            "^src/.*/test/.*/[^/]*\\.spec\\.js$",
        ),
    ];

    for (input, expected) in test_cases {
        let result = glob_to_regex(input);
        assert_eq!(
            result, expected,
            "Pattern '{}' should convert to '{}', but got '{}'",
            input, expected, result
        );

        assert!(
            regex::Regex::new(&result).is_ok(),
            "Generated regex '{}' is invalid",
            result
        );
    }
}

#[test]
fn test_should_include_file() {
    let patterns = PatternSet::from_regexes(
        &vec!["^.*\\.rs$".to_string(), "^src/.*\\.toml$".to_string()],
        &vec!["^target/.*$".to_string()],
    )
    .unwrap();

    assert!(patterns.should_include_file("src/main.rs"));
    assert!(patterns.should_include_file("src/config.toml"));
    assert!(!patterns.should_include_file("src/main.py"));
    assert!(!patterns.should_include_file("target/debug/main.rs"));
}

#[test]
fn test_should_include_file_edge_cases() {
    let patterns = PatternSet::from_regexes(
        &vec!["^.*\\.(rs|toml)$".to_string(), "^src/.*$".to_string()],
        &vec![
            "^target/.*$".to_string(),
            "^.*\\.generated\\..*$".to_string(),
        ],
    )
    .unwrap();

    assert!(patterns.should_include_file("src/"));
    assert!(patterns.should_include_file("src/module/file.rs"));
    assert!(patterns.should_include_file("config.toml"));
    assert!(!patterns.should_include_file(""));
    assert!(!patterns.should_include_file("target/debug/file.rs"));
}

#[test]
fn test_git_repository_with_empty_patterns() {
    let patterns = PatternSet::from_regexes(&vec![], &vec![]).unwrap();

    assert!(patterns.should_include_file("any_file.txt"));
    assert!(patterns.should_include_file("src/main.rs"));
    assert!(patterns.should_include_file("deeply/nested/path/file.js"));
}

#[test]
fn invalid_regex_text_is_reported() {
    let result = PathPattern::from_regex_source("(".to_string());
    match result {
        Err(hotspot_analyzer::AnalyzerError::InvalidPattern(m)) => assert!(!m.is_empty()),
        _ => panic!("Expected InvalidPattern"),
    }
}

#[test]
fn compiled_pattern_is_anchored() {
    // A compiled glob matches the whole path, never a substring of it.
    let pat = PathPattern::compile("*.py").unwrap();
    assert!(pat.is_match("a.py"));
    assert!(!pat.is_match("a.py.bak"));
    assert!(!pat.is_match("dir/a.py"));
}

#[test]
fn recursive_glob_nested_and_top_level() {
    // `**/` compiles to `.*/`, which needs at least one separator: the
    // nested fixtures match, the top-level sibling does not.
    let pat = PathPattern::compile("**/*.js").unwrap();
    assert!(pat.is_match("a/b/x.js"));
    assert!(pat.is_match("a/x.js"));
    assert!(!pat.is_match("x.js"));
    assert!(pat.is_match("a/b/c.js"));
}

#[test]
fn exclude_patterns_always_win() {
    let patterns = PatternSet::new(
        &vec!["**/*.rs".to_string()],
        &vec!["target/**".to_string()],
    )
    .unwrap();
    assert!(!patterns.should_include_file("target/debug/x.rs"));
    assert!(patterns.should_include_file("src/debug/x.rs"));
}

#[test]
fn empty_include_set_matches_everything_not_excluded() {
    let patterns = PatternSet::new(&vec![], &vec!["target/**".to_string()]).unwrap();
    assert!(patterns.should_include_file("src/lib.rs"));
    assert!(patterns.should_include_file("README.md"));
    assert!(!patterns.should_include_file("target/debug/x.rs"));
}
