use test_that::assertions::verify_that;
use test_that::matcher::{Describable, Matcher, MatcherResult};
use test_that::matchers::regex_matchers::{
    contains_regex, matches_regex, try_contains_regex, try_matches_regex,
};

#[test]
fn contains_regex_matches_string_reference_with_pattern() {
    let matcher = contains_regex("S.*val");
    let result = matcher.matches(&"Some value");
    assert_eq!(result, MatcherResult::Match);
}

#[test]
fn contains_regex_does_not_match_string_without_pattern() {
    let matcher = contains_regex("Another");
    let result = matcher.matches(&"Some value");
    assert_eq!(result, MatcherResult::NoMatch);
}

#[test]
fn contains_regex_matches_owned_string_with_pattern() {
    let matcher = contains_regex("value");
    let result = matcher.matches(&"Some value".to_string());
    assert_eq!(result, MatcherResult::Match);
}

#[test]
fn contains_regex_matches_string_reference_with_owned_string() {
    let matcher = contains_regex("value");
    let result = matcher.matches(&"Some value");
    assert_eq!(result, MatcherResult::Match);
}

#[test]
fn contains_regex_matcher_verify_that_works_with_owned_string() -> Result<(), String> {
    verify_that(&"Some value".to_string(), "\"Some value\".to_string()", &contains_regex("value"))
}

#[test]
fn contains_regex_displays_quoted_debug_of_pattern() {
    let matcher = contains_regex("\n");
    assert_eq!(matcher.describe(MatcherResult::Match), "contains the regular expression \"\\n\"");
}

#[test]
fn matches_regex_matches_string_reference_with_pattern() {
    let matcher = matches_regex("S.*e");
    let result = matcher.matches(&"Some value");
    assert_eq!(result, MatcherResult::Match);
}

#[test]
fn matches_regex_does_not_match_string_without_pattern() {
    let matcher = matches_regex("Another");
    let result = matcher.matches(&"Some value");
    assert_eq!(result, MatcherResult::NoMatch);
}

#[test]
fn matches_regex_does_not_match_string_only_beginning_of_which_matches() {
    let matcher = matches_regex("Some");
    let result = matcher.matches(&"Some value");
    assert_eq!(result, MatcherResult::NoMatch);
}

#[test]
fn matches_regex_does_not_match_string_only_end_of_which_matches() {
    let matcher = matches_regex("value");
    let result = matcher.matches(&"Some value");
    assert_eq!(result, MatcherResult::NoMatch);
}

#[test]
fn matches_regex_matches_owned_string_with_pattern() {
    let matcher = matches_regex(".*value");
    let result = matcher.matches(&"Some value".to_string());
    assert_eq!(result, MatcherResult::Match);
}

#[test]
fn matches_regex_matches_string_when_regex_has_beginning_of_string_marker() {
    let matcher = matches_regex("^Some value");
    let result = matcher.matches(&"Some value");
    assert_eq!(result, MatcherResult::Match);
}

#[test]
fn matches_regex_matches_string_when_regex_has_end_of_string_marker() {
    let matcher = matches_regex("Some value$");
    let result = matcher.matches(&"Some value");
    assert_eq!(result, MatcherResult::Match);
}

#[test]
fn matches_regex_matches_string_when_regex_has_both_end_markers() {
    let matcher = matches_regex("^Some value$");
    let result = matcher.matches(&"Some value");
    assert_eq!(result, MatcherResult::Match);
}

#[test]
fn matches_regex_matches_string_reference_with_owned_string() {
    let pattern = ".*value".to_string();
    let matcher = matches_regex(&pattern);
    let result = matcher.matches(&"Some value");
    assert_eq!(result, MatcherResult::Match);
}

#[test]
fn matches_regex_matcher_verify_that_works_with_owned_string() -> Result<(), String> {
    verify_that(&"Some value".to_string(), "\"Some value\".to_string()", &matches_regex(".*value"))
}

#[test]
fn matches_regex_displays_quoted_debug_of_pattern() {
    let matcher = matches_regex("\n");
    assert_eq!(matcher.describe(MatcherResult::Match), "matches the regular expression \"\\n\"");
}

#[test]
fn invalid_patterns_give_no_matcher() {
    assert!(try_contains_regex("foo(bar").is_none());
    assert!(try_matches_regex("foo(bar").is_none());
    assert!(try_contains_regex("foo(bar)").is_some());
    assert_eq!(
        try_matches_regex("a+").unwrap().describe(MatcherResult::NoMatch),
        "doesn't match the regular expression \"a+\""
    );
}

#[test]
fn regex_mismatch_is_explained_with_description() {
    let result = verify_that(&"Some value", "\"Some value\"", &contains_regex("^value"));
    assert_eq!(
        result.unwrap_err(),
        "Value of: \"Some value\"
Expected: contains the regular expression \"^value\"
Actual: \"Some value\",
  which doesn't contain the regular expression \"^value\"
"
    );
}
