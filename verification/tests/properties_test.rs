use test_that::assertions::verify_that;
use test_that::matcher::{Describable, Matcher, MatcherResult};
use test_that::matchers::all_matcher::AllMatcher;
use test_that::matchers::any_matcher::AnyMatcher;
use test_that::matchers::containers::container_contains::unordered_matcher::{
    contains_each, contains_exactly, is_contained_in,
};
use test_that::matchers::containers::container_contains::Requirements;
use test_that::matchers::containers::contains_matcher::contains;
use test_that::matchers::containers::each_matcher::each;
use test_that::matchers::containers::empty_matcher::empty;
use test_that::matchers::containers::len_matcher::len;
use test_that::matchers::containers::subset_of_matcher::subset_of;
use test_that::matchers::display_matcher::displays_as;
use test_that::matchers::eq_matcher::eq;
use test_that::matchers::not_matcher::not;
use test_that::matchers::is_infinite_matcher::{is_infinite, F32Bits};
use test_that::matchers::le_matcher::le;
use test_that::matchers::ord_matchers::{ge, gt, lt};
use test_that::matchers::regex_matchers::{contains_regex, matches_regex};
use test_that::matchers::result_of_matcher::ResultOfMatcher;
use test_that::matchers::str_matcher::starts_with;

#[test]
fn exact_correspondence_is_each_and_contained_in_order() {
    let cases: Vec<Vec<i32>> = vec![vec![1, 2, 3], vec![1, 3, 2], vec![1, 2], vec![0, 1, 2, 3]];
    for value in cases {
        let exact = contains_exactly(vec![eq(1), eq(2), eq(3)]).in_order().matches(&value);
        let each = contains_each(vec![eq(1), eq(2), eq(3)]).in_order().matches(&value);
        let contained = is_contained_in(vec![eq(1), eq(2), eq(3)]).in_order().matches(&value);
        assert_eq!(exact.is_match(), each.is_match() && contained.is_match());
    }
}

#[test]
fn exact_correspondence_is_each_and_contained_in_any_order() {
    let cases: Vec<Vec<i32>> = vec![vec![3, 1, 2], vec![1, 1, 2], vec![1, 2], vec![4, 1, 2, 3]];
    for value in cases {
        let exact = contains_exactly((ge(1), (eq(2), (eq(3),)))).matches(&value);
        let each = contains_each((ge(1), (eq(2), (eq(3),)))).matches(&value);
        let contained = is_contained_in((ge(1), (eq(2), (eq(3),)))).matches(&value);
        assert_eq!(exact.is_match(), each.is_match() && contained.is_match());
    }
}

#[test]
fn matching_in_order_implies_matching_in_any_order() {
    let value = vec![1, 2, 3];
    assert_eq!(contains_each(vec![eq(1), eq(3)]).in_order().matches(&value), MatcherResult::Match);
    assert_eq!(contains_each(vec![eq(1), eq(3)]).matches(&value), MatcherResult::Match);
    assert_eq!(contains_exactly(vec![eq(3), eq(2), eq(1)]).in_order().matches(&value), MatcherResult::NoMatch);
    assert_eq!(contains_exactly(vec![eq(3), eq(2), eq(1)]).matches(&value), MatcherResult::Match);
}

#[test]
fn double_negation_gives_the_matcher_back() {
    let matcher = not(not(gt(3)));
    assert_eq!(matcher.matches(&4), MatcherResult::Match);
    assert_eq!(matcher.matches(&3), MatcherResult::NoMatch);
    assert_eq!(matcher.describe(MatcherResult::Match), gt(3).describe(MatcherResult::Match));
    assert_eq!(matcher.explain_match(&3), "which is less than or equal to 3");
}

#[test]
fn all_and_any_of_no_matcher_and_of_one_matcher() {
    let all_none: AllMatcher<i32, ()> = AllMatcher::new(());
    let any_none: AnyMatcher<i32, ()> = AnyMatcher::new(());
    assert_eq!(all_none.matches(&7), MatcherResult::Match);
    assert_eq!(any_none.matches(&7), MatcherResult::NoMatch);
    let all_one: AllMatcher<i32, _> = AllMatcher::new((lt(5),));
    assert_eq!(all_one.matches(&7), lt(5).matches(&7));
    assert_eq!(all_one.explain_match(&7), lt(5).explain_match(&7));
    let any_two: AnyMatcher<i32, _> = AnyMatcher::new((lt(5), (gt(6),)));
    assert_eq!(any_two.matches(&7), MatcherResult::Match);
    assert_eq!(any_two.matches(&5), MatcherResult::NoMatch);
}

#[test]
fn each_is_no_element_failing() {
    let cases: Vec<Vec<i32>> = vec![vec![], vec![1, 2], vec![1, -2]];
    for value in cases {
        let every = each(gt(0)).matches(&value);
        let none_failing = not(contains(not(gt(0)))).matches(&value);
        assert_eq!(every, none_failing);
    }
}

#[test]
fn contains_is_a_positive_count() {
    let cases: Vec<Vec<i32>> = vec![vec![], vec![1, 2], vec![3, 3]];
    for value in cases {
        assert_eq!(contains(eq(3)).matches(&value), contains(eq(3)).times(gt(0usize)).matches(&value));
    }
}

#[test]
fn empty_is_length_zero() {
    let cases: Vec<Vec<i32>> = vec![vec![], vec![1]];
    for value in cases {
        assert_eq!(empty().matches(&value), len(eq(0usize)).matches(&value));
    }
}

#[test]
fn subset_of_ignores_multiplicity() -> Result<(), String> {
    let value: Vec<i32> = vec![0, 0, 1];
    verify_that(&value, "value", &subset_of([0, 1]))?;
    verify_that(&value, "value", &subset_of([0, 1, 1]))?;
    verify_that(&vec![0, 1], "vec![0, 1]", &subset_of([0, 1, 1]))?;
    verify_that(&vec![0, 2], "vec![0, 2]", &not(subset_of([0, 0, 1])))
}

#[test]
fn whole_text_regex_is_anchored_regex() {
    for text in ["Some value", "Some value!", "value"] {
        assert_eq!(matches_regex("S.*e").matches(&text), contains_regex("^S.*e$").matches(&text));
    }
}

#[test]
fn renaming_the_function_keeps_matching() {
    let matcher = ResultOfMatcher::new("|v: &Vec<i32>| v.len()", eq(2usize), |v: &Vec<i32>| v.len());
    let before = matcher.matches(&vec![1, 2]);
    let renamed = matcher.with_custom_definition("length");
    assert_eq!(renamed.matches(&vec![1, 2]), before);
    assert_eq!(renamed.describe(MatcherResult::Match), "result of applying `length` is equal to 2");
}

#[test]
fn size_mismatch_is_explained_only_where_requirements_fail_by_size() {
    let value = vec![1, 2];
    assert_eq!(
        Requirements::PerfectMatch.explain_size_mismatch(&value, 3),
        Some("which has size 2 (expected 3)".to_string())
    );
    assert_eq!(Requirements::Superset.explain_size_mismatch(&value, 1), None);
    assert_eq!(
        Requirements::Subset.explain_size_mismatch(&value, 1),
        Some("which has size 2 (expected at most 1)".to_string())
    );
    assert_eq!(Requirements::Subset.name(), "subset");
}

#[test]
fn verify_that_reports_nested_string_matcher() {
    let result = verify_that(&"Hello", "\"Hello\"", &starts_with("World"));
    assert_eq!(
        result.unwrap_err(),
        "Value of: \"Hello\"
Expected: starts with prefix \"World\"
Actual: \"Hello\",
  which does not start with \"World\"
"
    );
}

#[test]
fn displays_as_accepts_combinations_of_string_matchers() -> Result<(), String> {
    let all_of: AllMatcher<String, _> = AllMatcher::new((starts_with("4"), (not(starts_with("5")),)));
    verify_that(&42, "42", &displays_as(all_of))?;
    let any_of: AnyMatcher<String, _> = AnyMatcher::new((starts_with("5"), (starts_with("4"),)));
    verify_that(&42, "42", &displays_as(any_of))
}

#[test]
fn explanation_agrees_with_verdict_in_order() {
    let matching = vec![1, 2, 3];
    let failing = vec![2, 1];
    let exact = contains_exactly(vec![eq(1), eq(2), eq(3)]).in_order();
    assert_eq!(exact.explain_match(&matching), "whose elements all match");
    assert_ne!(exact.explain_match(&failing), "whose elements all match");
    let each = contains_each(vec![eq(1), eq(3)]).in_order();
    assert_eq!(each.explain_match(&matching), "where all elements are present");
    assert_eq!(each.explain_match(&failing), "where matcher #1 does not match any following elements");
    let contained = is_contained_in(vec![eq(1), eq(2), eq(3)]).in_order();
    assert_eq!(contained.explain_match(&matching), "where all elements are matched");
    assert_eq!(contained.explain_match(&failing), "where element #1 is not matched by any following matcher");
}

#[test]
fn is_infinite_matches_only_the_two_infinities() {
    assert_eq!(is_infinite().matches(&F32Bits(0x7f80_0000)), MatcherResult::Match);
    assert_eq!(is_infinite().matches(&F32Bits(0xff80_0000)), MatcherResult::Match);
    assert_eq!(is_infinite().matches(&F32Bits(0x7f80_0001)), MatcherResult::NoMatch);
    assert_eq!(is_infinite().matches(&F32Bits(f32::MIN.to_bits())), MatcherResult::NoMatch);
}

#[test]
fn decimal_renders_extremes() -> Result<(), String> {
    verify_that(&i64::MIN, "i64::MIN", &le(i64::MIN))?;
    let result = verify_that(&i64::MIN, "i64::MIN", &gt(0i64));
    assert!(result.unwrap_err().contains("Actual: -9223372036854775808,"));
    verify_that(&u64::MAX, "u64::MAX", &displays_as(eq("18446744073709551615")))
}
