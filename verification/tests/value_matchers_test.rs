use std::collections::{BTreeMap, HashMap};
use std::ops::Bound;
use test_that::assertions::verify_that;
use test_that::matcher::{Describable, Matcher, MatcherResult};
use test_that::matchers::all_matcher::AllMatcher;
use test_that::matchers::any_matcher::AnyMatcher;
use test_that::matchers::display_matcher::displays_as;
use test_that::matchers::eq_matcher::eq;
use test_that::matchers::has_entry_matcher::has_entry;
use test_that::matchers::in_range_matcher::in_range;
use test_that::matchers::is_infinite_matcher::{is_infinite, F32Bits, F64Bits};
use test_that::matchers::le_matcher::le;
use test_that::matchers::not_matcher::not;
use test_that::matchers::str_matcher::{ends_with, starts_with};

// all

#[test]
fn all_matcher_description_shows_one_matcher_directly() {
    let first_matcher = starts_with("A");
    let matcher: AllMatcher<String, _> = AllMatcher::new((first_matcher,));
    assert_eq!(matcher.describe(MatcherResult::Match), "starts with prefix \"A\"");
}

#[test]
fn all_matcher_mismatch_description_shows_which_matcher_failed_if_more_than_one_constituent() {
    let first_matcher = starts_with("Another");
    let second_matcher = ends_with("string");
    let matcher: AllMatcher<&str, _> = AllMatcher::new((first_matcher, (second_matcher,)));
    assert_eq!(matcher.explain_match(&"A string"), "which does not start with \"Another\"");
}

#[test]
fn mismatch_description_is_simple_when_only_one_consistuent() {
    let first_matcher = starts_with("Another");
    let matcher: AllMatcher<&str, _> = AllMatcher::new((first_matcher,));
    assert_eq!(matcher.explain_match(&"A string"), "which does not start with \"Another\"");
}

#[test]
fn all_matcher_description_shows_more_than_one_matcher() {
    let matcher: AllMatcher<String, _> =
        AllMatcher::new((starts_with("A"), (ends_with("string"),)));
    assert_eq!(
        matcher.describe(MatcherResult::Match),
        "has all the following properties:\n  * starts with prefix \"A\"\n  * ends with suffix \"string\""
    );
}

// any

#[test]
fn any_matcher_description_shows_one_matcher_directly() {
    let first_matcher = starts_with("A");
    let matcher: AnyMatcher<String, _> = AnyMatcher::new((first_matcher,));
    assert_eq!(matcher.describe(MatcherResult::Match), "starts with prefix \"A\"");
}

#[test]
fn any_matcher_mismatch_description_shows_which_matcher_failed_if_more_than_one_constituent() {
    let first_matcher = starts_with("Another");
    let second_matcher = ends_with("string");
    let matcher: AnyMatcher<&str, _> = AnyMatcher::new((first_matcher, (second_matcher,)));
    assert_eq!(matcher.explain_match(&"A string"), "which does not start with \"Another\"");
}

#[test]
fn mismatch_description_is_simple_when_only_one_constituent() {
    let first_matcher = starts_with("Another");
    let matcher: AnyMatcher<&str, _> = AnyMatcher::new((first_matcher,));
    assert_eq!(matcher.explain_match(&"A string"), "which does not start with \"Another\"");
}

#[test]
fn any_matcher_description_shows_more_than_one_matcher() {
    let matcher: AnyMatcher<String, _> =
        AnyMatcher::new((starts_with("A"), (ends_with("string"),)));
    assert_eq!(
        matcher.describe(MatcherResult::Match),
        "has at least one of the following properties:\n  * starts with prefix \"A\"\n  * ends with suffix \"string\""
    );
}

// displays_as

#[test]
fn display_matches_i32() -> Result<(), String> {
    let value = 32;
    verify_that(&value, "value", &displays_as(eq("32")))
}

#[test]
fn display_matches_str() -> Result<(), String> {
    let value = "32";
    verify_that(&value, "value", &displays_as(eq("32")))
}

#[test]
fn display_shows_rendering_on_several_lines() {
    let result = verify_that(&"123\n234", "\"123\\n234\"", &displays_as(eq("123\n345")));
    assert!(result.unwrap_err().contains(
        "  which displays as:
    123
    234
  which isn't equal to \"123\\n345\""
    ));
}

// has_entry

#[test]
fn has_entry_does_not_match_empty_btree_map() -> Result<(), String> {
    let value: BTreeMap<i32, i32> = BTreeMap::new();
    let entries: Vec<(i32, i32)> = value.into_iter().collect();
    verify_that(&entries, "value", &not(has_entry(0, eq(0))))
}

#[test]
fn has_entry_matches_btree_map_with_value() -> Result<(), String> {
    let value = BTreeMap::from([(0, 0)]);
    let entries: Vec<(i32, i32)> = value.into_iter().collect();
    verify_that(&entries, "value", &has_entry(0, eq(0)))
}

#[test]
fn has_entry_does_not_match_btree_map_with_wrong_value() -> Result<(), String> {
    let value = BTreeMap::from([(0, 1)]);
    let entries: Vec<(i32, i32)> = value.into_iter().collect();
    verify_that(&entries, "value", &not(has_entry(0, eq(0))))
}

#[test]
fn has_entry_does_not_match_btree_map_with_wrong_key() -> Result<(), String> {
    let value = BTreeMap::from([(1, 0)]);
    let entries: Vec<(i32, i32)> = value.into_iter().collect();
    verify_that(&entries, "value", &not(has_entry(0, eq(0))))
}

#[test]
fn has_entry_does_not_match_empty_hash_map() -> Result<(), String> {
    let value: HashMap<i32, i32> = HashMap::new();
    let entries: Vec<(i32, i32)> = value.into_iter().collect();
    verify_that(&entries, "value", &not(has_entry(0, eq(0))))
}

#[test]
fn has_entry_matches_hash_map_with_value() -> Result<(), String> {
    let value: HashMap<i32, i32> = HashMap::from([(0, 0)]);
    let entries: Vec<(i32, i32)> = value.into_iter().collect();
    verify_that(&entries, "value", &has_entry(0, eq(0)))
}

#[test]
fn has_entry_does_not_match_hash_map_with_wrong_value() -> Result<(), String> {
    let value: HashMap<i32, i32> = HashMap::from([(0, 1)]);
    let entries: Vec<(i32, i32)> = value.into_iter().collect();
    verify_that(&entries, "value", &not(has_entry(0, eq(0))))
}

#[test]
fn has_entry_does_not_match_hash_map_with_wrong_key() -> Result<(), String> {
    let value: HashMap<i32, i32> = HashMap::from([(1, 0)]);
    let entries: Vec<(i32, i32)> = value.into_iter().collect();
    verify_that(&entries, "value", &not(has_entry(0, eq(0))))
}

#[test]
fn has_entry_explains_missing_key() {
    let entries = vec![(0, 0)];
    assert_eq!(has_entry(1, eq(0)).explain_match(&entries), "which doesn't contain key 1");
    assert_eq!(
        has_entry(1, eq(0)).describe(MatcherResult::Match),
        "contains key 1, which value is equal to 0"
    );
}

#[test]
fn has_entry_explains_non_matching_value() {
    let entries = vec![(0, 0)];
    assert_eq!(
        has_entry(0, eq(1)).explain_match(&entries),
        "which contains key 0, but is mapped to value 0, which isn't equal to 1"
    );
}

// in_range

#[test]
fn matches_within_interval() -> Result<(), String> {
    verify_that(&10, "10", &in_range(0..20))
}

#[test]
fn does_not_match_outside_interval() -> Result<(), String> {
    verify_that(&10, "10", &not(in_range(0..10)))
}

#[test]
fn matches_at_bound_of_closed_interval() -> Result<(), String> {
    verify_that(&10, "10", &in_range(0..=10))
}

#[test]
fn shows_correct_description_when_not_matched() {
    let result = verify_that(&10, "10", &in_range(0..10));
    assert!(result.unwrap_err().contains("which is contained in the range 0..10"));
}

#[test]
fn shows_correct_description_when_matched() {
    let result = verify_that(&10, "10", &not(in_range(0..=10)));
    assert!(result.unwrap_err().contains("which is not contained in the range 0..=10"));
}

#[test]
fn in_range_matches_at_lower_bound_and_not_at_exclusive_upper_bound() {
    assert_eq!(in_range(0..20).matches(&0), MatcherResult::Match);
    assert_eq!(in_range(0..20).matches(&20), MatcherResult::NoMatch);
    assert_eq!(in_range(0..20).matches(&-1), MatcherResult::NoMatch);
    assert_eq!(in_range(0..=20).matches(&21), MatcherResult::NoMatch);
}

#[test]
fn in_range_matches_ranges_bounded_on_one_side_or_none() -> Result<(), String> {
    verify_that(&100, "100", &in_range(0..))?;
    verify_that(&100, "100", &in_range(..1000))?;
    verify_that(&100, "100", &in_range(0..=100))?;
    verify_that(&100, "100", &not(in_range(0..20)))?;
    verify_that(&100, "100", &in_range(..=100))?;
    verify_that(&100, "100", &not(in_range(..100)))?;
    verify_that(&-5, "-5", &not(in_range(0..)))?;
    verify_that(&7, "7", &in_range::<_, i32>(..))
}

#[test]
fn in_range_describes_ranges_as_debug_renders_them() {
    assert_eq!(in_range(0..).describe(MatcherResult::Match), "which is contained in the range 0..");
    assert_eq!(in_range(..1000).describe(MatcherResult::Match), "which is contained in the range ..1000");
    assert_eq!(
        in_range(..=5).describe(MatcherResult::NoMatch),
        "which is not contained in the range ..=5"
    );
    assert_eq!(in_range::<_, i32>(..).describe(MatcherResult::Match), "which is contained in the range ..");
}

#[test]
fn in_range_matches_pairs_of_bounds() -> Result<(), String> {
    verify_that(&5, "5", &in_range((Bound::Excluded(0), Bound::Included(5))))?;
    verify_that(&0, "0", &not(in_range((Bound::Excluded(0), Bound::Included(5)))))?;
    verify_that(&-3, "-3", &in_range((Bound::Unbounded, Bound::Excluded(0))))?;
    let result = verify_that(&6, "6", &in_range((Bound::Excluded(0), Bound::Included(5))));
    assert!(result
        .unwrap_err()
        .contains("which is contained in the range (Excluded(0), Included(5))"));
    Ok(())
}

// is_infinite

#[test]
fn matches_f32_infinity() {
    assert_eq!(is_infinite().matches(&F32Bits(f32::INFINITY.to_bits())), MatcherResult::Match);
}

#[test]
fn does_not_match_f32_number() {
    assert_eq!(is_infinite().matches(&F32Bits(0.0f32.to_bits())), MatcherResult::NoMatch);
}

#[test]
fn does_not_match_f32_nan() {
    assert_eq!(is_infinite().matches(&F32Bits(f32::NAN.to_bits())), MatcherResult::NoMatch);
}

#[test]
fn matches_f64_infinity() {
    assert_eq!(is_infinite().matches(&F64Bits(f64::INFINITY.to_bits())), MatcherResult::Match);
}

#[test]
fn does_not_match_f64_number() {
    assert_eq!(is_infinite().matches(&F64Bits(0.0f64.to_bits())), MatcherResult::NoMatch);
}

#[test]
fn does_not_match_f64_nan() {
    assert_eq!(is_infinite().matches(&F64Bits(f64::NAN.to_bits())), MatcherResult::NoMatch);
}

#[test]
fn is_infinite_matches_negative_infinity_and_not_the_largest_number() {
    assert_eq!(
        is_infinite().matches(&F64Bits(f64::NEG_INFINITY.to_bits())),
        MatcherResult::Match
    );
    assert_eq!(is_infinite().matches(&F32Bits(f32::MAX.to_bits())), MatcherResult::NoMatch);
    assert_eq!(is_infinite().describe(MatcherResult::NoMatch), "is finite or NaN");
}

// le

#[test]
fn le_matches_i32_with_i32() -> Result<(), String> {
    let actual: i32 = 0;
    let expected: i32 = 0;
    verify_that(&actual, "actual", &le(expected))
}

#[test]
fn le_does_not_match_bigger_i32() {
    let matcher = le(0);
    let result = matcher.matches(&1);
    assert_eq!(result, MatcherResult::NoMatch);
}

#[test]
fn le_matches_smaller_str() -> Result<(), String> {
    verify_that(&"A", "\"A\"", &le("B"))
}

#[test]
fn le_does_not_match_bigger_str() {
    let matcher = le("a");
    let result = matcher.matches(&"z");
    assert_eq!(result, MatcherResult::NoMatch);
}

#[test]
fn le_mismatch_contains_actual_and_expected() {
    let result = verify_that(&489, "489", &le(294));
    assert!(result.unwrap_err().contains(
        "Value of: 489
Expected: is less than or equal to 294
Actual: 489,
  which is greater than 294
"
    ));
}

