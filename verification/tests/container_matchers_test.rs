use std::collections::{BTreeMap, BTreeSet, HashMap, HashSet, VecDeque};
use test_that::assertions::verify_that;
use test_that::matcher::{Describable, Matcher, MatcherResult};
use test_that::matchers::containers::contains_matcher::contains;
use test_that::matchers::containers::empty_matcher::empty;
use test_that::matchers::containers::len_matcher::len;
use test_that::matchers::containers::subset_of_matcher::subset_of;
use test_that::matchers::eq_matcher::eq;
use test_that::matchers::not_matcher::not;
use test_that::matchers::points_to_matcher::points_to;
use test_that::matchers::str_matcher::contains_substring;

// contains

#[test]
fn contains_matches_singleton_slice_with_value() {
    let matcher = contains(eq(1));
    let result = matcher.matches(&vec![1]);
    assert_eq!(result, MatcherResult::Match);
}

#[test]
fn contains_matches_singleton_vec_with_value() {
    let matcher = contains(eq(1));
    let result = matcher.matches(&vec![1]);
    assert_eq!(result, MatcherResult::Match);
}

#[test]
fn contains_matches_two_element_slice_with_value() {
    let matcher = contains(eq(1));
    let result = matcher.matches(&[0, 1]);
    assert_eq!(result, MatcherResult::Match);
}

#[test]
fn contains_does_not_match_singleton_slice_with_wrong_value() {
    let matcher = contains(eq(1));
    let result = matcher.matches(&[0]);
    assert_eq!(result, MatcherResult::NoMatch);
}

#[test]
fn contains_does_not_match_empty_slice() -> Result<(), String> {
    let value = Vec::<i32>::new();
    verify_that(&value.as_slice(), "value.as_slice()", &not(contains(eq(1))))
}

#[test]
fn contains_matches_slice_with_repeated_value() {
    let matcher = contains(eq(1)).times(eq(2));
    let result = matcher.matches(&[1, 1]);
    assert_eq!(result, MatcherResult::Match);
}

#[test]
fn contains_does_not_match_slice_with_too_few_of_value() {
    let matcher = contains(eq(1)).times(eq(2));
    let result = matcher.matches(&[0, 1]);
    assert_eq!(result, MatcherResult::NoMatch);
}

#[test]
fn contains_does_not_match_slice_with_too_many_of_value() {
    let matcher = contains(eq(1)).times(eq(1));
    let result = matcher.matches(&[1, 1]);
    assert_eq!(result, MatcherResult::NoMatch);
}

#[test]
fn contains_matches_on_vec_of_values() -> Result<(), String> {
    verify_that(&vec![1, 2, 3], "vec![1, 2, 3]", &contains(eq(1)))
}

#[test]
fn contains_matches_on_array_of_values() -> Result<(), String> {
    verify_that(&[1, 2, 3], "[1, 2, 3]", &contains(eq(1)))
}

#[test]
fn contains_matches_on_slice_of_values_with_points_to_slice() -> Result<(), String> {
    verify_that(&&[1, 2, 3], "&[1, 2, 3]", &points_to(contains(eq(1))))
}

#[test]
fn contains_matches_on_slice_of_values_with_deref_notation_on_macro() -> Result<(), String> {
    let slice = &[1, 2, 3];
    verify_that(slice, "*slice", &contains(eq(1)))
}

#[test]
fn contains_matches_vec_of_string_slices() -> Result<(), String> {
    verify_that(
        &vec!["String 1", "String 2", "String 3"],
        "vec![\"String 1\", \"String 2\", \"String 3\"]",
        &contains(contains_substring("1")),
    )
}

#[test]
fn contains_matches_vec_of_string_slices_with_non_static_lifetime() -> Result<(), String> {
    let string_1 = String::from("String 1");
    let string_2 = String::from("String 2");
    let string_3 = String::from("String 3");
    verify_that(
        &vec![string_1.as_str(), string_2.as_str(), string_3.as_str()],
        "vec![string_1.as_str(), string_2.as_str(), string_3.as_str()]",
        &contains(contains_substring("1")),
    )
}

#[test]
fn contains_matches_slice_of_string_slices() -> Result<(), String> {
    let value = vec!["String 1", "String 2", "String 3"];
    verify_that(&value.as_slice(), "value.as_slice()", &contains(contains_substring("1")))
}

#[test]
fn contains_matches_slice_of_string_slices_with_non_static_lifetime() -> Result<(), String> {
    let string_1 = String::from("String 1");
    let string_2 = String::from("String 2");
    let string_3 = String::from("String 3");
    let value = vec![string_1.as_str(), string_2.as_str(), string_3.as_str()];
    verify_that(&value.as_slice(), "value.as_slice()", &contains(contains_substring("1")))
}

#[test]
fn contains_formats_without_multiplicity_by_default() {
    let matcher = contains(eq(1));
    assert_eq!(
        matcher.describe(MatcherResult::Match),
        "contains at least one element which is equal to 1"
    );
}

#[test]
fn contains_formats_with_multiplicity_when_specified() {
    let matcher = contains(eq(1)).times(eq(2));
    assert_eq!(
        matcher.describe(MatcherResult::Match),
        "contains n elements which is equal to 1\n  where n is equal to 2"
    );
}

#[test]
fn contains_mismatch_shows_number_of_times_element_was_found() {
    assert_eq!(
        contains(eq(3)).times(eq(1)).explain_match(&vec![1, 2, 3, 3]),
        "which contains 2 matching elements"
    );
}

#[test]
fn contains_mismatch_shows_when_matches() {
    assert_eq!(
        contains(eq(3)).explain_match(&vec![1, 2, 3, 3]),
        "which contains a matching element"
    );
}

#[test]
fn contains_mismatch_shows_when_no_matches() {
    assert_eq!(
        contains(eq(3)).explain_match(&vec![1, 2]),
        "which does not contain a matching element"
    );
}

// empty

#[test]
fn empty_matcher_matches_empty_vec() -> Result<(), String> {
    let value: Vec<i32> = vec![];
    verify_that(&value, "value", &empty())
}

#[test]
fn empty_matcher_matches_empty_array() -> Result<(), String> {
    verify_that(&([] as [u32; 0]), "[] as [u32; 0]", &empty())
}

#[test]
fn empty_matcher_matches_empty_ref_to_array_with_points_to() -> Result<(), String> {
    verify_that(&&([] as [u32; 0]), "&([] as [u32; 0])", &points_to(empty()))
}

#[test]
fn empty_matcher_matches_empty_ref_to_array_with_deref_notation() -> Result<(), String> {
    let value: [u32; 0] = [];
    let reference = &value;
    verify_that(reference, "*reference", &empty())
}

#[test]
fn empty_matcher_matches_empty_slice_with_points_to() -> Result<(), String> {
    let value: Vec<u32> = vec![];
    let slice = value.as_slice();
    verify_that(&slice, "slice", &empty())
}

#[test]
fn empty_matcher_matches_empty_slice_with_deref_notation() -> Result<(), String> {
    let value: Vec<u32> = vec![];
    let slice = value.as_slice();
    verify_that(&slice, "*slice", &empty())
}

#[test]
fn empty_matcher_does_not_match_non_empty_vec() -> Result<(), String> {
    verify_that(&vec![1, 2, 3], "vec![1, 2, 3]", &not(empty()))
}

#[test]
fn empty_matcher_does_not_match_non_empty_array() -> Result<(), String> {
    verify_that(&[1, 2, 3], "[1, 2, 3]", &not(empty()))
}

#[test]
fn empty_matcher_does_not_match_non_empty_slice() -> Result<(), String> {
    let value: Vec<u32> = vec![1, 2, 3];
    let slice = value.as_slice();
    verify_that(&slice, "*slice", &not(empty()))
}

#[test]
fn empty_matcher_matches_empty_hash_set() {
    let value: HashSet<i32> = HashSet::new();
    assert_eq!(empty().matches(&value), MatcherResult::Match);
}

// len

#[test]
fn len_matcher_matches_vec() -> Result<(), String> {
    verify_that(&vec![1, 2, 3], "vec![1, 2, 3]", &len(eq(3)))
}

#[test]
fn len_matcher_matches_array_reference_with_deref_notation() -> Result<(), String> {
    let value = &[1, 2, 3];
    verify_that(value, "*value", &len(eq(3)))
}

#[test]
fn len_matcher_matches_array_reference_points_to() -> Result<(), String> {
    verify_that(&&[1, 2, 3], "&[1, 2, 3]", &points_to(len(eq(3))))
}

#[test]
fn len_matcher_matches_slice_of_array() -> Result<(), String> {
    let value = &[1, 2, 3];
    verify_that(&&value[0..1], "value[0..1]", &len(eq(1)))
}

#[test]
fn len_matcher_matches_slice_of_vec() -> Result<(), String> {
    let value = vec![1, 2, 3];
    let slice = value.as_slice();
    verify_that(&slice, "*slice", &len(eq(3)))
}

#[test]
fn len_matcher_matches_array() -> Result<(), String> {
    verify_that(&[1, 2, 3], "[1, 2, 3]", &len(eq(3)))
}

#[test]
fn len_matcher_matches_btreemap() {
    let value = BTreeMap::from([(1, 2), (2, 3), (3, 4)]);
    assert_eq!(len(eq(3)).matches(&value), MatcherResult::Match);
}

#[test]
fn len_matcher_matches_btreeset() {
    let value = BTreeSet::from([1, 2, 3]);
    assert_eq!(len(eq(3)).matches(&value), MatcherResult::Match);
}

#[test]
fn len_matcher_matches_hashmap() {
    let value = HashMap::from([(1, 2), (2, 3), (3, 4)]);
    assert_eq!(len(eq(3)).matches(&value), MatcherResult::Match);
}

#[test]
fn len_matcher_matches_hashset() {
    let value = HashSet::from([1, 2, 3]);
    assert_eq!(len(eq(3)).matches(&value), MatcherResult::Match);
}

#[test]
fn len_matcher_matches_vecdeque() {
    let value = VecDeque::from([1, 2, 3]);
    assert_eq!(len(eq(3)).matches(&value), MatcherResult::Match);
}

#[test]
fn len_matcher_error_message() {
    let result = verify_that(&vec![1, 2, 3, 4], "vec![1, 2, 3, 4]", &len(eq(3)));
    assert!(result.unwrap_err().contains(
        "Value of: vec![1, 2, 3, 4]
Expected: has length, which is equal to 3
Actual: [1, 2, 3, 4],
  which has length 4, which isn't equal to 3"
    ));
}

// subset_of

#[test]
fn subset_of_matches_empty_vec() -> Result<(), String> {
    let value: Vec<i32> = vec![];
    verify_that(&value, "value", &subset_of([] as [i32; 0]))
}

#[test]
fn subset_of_matches_vec_with_one_element_with_array() -> Result<(), String> {
    verify_that(&vec![1], "vec![1]", &subset_of([1]))
}

#[test]
fn subset_of_matches_vec_with_one_element_with_vec() -> Result<(), String> {
    verify_that(&vec![1], "vec![1]", &subset_of(vec![1]))
}

#[test]
fn subset_of_matches_array_of_one_element_with_array() -> Result<(), String> {
    verify_that(&[1], "[1]", &subset_of([1]))
}

#[test]
fn subset_of_matches_vec_with_two_elements() -> Result<(), String> {
    verify_that(&vec![1, 2], "vec![1, 2]", &subset_of([1, 2]))
}

#[test]
fn subset_of_matches_vec_when_expected_has_excess_element() -> Result<(), String> {
    verify_that(&vec![1, 2], "vec![1, 2]", &subset_of([1, 2, 3]))
}

#[test]
fn subset_of_matches_vec_when_expected_has_excess_element_first() -> Result<(), String> {
    verify_that(&vec![1, 2], "vec![1, 2]", &subset_of([3, 1, 2]))
}

#[test]
fn subset_of_matches_array_ref_with_one_element_using_points_to() -> Result<(), String> {
    let value = &[1];
    verify_that(&value, "value", &points_to(subset_of([1])))
}

#[test]
fn subset_of_matches_array_ref_with_one_element_using_deref_notation() -> Result<(), String> {
    let value = &[1];
    verify_that(value, "*value", &subset_of([1]))
}

#[test]
fn subset_of_matches_slice_with_one_element_using_points_to() -> Result<(), String> {
    let value = vec![1];
    let slice = value.as_slice();
    verify_that(&slice, "slice", &subset_of([1]))
}

#[test]
fn subset_of_matches_slice_with_one_element_using_deref_notation() -> Result<(), String> {
    let value = vec![1];
    let slice = value.as_slice();
    verify_that(&slice, "*slice", &subset_of([1]))
}

#[test]
fn subset_of_matches_vec_of_string_slices() -> Result<(), String> {
    verify_that(
        &vec!["String 1", "String 2", "String 3"],
        "vec![\"String 1\", \"String 2\", \"String 3\"]",
        &subset_of(["String 1", "String 2", "String 3"]),
    )
}

#[test]
fn subset_of_matches_vec_of_string_slices_with_non_static_lifetime() -> Result<(), String> {
    let string_1 = String::from("String 1");
    let string_2 = String::from("String 2");
    let string_3 = String::from("String 3");
    verify_that(
        &vec![string_1.as_str(), string_2.as_str(), string_3.as_str()],
        "vec![string_1.as_str(), string_2.as_str(), string_3.as_str()]",
        &subset_of(["String 1", "String 2", "String 3"]),
    )
}

#[test]
fn subset_of_matches_slice_of_string_slices() -> Result<(), String> {
    let value = vec!["String 1", "String 2", "String 3"];
    verify_that(
        &value.as_slice(),
        "value.as_slice()",
        &subset_of(["String 1", "String 2", "String 3"]),
    )
}

#[test]
fn subset_of_matches_slice_of_string_slices_with_non_static_lifetime() -> Result<(), String> {
    let string_1 = String::from("String 1");
    let string_2 = String::from("String 2");
    let string_3 = String::from("String 3");
    let value = vec![string_1.as_str(), string_2.as_str(), string_3.as_str()];
    verify_that(
        &value.as_slice(),
        "value.as_slice()",
        &subset_of(["String 1", "String 2", "String 3"]),
    )
}

#[test]
fn subset_of_matches_hash_set_with_one_element() {
    let value: Vec<i32> = HashSet::from([1]).into_iter().collect();
    assert_eq!(subset_of([1]).matches(&value), MatcherResult::Match);
}

#[test]
fn subset_of_does_not_match_when_first_element_does_not_match() -> Result<(), String> {
    verify_that(&vec![0], "vec![0]", &not(subset_of([1])))
}

#[test]
fn subset_of_does_not_match_when_second_element_does_not_match() -> Result<(), String> {
    verify_that(&vec![2, 0], "vec![2, 0]", &not(subset_of([2])))
}

#[test]
fn subset_of_shows_correct_message_when_first_item_does_not_match() {
    let result = verify_that(&vec![0, 2, 3], "vec![0, 2, 3]", &subset_of([1, 2, 3]));
    assert!(result.unwrap_err().contains(
        "Value of: vec![0, 2, 3]
Expected: is a subset of [
    1,
    2,
    3,
]
Actual: [0, 2, 3],
  whose element 0 at #0 is unexpected
"
    ));
}

#[test]
fn subset_of_shows_correct_message_when_second_item_does_not_match() {
    let result = verify_that(&vec![1, 0, 3], "vec![1, 0, 3]", &subset_of([1, 2, 3]));
    assert!(result.unwrap_err().contains(
        "Value of: vec![1, 0, 3]
Expected: is a subset of [
    1,
    2,
    3,
]
Actual: [1, 0, 3],
  whose element 0 at #1 is unexpected
"
    ));
}

#[test]
fn subset_of_shows_correct_message_when_first_two_items_do_not_match() {
    let result = verify_that(&vec![0, 0, 3], "vec![0, 0, 3]", &subset_of([1, 2, 3]));
    assert!(result.unwrap_err().contains(
        "Value of: vec![0, 0, 3]
Expected: is a subset of [
    1,
    2,
    3,
]
Actual: [0, 0, 3],
  whose elements 0 at #0, 0 at #1 are unexpected
"
    ));
}
