use std::collections::HashMap;
use test_that::assertions::verify_that;
use test_that::matcher::Matcher;
use test_that::matchers::anything_matcher::anything;
use test_that::matchers::containers::container_contains::unordered_matcher::{
    contains_each, contains_exactly, is_contained_in,
};
use test_that::matchers::eq_matcher::{eq, EqMatcher};
use test_that::matchers::not_matcher::not;
use test_that::matchers::ord_matchers::ge;
use test_that::matchers::points_to_matcher::points_to;
use test_that::matchers::str_matcher::contains_substring;

/// The entries of a map, in the order in which it lists them.
fn entries<K: Clone, V: Clone>(map: &HashMap<K, V>) -> Vec<(K, V)> {
    map.iter().map(|(k, v)| (k.clone(), v.clone())).collect()
}

fn no_matchers() -> Vec<EqMatcher<u32>> {
    vec![]
}

// In order

#[test]
fn contains_exactly_in_order_matches_empty_vector() -> Result<(), String> {
    let value: Vec<u32> = vec![];
    verify_that(&value, "value", &contains_exactly(no_matchers()).in_order())
}

#[test]
fn contains_exactly_in_order_matches_empty_array() -> Result<(), String> {
    let value: [u32; 0] = [];
    verify_that(&value, "value", &contains_exactly(no_matchers()).in_order())
}

#[test]
fn contains_exactly_in_order_matches_vec() -> Result<(), String> {
    verify_that(&vec![1, 2, 3], "vec![1, 2, 3]", &contains_exactly(vec![eq(1), eq(2), eq(3)]).in_order())
}

#[test]
fn contains_exactly_in_order_does_not_match_vec_out_of_order() -> Result<(), String> {
    verify_that(
        &vec![1, 2, 3],
        "vec![1, 2, 3]",
        &not(contains_exactly(vec![eq(2), eq(3), eq(1)]).in_order()),
    )
}

#[test]
fn contains_exactly_in_order_does_not_match_vec_with_extra_elements() -> Result<(), String> {
    verify_that(&vec![1, 2, 3], "vec![1, 2, 3]", &not(contains_exactly(vec![eq(1), eq(2)]).in_order()))
}

#[test]
fn contains_exactly_in_order_does_not_match_vec_with_missing_elements() -> Result<(), String> {
    verify_that(
        &vec![1, 2],
        "vec![1, 2]",
        &not(contains_exactly(vec![eq(1), eq(2), eq(3)]).in_order()),
    )
}

#[test]
fn contains_exactly_in_order_matches_array() -> Result<(), String> {
    verify_that(&[1, 2, 3], "[1, 2, 3]", &contains_exactly(vec![eq(1), eq(2), eq(3)]).in_order())
}

#[test]
fn contains_exactly_in_order_matches_ref_of_array_with_points_to() -> Result<(), String> {
    verify_that(
        &&[1, 2, 3],
        "&[1, 2, 3]",
        &points_to(contains_exactly(vec![eq(1), eq(2), eq(3)]).in_order()),
    )
}

#[test]
fn contains_exactly_in_order_matches_ref_of_array_with_deref_notation() -> Result<(), String> {
    let value = &[1, 2, 3];
    verify_that(value, "*value", &contains_exactly(vec![eq(1), eq(2), eq(3)]).in_order())
}

#[test]
fn contains_exactly_in_order_matches_slice_with_points_to() -> Result<(), String> {
    let value = vec![1, 2, 3];
    verify_that(
        &value.as_slice(),
        "value.as_slice()",
        &contains_exactly(vec![eq(1), eq(2), eq(3)]).in_order(),
    )
}

#[test]
fn contains_exactly_in_order_matches_slice_with_deref_notation() -> Result<(), String> {
    let value = vec![1, 2, 3];
    let slice = value.as_slice();
    verify_that(&slice, "*slice", &contains_exactly(vec![eq(1), eq(2), eq(3)]).in_order())
}

#[test]
fn contains_exactly_in_order_matches_vec_of_string_slices() -> Result<(), String> {
    verify_that(
        &vec!["String 1", "String 2", "String 3"],
        "vec![\"String 1\", \"String 2\", \"String 3\"]",
        &contains_exactly(vec![
            contains_substring("1"),
            contains_substring("2"),
            contains_substring("3"),
        ])
        .in_order(),
    )
}

#[test]
fn contains_exactly_in_order_matches_vec_of_string_slices_with_non_static_lifetime(
) -> Result<(), String> {
    let string_1 = String::from("String 1");
    let string_2 = String::from("String 2");
    let string_3 = String::from("String 3");
    verify_that(
        &vec![string_1.as_str(), string_2.as_str(), string_3.as_str()],
        "vec![string_1.as_str(), string_2.as_str(), string_3.as_str()]",
        &contains_exactly(vec![
            contains_substring("1"),
            contains_substring("2"),
            contains_substring("3"),
        ])
        .in_order(),
    )
}

#[test]
fn contains_exactly_in_order_matches_slice_of_string_slices() -> Result<(), String> {
    let value = vec!["String 1", "String 2", "String 3"];
    verify_that(
        &value.as_slice(),
        "value.as_slice()",
        &contains_exactly(vec![
            contains_substring("1"),
            contains_substring("2"),
            contains_substring("3"),
        ])
        .in_order(),
    )
}

#[test]
fn contains_exactly_in_order_matches_slice_of_string_slices_with_non_static_lifetime(
) -> Result<(), String> {
    let string_1 = String::from("String 1");
    let string_2 = String::from("String 2");
    let string_3 = String::from("String 3");
    let value = vec![string_1.as_str(), string_2.as_str(), string_3.as_str()];
    verify_that(
        &value.as_slice(),
        "value.as_slice()",
        &contains_exactly(vec![
            contains_substring("1"),
            contains_substring("2"),
            contains_substring("3"),
        ])
        .in_order(),
    )
}

#[test]
fn matches_with_square_bracket_notation() -> Result<(), String> {
    verify_that(&vec![1, 2, 3], "vec![1, 2, 3]", &contains_exactly(vec![eq(1), eq(2), eq(3)]).in_order())
}

#[test]
fn contains_exactly_in_order_admits_matchers_without_static_lifetime() -> Result<(), String> {
    let expected_value = String::from("123");
    verify_that(
        &vec![String::from("123")],
        "vec![String::from(\"123\")]",
        &contains_exactly(vec![eq(expected_value.as_str())]).in_order(),
    )
}

#[test]
fn contains_exactly_in_order_produces_correct_failure_message() {
    let result =
        verify_that(&[1, 4, 3], "[1, 4, 3]", &contains_exactly(vec![eq(1), eq(2), eq(3)]).in_order());
    assert!(result.unwrap_err().contains(
        "Value of: [1, 4, 3]
Expected: has elements:
  0. is equal to 1
  1. is equal to 2
  2. is equal to 3
Actual: [1, 4, 3],
  where element #1 is 4, which isn't equal to 2"
    ));
}

#[test]
fn contains_exactly_in_order_produces_correct_failure_message_when_matchers_are_nested() {
    let result = verify_that(
        &[[0, 1], [1, 2]],
        "[[0, 1], [1, 2]]",
        &contains_exactly(vec![
            contains_exactly(vec![eq(1), eq(2)]).in_order(),
            contains_exactly(vec![eq(2), eq(3)]).in_order(),
        ])
        .in_order(),
    );
    assert!(result.unwrap_err().contains(
        "Expected: has elements:
  0. has elements:
       0. is equal to 1
       1. is equal to 2
  1. has elements:
       0. is equal to 2
       1. is equal to 3
Actual: [[0, 1], [1, 2]],
  where:
    * element #0 is [0, 1], where:
        * element #0 is 0, which isn't equal to 1
        * element #1 is 1, which isn't equal to 2
    * element #1 is [1, 2], where:
        * element #0 is 1, which isn't equal to 2
        * element #1 is 2, which isn't equal to 3"
    ));
}

#[test]
fn contains_exactly_in_order_explains_mismatch_due_to_wrong_size() {
    let result =
        verify_that(&[2, 3], "[2, 3]", &contains_exactly(vec![eq(2), eq(3), eq(4)]).in_order());
    assert!(result.unwrap_err().contains("whose size is 2"));
}

#[test]
fn contains_exactly_in_order_works_when_matcher_is_created_in_subroutine() -> Result<(), String> {
    fn create_matcher() -> impl Matcher<Vec<i32>> {
        contains_exactly(vec![eq(1)]).in_order()
    }
    verify_that(&vec![1], "vec![1]", &create_matcher())
}

#[test]
fn contains_each_in_order_matches_when_all_elements_present() -> Result<(), String> {
    verify_that(&vec![2, 3, 4], "vec![2, 3, 4]", &contains_each(vec![eq(2), eq(3), eq(4)]).in_order())
}

#[test]
fn contains_each_in_order_matches_when_first_element_has_no_corresponding_matcher(
) -> Result<(), String> {
    verify_that(&vec![2, 3, 4], "vec![2, 3, 4]", &contains_each(vec![eq(3), eq(4)]).in_order())
}

#[test]
fn contains_each_in_order_matches_when_second_element_has_no_corresponding_matcher(
) -> Result<(), String> {
    verify_that(&vec![2, 3, 4], "vec![2, 3, 4]", &contains_each(vec![eq(2), eq(4)]).in_order())
}

#[test]
fn contains_each_in_order_matches_when_third_element_has_no_corresponding_matcher(
) -> Result<(), String> {
    verify_that(&vec![2, 3, 4], "vec![2, 3, 4]", &contains_each(vec![eq(2), eq(3)]).in_order())
}

#[test]
fn contains_each_in_order_matches_when_first_and_third_elements_have_no_corresponding_matchers(
) -> Result<(), String> {
    verify_that(&vec![2, 3, 4], "vec![2, 3, 4]", &contains_each(vec![eq(2)]).in_order())
}

#[test]
fn contains_each_in_order_matches_when_two_matchers_in_sequence_are_missing() -> Result<(), String> {
    verify_that(&vec![2, 3, 4, 5], "vec![2, 3, 4, 5]", &contains_each(vec![eq(2), eq(5)]).in_order())
}

#[test]
fn contains_each_in_order_does_not_match_when_extra_matcher_is_present() -> Result<(), String> {
    verify_that(
        &vec![2, 3, 4],
        "vec![2, 3, 4]",
        &not(contains_each(vec![eq(2), eq(3), eq(4), eq(5)]).in_order()),
    )
}

#[test]
fn contains_each_in_order_does_not_match_when_matchers_are_out_of_order() -> Result<(), String> {
    verify_that(
        &vec![2, 3, 4],
        "vec![2, 3, 4]",
        &not(contains_each(vec![eq(4), eq(3), eq(2)]).in_order()),
    )
}

#[test]
fn contains_each_in_order_produces_correct_failure_message() {
    let result =
        verify_that(&[1, 2, 3], "[1, 2, 3]", &contains_each(vec![eq(4), eq(2), eq(3)]).in_order());
    assert!(result.unwrap_err().contains(
        "Value of: [1, 2, 3]
Expected: has elements:
  0. is equal to 4
  1. is equal to 2
  2. is equal to 3
Actual: [1, 2, 3],
  where matcher #0 does not match any following elements"
    ));
}

#[test]
fn is_contained_in_in_order_matches_when_all_elements_present() -> Result<(), String> {
    verify_that(&vec![2, 3, 4], "vec![2, 3, 4]", &is_contained_in(vec![eq(2), eq(3), eq(4)]).in_order())
}

#[test]
fn is_contained_in_in_order_matches_when_first_element_has_no_corresponding_matcher(
) -> Result<(), String> {
    verify_that(&vec![3, 4], "vec![3, 4]", &is_contained_in(vec![eq(2), eq(3), eq(4)]).in_order())
}

#[test]
fn is_contained_in_in_order_matches_when_second_matcher_has_no_corresponding_element(
) -> Result<(), String> {
    verify_that(&vec![2, 4], "vec![2, 4]", &is_contained_in(vec![eq(2), eq(3), eq(4)]).in_order())
}

#[test]
fn is_contained_in_in_order_matches_when_third_matcher_has_no_corresponding_element(
) -> Result<(), String> {
    verify_that(&vec![2, 3], "vec![2, 3]", &is_contained_in(vec![eq(2), eq(3), eq(4)]).in_order())
}

#[test]
fn is_contained_in_in_order_matches_when_first_and_third_matchers_have_no_corresponding_elements(
) -> Result<(), String> {
    verify_that(&vec![3], "vec![3]", &is_contained_in(vec![eq(2), eq(3), eq(4)]).in_order())
}

#[test]
fn is_contained_in_in_order_matches_when_two_elements_in_sequence_are_missing() -> Result<(), String> {
    verify_that(
        &vec![2, 5],
        "vec![2, 5]",
        &is_contained_in(vec![eq(2), eq(3), eq(4), eq(5)]).in_order(),
    )
}

#[test]
fn is_contained_in_in_order_does_not_match_when_extra_element_is_present() -> Result<(), String> {
    verify_that(
        &vec![2, 3, 4, 5],
        "vec![2, 3, 4, 5]",
        &not(is_contained_in(vec![eq(2), eq(3), eq(4)]).in_order()),
    )
}

#[test]
fn is_contained_in_in_order_does_not_match_when_matchers_are_out_of_order() -> Result<(), String> {
    verify_that(
        &vec![2, 3, 4],
        "vec![2, 3, 4]",
        &not(is_contained_in(vec![eq(4), eq(3), eq(2)]).in_order()),
    )
}

#[test]
fn is_contained_in_in_order_produces_correct_failure_message() {
    let result =
        verify_that(&[1, 2, 3], "[1, 2, 3]", &is_contained_in(vec![eq(4), eq(2), eq(3)]).in_order());
    assert!(result.unwrap_err().contains(
        "Value of: [1, 2, 3]
Expected: has elements:
  0. is equal to 4
  1. is equal to 2
  2. is equal to 3
Actual: [1, 2, 3],
  where element #0 is not matched by any following matcher"
    ));
}

// In any order

#[test]
fn contains_exactly_matches_empty_vector() -> Result<(), String> {
    let value: Vec<u32> = vec![];
    verify_that(&value, "value", &contains_exactly(no_matchers()))
}

#[test]
fn contains_exactly_matches_empty_vector_with_trailing_comma() -> Result<(), String> {
    let value: Vec<u32> = vec![];
    verify_that(&value, "value", &contains_exactly(()))
}

#[test]
fn contains_exactly_matches_empty_array() -> Result<(), String> {
    let value: [u32; 0] = [];
    verify_that(&value, "value", &contains_exactly(no_matchers()))
}

#[test]
fn contains_exactly_matches_vec() -> Result<(), String> {
    verify_that(&vec![1, 2, 3], "vec![1, 2, 3]", &contains_exactly(vec![eq(1), eq(2), eq(3)]))
}

#[test]
fn contains_exactly_matches_vec_with_trailing_comma() -> Result<(), String> {
    verify_that(&vec![1, 2, 3], "vec![1, 2, 3]", &contains_exactly(vec![eq(1), eq(2), eq(3)]))
}

#[test]
fn contains_exactly_matches_vec_out_of_order() -> Result<(), String> {
    verify_that(&vec![1, 2, 3], "vec![1, 2, 3]", &contains_exactly(vec![eq(2), eq(3), eq(1)]))
}

#[test]
fn contains_exactly_matches_vec_with_repetition() -> Result<(), String> {
    verify_that(
        &vec![1, 2, 3, 1, 2, 3],
        "vec![1, 2, 3, 1, 2, 3]",
        &contains_exactly(vec![eq(1), eq(1), eq(2), eq(2), eq(3), eq(3)]),
    )
}

#[test]
fn contains_exactly_matches_vec_with_ambigous_matchers() -> Result<(), String> {
    verify_that(
        &vec![1, 2, 3],
        "vec![1, 2, 3]",
        &contains_exactly((anything(), (anything(), (eq(1),)))),
    )
}

#[test]
fn contains_exactly_does_not_match_vec_when_no_perfect_match_is_possible() -> Result<(), String> {
    verify_that(&vec![1, 2, 3], "vec![1, 2, 3]", &not(contains_exactly((ge(3), (eq(3), (eq(1),))))))
}

#[test]
fn contains_exactly_does_not_match_vector_with_extra_elements() -> Result<(), String> {
    verify_that(&vec![1, 2, 3], "vec![1, 2, 3]", &not(contains_exactly(vec![eq(1), eq(2)])))
}

#[test]
fn contains_exactly_does_not_match_vector_with_missing_elements() -> Result<(), String> {
    verify_that(&vec![1, 2], "vec![1, 2]", &not(contains_exactly(vec![eq(1), eq(2), eq(3)])))
}

#[test]
fn contains_exactly_matches_array() -> Result<(), String> {
    verify_that(&[1, 2, 3], "[1, 2, 3]", &contains_exactly(vec![eq(1), eq(2), eq(3)]))
}

#[test]
fn contains_exactly_matches_ref_of_array_with_points_to() -> Result<(), String> {
    verify_that(&&[1, 2, 3], "&[1, 2, 3]", &points_to(contains_exactly(vec![eq(1), eq(2), eq(3)])))
}

#[test]
fn contains_exactly_matches_ref_of_array_with_deref_notation() -> Result<(), String> {
    let value = &[1, 2, 3];
    verify_that(value, "*value", &contains_exactly(vec![eq(1), eq(2), eq(3)]))
}

#[test]
fn contains_exactly_matches_slice_with_points_to() -> Result<(), String> {
    let value = vec![1, 2, 3];
    verify_that(&value.as_slice(), "value.as_slice()", &contains_exactly(vec![eq(1), eq(2), eq(3)]))
}

#[test]
fn contains_exactly_matches_slice_with_deref_notation() -> Result<(), String> {
    let value = vec![1, 2, 3];
    let slice = value.as_slice();
    verify_that(&slice, "*slice", &contains_exactly(vec![eq(1), eq(2), eq(3)]))
}

#[test]
fn contains_exactly_matches_vec_with_references() -> Result<(), String> {
    verify_that(
        &vec![&1, &2, &3],
        "vec![&1, &2, &3]",
        &contains_exactly(vec![points_to(eq(1)), points_to(eq(2)), points_to(eq(3))]),
    )
}

#[test]
fn contains_exactly_matches_vec_of_string_slices() -> Result<(), String> {
    verify_that(
        &vec!["String 1", "String 2", "String 3"],
        "vec![\"String 1\", \"String 2\", \"String 3\"]",
        &contains_exactly(vec![
            contains_substring("1"),
            contains_substring("2"),
            contains_substring("3"),
        ]),
    )
}

#[test]
fn contains_exactly_matches_vec_of_string_slices_with_non_static_lifetime() -> Result<(), String> {
    let string_1 = String::from("String 1");
    let string_2 = String::from("String 2");
    let string_3 = String::from("String 3");
    verify_that(
        &vec![string_1.as_str(), string_2.as_str(), string_3.as_str()],
        "vec![string_1.as_str(), string_2.as_str(), string_3.as_str()]",
        &contains_exactly(vec![
            contains_substring("1"),
            contains_substring("2"),
            contains_substring("3"),
        ]),
    )
}

#[test]
fn contains_exactly_matches_slice_of_string_slices() -> Result<(), String> {
    let value = vec!["String 1", "String 2", "String 3"];
    verify_that(
        &value.as_slice(),
        "value.as_slice()",
        &contains_exactly(vec![
            contains_substring("1"),
            contains_substring("2"),
            contains_substring("3"),
        ]),
    )
}

#[test]
fn contains_exactly_matches_slice_of_string_slices_with_non_static_lifetime() -> Result<(), String> {
    let string_1 = String::from("String 1");
    let string_2 = String::from("String 2");
    let string_3 = String::from("String 3");
    let value = vec![string_1.as_str(), string_2.as_str(), string_3.as_str()];
    verify_that(
        &value.as_slice(),
        "value.as_slice()",
        &contains_exactly(vec![
            contains_substring("1"),
            contains_substring("2"),
            contains_substring("3"),
        ]),
    )
}

#[test]
fn matches_with_curly_bracket_notation() -> Result<(), String> {
    verify_that(&vec![1, 2, 3], "vec![1, 2, 3]", &contains_exactly(vec![eq(3), eq(2), eq(1)]))
}

#[test]
fn contains_exactly_admits_matchers_without_static_lifetime() -> Result<(), String> {
    let expected_value = String::from("123");
    verify_that(
        &vec![String::from("123")],
        "vec![String::from(\"123\")]",
        &contains_exactly(vec![eq(expected_value.as_str())]),
    )
}

#[test]
fn contains_exactly_produces_correct_failure_explanation() {
    let result = verify_that(&[1, 4, 3], "[1, 4, 3]", &contains_exactly(vec![eq(1), eq(2), eq(3)]));
    assert!(result.unwrap_err().contains(
        "Value of: [1, 4, 3]
Expected: contains elements matching in any order:
  0. is equal to 1
  1. is equal to 2
  2. is equal to 3
Actual: [1, 4, 3],
  whose element #1 does not match any expected elements and no elements match the expected element #1"
    ));
}

#[test]
fn contains_exactly_produces_correct_failure_explanation_for_no_perfect_match() {
    let result = verify_that(&[1, 1, 2], "[1, 1, 2]", &contains_exactly(vec![eq(1), eq(2), eq(2)]));
    assert!(result.unwrap_err().contains(
        "
  which does not have a perfect match with the expected elements. The best match found was:
    Actual element 1 at index 0 matched expected element `is equal to 1` at index 0.
    Actual element 2 at index 2 matched expected element `is equal to 2` at index 1.
    Actual element 1 at index 1 did not match any remaining expected element.
    Expected element `is equal to 2` at index 2 did not match any remaining actual element."
    ));
}

#[test]
fn contains_exactly_failure_explanation_contains_clause_about_missing_element() {
    let result = verify_that(&[1, 1, 3], "[1, 1, 3]", &contains_exactly(vec![eq(1), eq(2), eq(3)]));
    assert!(result.unwrap_err().contains("which has no element matching the expected element #1"));
}

#[test]
fn contains_exactly_produces_correct_failure_message_when_matchers_are_nested() {
    let result = verify_that(
        &[[0, 1], [1, 2]],
        "[[0, 1], [1, 2]]",
        &contains_exactly(vec![
            contains_exactly(vec![eq(1), eq(2)]),
            contains_exactly(vec![eq(2), eq(3)]),
        ]),
    );
    assert!(result.unwrap_err().contains(
        "Expected: contains elements matching in any order:
  0. contains elements matching in any order:
       0. is equal to 1
       1. is equal to 2
  1. contains elements matching in any order:
       0. is equal to 2
       1. is equal to 3
Actual: [[0, 1], [1, 2]],
  whose element #0 does not match any expected elements and no elements match the expected element #1"
    ));
}

#[test]
fn contains_exactly_explains_mismatch_due_to_wrong_size() {
    let result = verify_that(&[2, 3], "[2, 3]", &contains_exactly(vec![eq(2), eq(3), eq(4)]));
    assert!(result.unwrap_err().contains("which has size 2 (expected 3)"));
}

#[test]
fn contains_exactly_works_when_matcher_is_created_in_subroutine() -> Result<(), String> {
    fn create_matcher() -> impl Matcher<Vec<i32>> {
        contains_exactly(vec![eq(1)])
    }
    verify_that(&vec![1], "vec![1]", &create_matcher())
}

#[test]
fn contains_exactly_matches_hash_map() -> Result<(), String> {
    let map = HashMap::from([(1, "One"), (2, "Two"), (3, "Three")]);
    verify_that(
        &entries(&map),
        "HashMap::from([(1, \"One\"), (2, \"Two\"), (3, \"Three\")])",
        &contains_exactly(vec![(eq(2), eq("Two")), (eq(1), eq("One")), (eq(3), eq("Three"))]),
    )
}

#[test]
fn contains_exactly_matches_hash_map_with_trailing_comma() -> Result<(), String> {
    let map = HashMap::from([(1, "One"), (2, "Two"), (3, "Three")]);
    verify_that(
        &entries(&map),
        "HashMap::from([(1, \"One\"), (2, \"Two\"), (3, \"Three\")])",
        &contains_exactly(vec![(eq(2), eq("Two")), (eq(1), eq("One")), (eq(3), eq("Three"))]),
    )
}

#[test]
fn contains_exactly_does_not_match_hash_map_with_wrong_key() -> Result<(), String> {
    let map = HashMap::from([(1, "One"), (2, "Two"), (4, "Three")]);
    verify_that(
        &entries(&map),
        "HashMap::from([(1, \"One\"), (2, \"Two\"), (4, \"Three\")])",
        &not(contains_exactly(vec![(eq(2), eq("Two")), (eq(1), eq("One")), (eq(3), eq("Three"))])),
    )
}

#[test]
fn contains_exactly_does_not_match_hash_map_with_wrong_value() -> Result<(), String> {
    let map = HashMap::from([(1, "One"), (2, "Two"), (3, "Four")]);
    verify_that(
        &entries(&map),
        "HashMap::from([(1, \"One\"), (2, \"Two\"), (3, \"Four\")])",
        &not(contains_exactly(vec![(eq(2), eq("Two")), (eq(1), eq("One")), (eq(3), eq("Three"))])),
    )
}

#[test]
fn contains_exactly_does_not_match_hash_map_missing_element() -> Result<(), String> {
    let map = HashMap::from([(1, "One"), (2, "Two")]);
    verify_that(
        &entries(&map),
        "HashMap::from([(1, \"One\"), (2, \"Two\")])",
        &not(contains_exactly(vec![(eq(2), eq("Two")), (eq(1), eq("One")), (eq(3), eq("Three"))])),
    )
}

#[test]
fn contains_exactly_does_not_match_hash_map_with_extra_element() -> Result<(), String> {
    let map = HashMap::from([(1, "One"), (2, "Two"), (3, "Three")]);
    verify_that(
        &entries(&map),
        "HashMap::from([(1, \"One\"), (2, \"Two\"), (3, \"Three\")])",
        &not(contains_exactly(vec![(eq(2), eq("Two")), (eq(1), eq("One"))])),
    )
}

#[test]
fn contains_exactly_does_not_match_hash_map_with_mismatched_key_and_value() -> Result<(), String> {
    let map = HashMap::from([(1, "One"), (2, "Three"), (3, "Two")]);
    verify_that(
        &entries(&map),
        "HashMap::from([(1, \"One\"), (2, \"Three\"), (3, \"Two\")])",
        &not(contains_exactly(vec![(eq(2), eq("Two")), (eq(1), eq("One")), (eq(3), eq("Three"))])),
    )
}

#[test]
fn contains_exactly_with_map_admits_matchers_without_static_lifetime() -> Result<(), String> {
    let expected_value = String::from("123");
    let map = HashMap::from([(1, String::from("123"))]);
    verify_that(
        &entries(&map),
        "HashMap::from([(1, String::from(\"123\"))])",
        &contains_exactly(vec![(eq(1), eq(expected_value.as_str()))]),
    )
}

#[test]
fn contains_exactly_works_when_matcher_for_maps_is_created_in_subroutine() -> Result<(), String> {
    fn create_matcher() -> impl Matcher<Vec<(i32, i32)>> {
        contains_exactly(vec![(eq(1), eq(1))])
    }
    let map = HashMap::from([(1, 1)]);
    verify_that(&entries(&map), "HashMap::from([(1, 1)])", &create_matcher())
}

#[test]
fn contains_each_matches_when_one_to_one_correspondence_present() -> Result<(), String> {
    verify_that(&vec![2, 3, 4], "vec![2, 3, 4]", &contains_each(vec![eq(2), eq(3), eq(4)]))
}

#[test]
fn contains_each_supports_trailing_comma() -> Result<(), String> {
    verify_that(&vec![2, 3, 4], "vec![2, 3, 4]", &contains_each(vec![eq(2), eq(3), eq(4)]))
}

#[test]
fn contains_each_matches_hash_map() -> Result<(), String> {
    let map = HashMap::from([(1, "One"), (2, "Two"), (3, "Three")]);
    verify_that(
        &entries(&map),
        "HashMap::from([(1, \"One\"), (2, \"Two\"), (3, \"Three\")])",
        &contains_each(vec![(eq(2), eq("Two")), (eq(1), eq("One"))]),
    )
}

#[test]
fn contains_each_matches_hash_map_with_trailing_comma() -> Result<(), String> {
    let map = HashMap::from([(1, "One"), (2, "Two"), (3, "Three")]);
    verify_that(
        &entries(&map),
        "HashMap::from([(1, \"One\"), (2, \"Two\"), (3, \"Three\")])",
        &contains_each(vec![(eq(2), eq("Two")), (eq(1), eq("One"))]),
    )
}

#[test]
fn contains_each_matches_when_no_matchers_present() -> Result<(), String> {
    verify_that(&vec![2, 3, 4], "vec![2, 3, 4]", &contains_each(()))
}

#[test]
fn contains_each_matches_when_no_matchers_present_and_trailing_comma() -> Result<(), String> {
    verify_that(&vec![2, 3, 4], "vec![2, 3, 4]", &contains_each(()))
}

#[test]
fn contains_each_matches_when_list_is_empty_and_no_matchers_present() -> Result<(), String> {
    verify_that(&Vec::<u32>::new(), "Vec::<u32>::new()", &contains_each(()))
}

#[test]
fn contains_each_matches_when_excess_elements_present() -> Result<(), String> {
    verify_that(&vec![1, 2, 3, 4], "vec![1, 2, 3, 4]", &contains_each(vec![eq(2), eq(3), eq(4)]))
}

#[test]
fn contains_each_does_not_match_when_matchers_are_unmatched() -> Result<(), String> {
    verify_that(&vec![1, 2, 3], "vec![1, 2, 3]", &not(contains_each(vec![eq(2), eq(3), eq(4)])))
}

#[test]
fn contains_each_explains_mismatch_due_to_wrong_size() {
    let result = verify_that(&[2, 3], "[2, 3]", &contains_each(vec![eq(2), eq(3), eq(4)]));
    assert!(result.unwrap_err().contains("which has size 2 (expected at least 3)"));
}

#[test]
fn contains_each_explains_missing_element_in_mismatch() {
    let result = verify_that(&[1, 2, 3], "[1, 2, 3]", &contains_each(vec![eq(2), eq(3), eq(4)]));
    assert!(result.unwrap_err().contains("which has no element matching the expected element #2"));
}

#[test]
fn contains_each_explains_missing_elements_in_mismatch() {
    let result =
        verify_that(&[0, 1, 2, 3], "[0, 1, 2, 3]", &contains_each(vec![eq(2), eq(3), eq(4), eq(5)]));
    assert!(result
        .unwrap_err()
        .contains("which has no elements matching the expected elements #2, #3"));
}

#[test]
fn contains_each_explains_mismatch_due_to_no_graph_matching_found() {
    let result = verify_that(&[1, 2], "[1, 2]", &contains_each(vec![ge(2), ge(2)]));
    assert!(result.unwrap_err().contains(
        "
  which does not have a superset match with the expected elements. The best match found was:
    Actual element 2 at index 1 matched expected element `is greater than or equal to 2` at index 0.
    Actual element 1 at index 0 did not match any remaining expected element.
    Expected element `is greater than or equal to 2` at index 1 did not match any remaining actual element."
    ));
}

#[test]
fn is_contained_in_matches_with_empty_vector() -> Result<(), String> {
    let value: Vec<u32> = vec![];
    verify_that(&value, "value", &is_contained_in(()))
}

#[test]
fn is_contained_in_matches_with_empty_vector_and_trailing_comma() -> Result<(), String> {
    let value: Vec<u32> = vec![];
    verify_that(&value, "value", &is_contained_in(()))
}

#[test]
fn is_contained_in_matches_when_one_to_one_correspondence_present() -> Result<(), String> {
    verify_that(&vec![2, 3, 4], "vec![2, 3, 4]", &is_contained_in(vec![eq(2), eq(3), eq(4)]))
}

#[test]
fn is_contained_supports_trailing_comma() -> Result<(), String> {
    verify_that(&vec![2, 3, 4], "vec![2, 3, 4]", &is_contained_in(vec![eq(2), eq(3), eq(4)]))
}

#[test]
fn is_contained_in_matches_hash_map() -> Result<(), String> {
    let map = HashMap::from([(1, "One"), (2, "Two")]);
    verify_that(
        &entries(&map),
        "HashMap::from([(1, \"One\"), (2, \"Two\")])",
        &is_contained_in(vec![(eq(2), eq("Two")), (eq(1), eq("One")), (eq(3), eq("Three"))]),
    )
}

#[test]
fn is_contained_in_matches_hash_map_with_trailing_comma() -> Result<(), String> {
    let map = HashMap::from([(1, "One"), (2, "Two")]);
    verify_that(
        &entries(&map),
        "HashMap::from([(1, \"One\"), (2, \"Two\")])",
        &is_contained_in(vec![(eq(2), eq("Two")), (eq(1), eq("One")), (eq(3), eq("Three"))]),
    )
}

#[test]
fn is_contained_in_matches_when_container_is_empty() -> Result<(), String> {
    let value = Vec::<i32>::new();
    verify_that(&value, "value", &is_contained_in(vec![eq(2), eq(3), eq(4)]))
}

#[test]
fn is_contained_in_matches_when_excess_matchers_present() -> Result<(), String> {
    verify_that(&vec![3, 4], "vec![3, 4]", &is_contained_in(vec![eq(2), eq(3), eq(4)]))
}

#[test]
fn is_contained_in_does_not_match_when_elements_are_unmatched() -> Result<(), String> {
    verify_that(&vec![1, 2, 3], "vec![1, 2, 3]", &not(is_contained_in(vec![eq(2), eq(3), eq(4)])))
}

#[test]
fn is_contained_in_explains_mismatch_due_to_wrong_size() {
    let result = verify_that(&[2, 3, 4], "[2, 3, 4]", &is_contained_in(vec![eq(2), eq(3)]));
    assert!(result.unwrap_err().contains("which has size 3 (expected at most 2)"));
}

#[test]
fn is_contained_in_explains_missing_element_in_mismatch() {
    let result = verify_that(&[1, 2, 3], "[1, 2, 3]", &is_contained_in(vec![eq(2), eq(3), eq(4)]));
    assert!(result.unwrap_err().contains("whose element #0 does not match any expected elements"));
}

#[test]
fn is_contained_in_explains_missing_elements_in_mismatch() {
    let result = verify_that(
        &[0, 1, 2, 3],
        "[0, 1, 2, 3]",
        &is_contained_in(vec![eq(2), eq(3), eq(4), eq(5)]),
    );
    assert!(result.unwrap_err().contains("whose elements #0, #1 do not match any expected elements"));
}

#[test]
fn is_contained_in_explains_mismatch_due_to_no_graph_matching_found() {
    let result = verify_that(&[1, 2], "[1, 2]", &is_contained_in(vec![ge(1), ge(3)]));
    assert!(result.unwrap_err().contains(
        "
  which does not have a subset match with the expected elements. The best match found was:
    Actual element 1 at index 0 matched expected element `is greater than or equal to 1` at index 0.
    Actual element 2 at index 1 did not match any remaining expected element.
    Expected element `is greater than or equal to 3` at index 1 did not match any remaining actual element."
    ));
}
