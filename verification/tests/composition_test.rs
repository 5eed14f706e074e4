use test_that::assertions::verify_that;
use test_that::compat::{elements_are, unordered_elements_are};
use test_that::error_source::returns_wrapping_anyhow_error;
use test_that::matcher::{Describable, Matcher, MatcherResult};
use test_that::matchers::all_matcher::AllMatcher;
use test_that::matchers::any_matcher::AnyMatcher;
use test_that::matchers::anything_matcher::anything;
use test_that::matchers::containers::container_contains::unordered_matcher::{
    contains_each, contains_exactly,
};
use test_that::matchers::containers::contains_matcher::contains;
use test_that::matchers::containers::each_matcher::each;
use test_that::matchers::containers::empty_matcher::empty;
use test_that::matchers::containers::len_matcher::len;
use test_that::matchers::containers::subset_of_matcher::subset_of;
use test_that::matchers::display_matcher::displays_as;
use test_that::matchers::eq_matcher::eq;
use test_that::matchers::field_matcher::field_matcher;
use test_that::matchers::has_entry_matcher::has_entry;
use test_that::matchers::not_matcher::not;
use test_that::matchers::option_matchers::{none, some};
use test_that::matchers::ord_matchers::{gt, lt};
use test_that::matchers::points_to_matcher::points_to;
use test_that::matchers::property_matcher::property_matcher;
use test_that::matchers::result_matchers::{err, ok};
use test_that::matchers::result_of_matcher::ResultOfMatcher;
use test_that::matchers::str_matcher::{contains_substring, ends_with, starts_with};

/// The field `inner` of an outer struct, held as a one-element tuple.
fn inner_of<'a, 'b>(s: &'a ((&'b str,),)) -> Option<&'a (&'b str,)> {
    Some(&s.0)
}

/// The field `string` of an inner struct, held as a one-element tuple.
fn string_of<'a, 'b>(s: &'a (&'b str,)) -> Option<&'a &'b str> {
    Some(&s.0)
}

/// The payload of `Some`.
fn payload_of(o: &Option<i32>) -> Option<&i32> {
    o.as_ref()
}

// Matchers inside other matchers

#[test]
fn all_matcher_works_as_inner_matcher() -> Result<(), String> {
    let value = vec![1];
    verify_that(&value, "value", &contains_each(vec![AllMatcher::new((gt(0), (lt(2),)))]))
}

#[test]
fn tuple_works_as_inner_matcher() -> Result<(), String> {
    verify_that(&vec![(123,)], "vec![(123,)]", &contains_exactly(vec![(eq(123),)]))
}

#[test]
fn result_of_can_be_nested() -> Result<(), String> {
    let string = String::from("Hello, world");
    let value = ((string.as_str(),),);
    verify_that(
        &value,
        "value",
        &ResultOfMatcher::new(
            "|s: &OuterStruct| s.inner",
            ResultOfMatcher::new("|s: &InnerStruct| s.string", starts_with("Hello"), |s: &(&str,)| s.0),
            |s: &((&str,),)| s.0,
        ),
    )
}

#[test]
fn result_of_can_be_nested_inside_field() -> Result<(), String> {
    let string = String::from("Hello, world");
    let value = ((string.as_str(),),);
    verify_that(
        &value,
        "value",
        &field_matcher(inner_of, "inner").with(ResultOfMatcher::new(
            "|s: &InnerStruct| s.string",
            starts_with("Hello"),
            |s: &(&str,)| s.0,
        )),
    )
}

#[test]
fn field_can_be_nested_inside_result_of() -> Result<(), String> {
    let string = String::from("Hello, world");
    let value = ((string.as_str(),),);
    verify_that(
        &value,
        "value",
        &ResultOfMatcher::new(
            "|s: &OuterStruct| s.inner",
            field_matcher(string_of, "string").with(starts_with("Hello")),
            |s: &((&str,),)| s.0,
        ),
    )
}

// Compatibility names

#[test]
fn elements_are_maps_to_contains_exactly_in_order() -> Result<(), String> {
    verify_that(&vec![1, 2, 3], "vec![1, 2, 3]", &elements_are(vec![eq(1), eq(2), eq(3)]))?;
    verify_that(&vec![1, 2, 3], "vec![1, 2, 3]", &not(elements_are(vec![eq(3), eq(2), eq(1)])))
}

#[test]
fn unordered_elements_are_maps_to_contains_exactly() -> Result<(), String> {
    verify_that(&vec![1, 2, 3], "vec![1, 2, 3]", &unordered_elements_are(vec![eq(1), eq(2), eq(3)]))?;
    verify_that(&vec![1, 2, 3], "vec![1, 2, 3]", &unordered_elements_are(vec![eq(3), eq(2), eq(1)]))
}

#[test]
fn unordered_elements_are_uses_map_matcher_when_matching_pairs() -> Result<(), String> {
    let map = std::collections::HashMap::from([(1, 1)]);
    let entries: Vec<(i32, i32)> = map.into_iter().collect();
    verify_that(&entries, "HashMap::from([(1, 1)])", &unordered_elements_are(vec![(eq(1), eq(1))]))
}

// Errors with a source

#[test]
fn test_assert_on_anyhow_source_allows_asserting_on_error_source() {
    let result = returns_wrapping_anyhow_error();
    let error = result.unwrap_err();
    let source = error.source().unwrap();
    assert_eq!(displays_as(eq("Anyhow error")).matches(&source), MatcherResult::Match);
}

#[test]
fn anyhow_error_displays_its_chain_in_alternate_rendering() {
    let error = returns_wrapping_anyhow_error().unwrap_err();
    assert_eq!(displays_as(eq("Wrapping context")).matches(&error), MatcherResult::Match);
    assert_eq!(
        displays_as(eq("Wrapping context: Anyhow error")).alternate().matches(&error),
        MatcherResult::Match
    );
}

#[test]
fn can_use_displays_as_inside_okay() -> Result<(), String> {
    let subject = (123u32,);
    verify_that(
        &subject,
        "subject",
        &property_matcher(
            "returns_field_in_result()",
            ok(displays_as(eq("123"))),
            |s: &(u32,)| -> Result<u32, ()> { Ok(s.0) },
        ),
    )
}

// Compositions of matchers

#[test]
fn vec_of_options_each_some_and_positive() -> Result<(), String> {
    let value: Vec<Option<i32>> = vec![Some(1), Some(2), Some(3)];
    verify_that(&value, "value", &each(some(gt(0))))
}

#[test]
fn nested_vec_each_inner_vec_contains_only_positive() -> Result<(), String> {
    let value: Vec<Vec<i32>> = vec![vec![1, 2], vec![3, 4, 5]];
    verify_that(&value, "value", &each(each(gt(0))))
}

#[test]
fn option_of_vec_of_strings_some_with_exact_elements() -> Result<(), String> {
    let value: Option<Vec<String>> = Some(vec!["alpha".to_string(), "beta".to_string()]);
    verify_that(&value, "value", &some(contains_exactly(vec![eq("alpha"), eq("beta")]).in_order()))
}

#[test]
fn result_ok_of_vec_of_options_each_some_positive() -> Result<(), String> {
    let value: Result<Vec<Option<i32>>, String> = Ok(vec![Some(10), Some(20)]);
    verify_that(&value, "value", &ok(each(some(gt(0)))))
}

#[test]
fn all_matcher_on_option_with_some_and_range() -> Result<(), String> {
    let value: Option<i32> = Some(5);
    verify_that(
        &value,
        "value",
        &AllMatcher::new((not(none()), (some(AllMatcher::new((gt(0), (lt(10),)))),))),
    )
}

#[test]
fn has_entry_with_vec_of_options_value() -> Result<(), String> {
    let mut map: std::collections::HashMap<&str, Vec<Option<i32>>> =
        std::collections::HashMap::new();
    map.insert("key", vec![Some(1), None, Some(3)]);
    let entries: Vec<(&str, Vec<Option<i32>>)> = map.into_iter().collect();
    verify_that(&entries, "map", &has_entry("key", contains(some(gt(0)))))
}

#[test]
fn contains_each_with_ok_starts_with_matchers() -> Result<(), String> {
    let value: Vec<Result<String, i32>> =
        vec![Ok("hello world".to_string()), Ok("goodbye".to_string())];
    verify_that(&value, "value", &contains_each(vec![ok(starts_with("hello")), ok(starts_with("good"))]))
}

#[test]
fn vec_of_options_each_none_or_negative() -> Result<(), String> {
    let value: Vec<Option<i32>> = vec![None, Some(-1), None, Some(-5)];
    verify_that(&value, "value", &each(AnyMatcher::new((none(), (some(lt(0)),)))))
}

#[test]
fn contains_each_with_tuple_and_option_string() -> Result<(), String> {
    let value: Vec<(i32, Option<String>)> =
        vec![(1, Some("apple".to_string())), (2, Some("banana".to_string()))];
    verify_that(
        &value,
        "value",
        &contains_each(vec![(eq(1), some(starts_with("app"))), (eq(2), some(starts_with("ban")))]),
    )
}

#[test]
fn ok_with_displays_as_matcher() -> Result<(), String> {
    let value: Result<i32, String> = Ok(42);
    verify_that(&value, "value", &ok(displays_as(eq("42"))))
}

#[test]
fn some_of_vec_with_len_and_each_constraints() -> Result<(), String> {
    let value: Option<Vec<i32>> = Some(vec![7, 8, 9]);
    verify_that(&value, "value", &some(AllMatcher::new((len(eq(3)), (each(gt(0)),)))))
}

#[test]
fn ok_of_vec_is_subset_of_set() -> Result<(), String> {
    let value: Result<Vec<i32>, String> = Ok(vec![1, 3]);
    verify_that(&value, "value", &ok(subset_of([1, 2, 3, 4, 5])))
}

#[test]
fn each_ok_not_contains_substring() -> Result<(), String> {
    let value: Vec<Result<String, i32>> = vec![Ok("hello".to_string()), Ok("world".to_string())];
    verify_that(&value, "value", &each(ok(not(contains_substring("bad")))))
}

#[test]
fn points_to_with_all_range_matchers() -> Result<(), String> {
    let n = 42i32;
    verify_that(&&n, "&n", &points_to(AllMatcher::new((gt(0), (lt(100),)))))
}

#[test]
fn all_contains_and_not_contains_on_vec() -> Result<(), String> {
    let value = vec![1, 2, 3];
    verify_that(&value, "value", &AllMatcher::new((contains(eq(2)), (not(contains(eq(99))),))))
}

#[test]
fn any_ok_positive_or_err_negative_on_result() -> Result<(), String> {
    let ok_value: Result<i32, i32> = Ok(5);
    let err_value: Result<i32, i32> = Err(-3);
    verify_that(&ok_value, "ok_value", &AnyMatcher::new((ok(gt(0)), (err(lt(0)),))))?;
    verify_that(&err_value, "err_value", &AnyMatcher::new((ok(gt(0)), (err(lt(0)),))))
}

#[test]
fn not_some_gt_on_option() -> Result<(), String> {
    let none_val: Option<i32> = None;
    let small_val: Option<i32> = Some(5);
    verify_that(&none_val, "none_val", &not(some(gt(10))))?;
    verify_that(&small_val, "small_val", &not(some(gt(10))))
}

#[test]
fn points_to_vec_each_any_of_allowed_values() -> Result<(), String> {
    let v = vec![1, 2, 1, 3, 2];
    verify_that(&&v, "&v", &points_to(each(AnyMatcher::new((eq(1), (eq(2), (eq(3),)))))))
}

#[test]
fn all_len_gt_zero_and_not_empty() -> Result<(), String> {
    let value = vec![42];
    verify_that(&value, "value", &AllMatcher::new((len(gt(0)), (not(empty()),))))
}

#[test]
fn ok_all_starts_with_and_ends_with() -> Result<(), String> {
    let value: Result<String, i32> = Ok("foobar".to_string());
    verify_that(&value, "value", &ok(AllMatcher::new((starts_with("foo"), (ends_with("bar"),)))))
}

#[test]
fn points_to_not_empty_vec() -> Result<(), String> {
    let v = vec![1, 2, 3];
    verify_that(&&v, "&v", &points_to(not(empty())))
}

#[test]
fn all_not_err_and_ok_in_range() -> Result<(), String> {
    let value: Result<i32, String> = Ok(7);
    verify_that(
        &value,
        "value",
        &AllMatcher::new((not(err(anything())), (ok(AllMatcher::new((gt(0), (lt(10),)))),))),
    )
}

#[test]
fn points_to_some_not_zero() -> Result<(), String> {
    let opt: Option<i32> = Some(5);
    verify_that(&&opt, "&opt", &points_to(some(not(eq(0)))))
}

#[test]
fn some_eq_on_option_of_non_static_str_ref() -> Result<(), String> {
    let s = String::from("hello");
    let value: Option<&str> = Some(&s);
    verify_that(&value, "value", &some(eq("hello")))
}

#[test]
fn ok_eq_on_result_of_non_static_str_ref() -> Result<(), String> {
    let s = String::from("hello");
    let value: Result<&str, i32> = Ok(&s);
    verify_that(&value, "value", &ok(eq("hello")))
}

#[test]
fn each_points_to_on_vec_of_non_static_i32_refs() -> Result<(), String> {
    let a = 1i32;
    let b = 2i32;
    let c = 3i32;
    let value: Vec<&i32> = vec![&a, &b, &c];
    verify_that(&value, "value", &each(points_to(gt(0))))
}

#[test]
fn contains_each_eq_on_vec_of_non_static_str_refs() -> Result<(), String> {
    let a = String::from("foo");
    let b = String::from("bar");
    let value: Vec<&str> = vec![&a, &b];
    verify_that(&value, "value", &contains_each(vec![eq("foo"), eq("bar")]))
}

#[test]
fn all_starts_with_not_eq_on_non_static_str_ref() -> Result<(), String> {
    let s = String::from("hello world");
    let value: &str = &s;
    verify_that(&value, "value", &AllMatcher::new((starts_with("hello"), (not(eq("hello")),))))
}

#[test]
fn any_some_or_none_on_option_of_non_static_i32_ref() -> Result<(), String> {
    let n = 5i32;
    let some_val: Option<&i32> = Some(&n);
    let none_val: Option<&i32> = None;
    verify_that(&some_val, "some_val", &AnyMatcher::new((some(points_to(gt(0))), (none(),))))?;
    verify_that(&none_val, "none_val", &AnyMatcher::new((some(points_to(gt(0))), (none(),))))
}

#[test]
fn points_to_some_eq_on_ref_to_option_of_non_static_str_ref() -> Result<(), String> {
    let s = String::from("hello");
    let opt: Option<&str> = Some(&s);
    verify_that(&&opt, "&opt", &points_to(some(eq("hello"))))
}

#[test]
fn each_ok_eq_on_vec_of_results_with_non_static_str_refs() -> Result<(), String> {
    let a = String::from("foo");
    let b = String::from("bar");
    let value: Vec<Result<&str, i32>> = vec![Ok(&a), Ok(&b)];
    verify_that(&value, "value", &each(ok(AnyMatcher::new((eq("foo"), (eq("bar"),))))))
}

#[test]
fn not_contains_eq_on_vec_of_non_static_str_refs() -> Result<(), String> {
    let a = String::from("foo");
    let b = String::from("bar");
    let value: Vec<&str> = vec![&a, &b];
    verify_that(&value, "value", &not(contains(eq("baz"))))
}

#[test]
fn contains_exactly_in_order_on_slice_ref() -> Result<(), String> {
    let data = [1, 2, 3];
    let value: &[i32] = &data;
    verify_that(&value, "value", &contains_exactly(vec![eq(1), eq(2), eq(3)]).in_order())
}

#[test]
fn vec_of_slices_each_slice_contains_only_positive() -> Result<(), String> {
    let a = [1, 2, 3];
    let b = [4, 5, 6];
    let value: Vec<&[i32]> = vec![&a, &b];
    verify_that(&value, "value", &each(each(gt(0))))
}

#[test]
fn each_starts_with_on_vec_of_str_slices() -> Result<(), String> {
    let value: Vec<&str> = vec!["hello world", "hello there", "hello!"];
    verify_that(&value, "value", &each(starts_with("hello")))
}

#[test]
fn ok_points_to_contains_exactly_on_result_of_slice() -> Result<(), String> {
    let data = [1, 2, 3];
    let value: Result<&[i32], String> = Ok(&data);
    verify_that(&value, "value", &ok(contains_exactly(vec![eq(1), eq(2), eq(3)]).in_order()))
}

#[test]
fn result_of_method_returning_slice_with_each_and_gt() -> Result<(), String> {
    let value = (vec![5, 10, 15],);
    verify_that(
        &value,
        "value",
        &ResultOfMatcher::new("|b: &Buffer| b.as_slice()", each(gt(0)), |b: &(Vec<i32>,)| {
            b.0.clone()
        }),
    )
}

#[test]
fn result_of_returning_option_str_ref_with_some_contains_substring() -> Result<(), String> {
    let value = (Some("hello world".to_string()),);
    verify_that(
        &value,
        "value",
        &ResultOfMatcher::new(
            "|r: &Record| r.description_str()",
            some(contains_substring("world")),
            |r: &(Option<String>,)| r.0.clone(),
        ),
    )
}

#[test]
fn result_of_shows_definition_and_result_in_failure_message() {
    let value = (20u32,);
    let matcher = ResultOfMatcher::new("|s: &SomeStruct| s.a_property", eq(10u32), |s: &(u32,)| s.0);
    let result = verify_that(&value, "value", &matcher);
    assert_eq!(
        result.unwrap_err(),
        "Value of: value
Expected: result of applying `|s: &SomeStruct| s.a_property` is equal to 10
Actual: (20,),
  which after applying `|s: &SomeStruct| s.a_property` results in `20`, which isn't equal to 10
"
    );
    let renamed = matcher.with_custom_definition("a_property");
    assert_eq!(renamed.describe(MatcherResult::NoMatch), "result of applying `a_property` isn't equal to 10");
}

#[test]
fn field_matcher_explains_wrong_enum_variant() {
    let value: Option<i32> = None;
    let matcher = field_matcher(payload_of, "0").with(eq(1));
    assert_eq!(matcher.matches(&value), MatcherResult::NoMatch);
    assert_eq!(matcher.explain_match(&value), "which has the wrong enum variant `None`");
    assert_eq!(matcher.explain_match(&Some(2)), "which has field `0`, which isn't equal to 1");
    assert_eq!(matcher.describe(MatcherResult::Match), "has field `0`, which is equal to 1");
}

#[test]
fn property_matcher_explains_property_value() {
    let matcher = property_matcher("len()", eq(3usize), |v: &Vec<i32>| v.len());
    assert_eq!(matcher.matches(&vec![1, 2, 3]), MatcherResult::Match);
    assert_eq!(
        matcher.explain_match(&vec![1, 2]),
        "whose property `len()` is `2`, which isn't equal to 3"
    );
    assert_eq!(matcher.describe(MatcherResult::Match), "has property `len()`, which is equal to 3");
}
