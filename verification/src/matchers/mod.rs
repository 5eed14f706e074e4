//! The built-in matchers.

pub mod all_matcher;
pub mod any_matcher;
pub mod anything_matcher;
pub mod containers;
pub mod display_matcher;
pub mod eq_matcher;
pub mod field_matcher;
pub mod has_entry_matcher;
pub mod in_range_matcher;
pub mod is_infinite_matcher;
pub mod le_matcher;
pub mod not_matcher;
pub mod option_matchers;
pub mod ord_matchers;
pub mod points_to_matcher;
pub mod property_matcher;
pub mod regex_matchers;
pub mod result_matchers;
pub mod result_of_matcher;
pub mod str_matcher;
pub mod tuple_matcher;
