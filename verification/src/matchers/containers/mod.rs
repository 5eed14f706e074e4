//! Matchers of containers: values made of a sequence of items.

pub mod container_contains;
pub mod contains_matcher;
pub mod each_matcher;
pub mod empty_matcher;
pub mod len_matcher;
pub mod subset_of_matcher;
