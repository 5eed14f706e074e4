//! The matcher which matches every value.

use crate::matcher::{prefix_which, result_of, which, Describable, Matcher, MatcherResult};
use vstd::prelude::*;

verus! {

/// Matches every value.
pub fn anything() -> (m: Anything) {
    Anything
}

/// A matcher of every value.
pub struct Anything;

impl Describable for Anything {
    open spec fn spec_describe(&self, matcher_result: MatcherResult) -> Seq<char> {
        match matcher_result {
            MatcherResult::Match => "is anything"@,
            MatcherResult::NoMatch => "never matches"@,
        }
    }

    fn describe(&self, matcher_result: MatcherResult) -> (description: String) {
        match matcher_result {
            MatcherResult::Match => String::from_str("is anything"),
            MatcherResult::NoMatch => String::from_str("never matches"),
        }
    }
}

impl<T> Matcher<T> for Anything {
    open spec fn spec_matches(&self, actual: T) -> bool {
        true
    }

    open spec fn spec_explain(&self, actual: T) -> Seq<char> {
        which(self.spec_describe(result_of(self.spec_matches(actual))))
    }

    fn matches(&self, actual: &T) -> (r: MatcherResult) {
        MatcherResult::Match
    }

    fn explain_match(&self, actual: &T) -> (explanation: String) {
        prefix_which(self.describe(self.matches(actual)))
    }
}

} // verus!
