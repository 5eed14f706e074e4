//! Matching empty containers.

use crate::collection::Collection;
use crate::matcher::{prefix_which, result_of, which, Describable, Matcher, MatcherResult};
use crate::matchers::containers::len_matcher::LenMatcher;
use crate::matchers::eq_matcher::EqMatcher;
use vstd::prelude::*;

verus! {

/// Matches an empty container.
pub fn empty() -> (m: EmptyMatcher) {
    EmptyMatcher
}

/// A matcher of empty containers.
pub struct EmptyMatcher;

impl Describable for EmptyMatcher {
    open spec fn spec_describe(&self, matcher_result: MatcherResult) -> Seq<char> {
        match matcher_result {
            MatcherResult::Match => "is empty"@,
            MatcherResult::NoMatch => "isn't empty"@,
        }
    }

    fn describe(&self, matcher_result: MatcherResult) -> (description: String) {
        match matcher_result {
            MatcherResult::Match => String::from_str("is empty"),
            MatcherResult::NoMatch => String::from_str("isn't empty"),
        }
    }
}

impl<C: Collection> Matcher<C> for EmptyMatcher {
    open spec fn spec_matches(&self, actual: C) -> bool {
        actual.spec_size() == 0
    }

    open spec fn spec_explain(&self, actual: C) -> Seq<char> {
        which(self.spec_describe(result_of(self.spec_matches(actual))))
    }

    fn matches(&self, actual: &C) -> (r: MatcherResult) {
        MatcherResult::from_bool(actual.size() == 0)
    }

    fn explain_match(&self, actual: &C) -> (explanation: String) {
        prefix_which(self.describe(self.matches(actual)))
    }
}

/// The matcher `len(eq(0))`.
pub open spec fn length_zero() -> LenMatcher<EqMatcher<usize>> {
    LenMatcher { expected: EqMatcher { expected: 0usize } }
}

/// `empty()` matches exactly the containers which `len(eq(0))` matches.
pub proof fn lemma_empty_is_length_zero<C: Collection>(actual: C)
    requires
        actual.spec_size() <= usize::MAX,
    ensures
        EmptyMatcher.spec_matches(actual) == length_zero().spec_matches(actual),
{
}

} // verus!
