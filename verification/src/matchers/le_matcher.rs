//! Matching values at most an expected value.

use crate::matcher::{prefix_which, result_of, which, Describable, Matcher, MatcherResult};
use crate::value::{Debuggable, OrderedWith};
use vstd::prelude::*;

verus! {

/// Matches a value less than or equal to (in the sense of `<=`) `expected`.
pub fn le<ExpectedT>(expected: ExpectedT) -> (m: LeMatcher<ExpectedT>)
    ensures
        m.expected == expected,
{
    LeMatcher { expected }
}

/// A matcher of values less than or equal to (in the sense of `<=`) an expected value.
pub struct LeMatcher<ExpectedT> {
    pub expected: ExpectedT,
}

impl<ExpectedT: Debuggable> Describable for LeMatcher<ExpectedT> {
    open spec fn spec_describe(&self, matcher_result: MatcherResult) -> Seq<char> {
        match matcher_result {
            MatcherResult::Match => "is less than or equal to "@ + self.expected.spec_debug(),
            MatcherResult::NoMatch => "is greater than "@ + self.expected.spec_debug(),
        }
    }

    fn describe(&self, matcher_result: MatcherResult) -> (description: String) {
        let mut s = match matcher_result {
            MatcherResult::Match => String::from_str("is less than or equal to "),
            MatcherResult::NoMatch => String::from_str("is greater than "),
        };
        let e = self.expected.debug();
        s.append(e.as_str());
        s
    }
}

impl<ExpectedT: Debuggable, ActualT: OrderedWith<ExpectedT>> Matcher<ActualT> for LeMatcher<ExpectedT> {
    open spec fn spec_matches(&self, actual: ActualT) -> bool {
        actual.spec_le(self.expected)
    }

    open spec fn spec_explain(&self, actual: ActualT) -> Seq<char> {
        which(self.spec_describe(result_of(self.spec_matches(actual))))
    }

    fn matches(&self, actual: &ActualT) -> (r: MatcherResult) {
        MatcherResult::from_bool(actual.le_than(&self.expected))
    }

    fn explain_match(&self, actual: &ActualT) -> (explanation: String) {
        prefix_which(self.describe(self.matches(actual)))
    }
}

} // verus!
