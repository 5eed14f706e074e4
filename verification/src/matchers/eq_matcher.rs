//! Equality with an expected value.

use crate::matcher::{prefix_which, result_of, which, Describable, Matcher, MatcherResult};
use crate::value::{Debuggable, EqualTo};
use vstd::prelude::*;

verus! {

/// Matches a value equal (in the sense of `==`) to `expected`.
pub fn eq<ExpectedT>(expected: ExpectedT) -> (m: EqMatcher<ExpectedT>)
    ensures
        m.expected == expected,
{
    EqMatcher { expected }
}

/// A matcher of values equal to an expected value.
pub struct EqMatcher<ExpectedT> {
    pub expected: ExpectedT,
}

impl<ExpectedT: Debuggable> Describable for EqMatcher<ExpectedT> {
    open spec fn spec_describe(&self, matcher_result: MatcherResult) -> Seq<char> {
        match matcher_result {
            MatcherResult::Match => "is equal to "@ + self.expected.spec_debug(),
            MatcherResult::NoMatch => "isn't equal to "@ + self.expected.spec_debug(),
        }
    }

    fn describe(&self, matcher_result: MatcherResult) -> (description: String) {
        let mut s = match matcher_result {
            MatcherResult::Match => String::from_str("is equal to "),
            MatcherResult::NoMatch => String::from_str("isn't equal to "),
        };
        let e = self.expected.debug();
        s.append(e.as_str());
        s
    }
}

impl<ExpectedT: Debuggable, ActualT: EqualTo<ExpectedT>> Matcher<ActualT> for EqMatcher<ExpectedT> {
    open spec fn spec_matches(&self, actual: ActualT) -> bool {
        actual.spec_equal_to(self.expected)
    }

    open spec fn spec_explain(&self, actual: ActualT) -> Seq<char> {
        which(self.spec_describe(result_of(self.spec_matches(actual))))
    }

    fn matches(&self, actual: &ActualT) -> (r: MatcherResult) {
        MatcherResult::from_bool(actual.equal_to(&self.expected))
    }

    fn explain_match(&self, actual: &ActualT) -> (explanation: String) {
        prefix_which(self.describe(self.matches(actual)))
    }
}

} // verus!
