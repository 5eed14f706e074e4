//! Matching values ordered against an expected value.

use crate::matcher::{prefix_which, result_of, which, Describable, Matcher, MatcherResult};
use crate::value::{Debuggable, OrderedWith};
use vstd::prelude::*;

verus! {

/// Matches a value greater than (in the sense of `>`) `expected`.
pub fn gt<ExpectedT>(expected: ExpectedT) -> (m: GtMatcher<ExpectedT>)
    ensures
        m.expected == expected,
{
    GtMatcher { expected }
}

/// A matcher of values greater than (in the sense of `>`) an expected value.
pub struct GtMatcher<ExpectedT> {
    pub expected: ExpectedT,
}

impl<ExpectedT: Debuggable> Describable for GtMatcher<ExpectedT> {
    open spec fn spec_describe(&self, matcher_result: MatcherResult) -> Seq<char> {
        match matcher_result {
            MatcherResult::Match => "is greater than "@ + self.expected.spec_debug(),
            MatcherResult::NoMatch => "is less than or equal to "@ + self.expected.spec_debug(),
        }
    }

    fn describe(&self, matcher_result: MatcherResult) -> (description: String) {
        let mut s = match matcher_result {
            MatcherResult::Match => String::from_str("is greater than "),
            MatcherResult::NoMatch => String::from_str("is less than or equal to "),
        };
        let e = self.expected.debug();
        s.append(e.as_str());
        s
    }
}

impl<ExpectedT: Debuggable, ActualT: OrderedWith<ExpectedT>> Matcher<ActualT> for GtMatcher<ExpectedT> {
    open spec fn spec_matches(&self, actual: ActualT) -> bool {
        actual.spec_gt(self.expected)
    }

    open spec fn spec_explain(&self, actual: ActualT) -> Seq<char> {
        which(self.spec_describe(result_of(self.spec_matches(actual))))
    }

    fn matches(&self, actual: &ActualT) -> (r: MatcherResult) {
        MatcherResult::from_bool(actual.gt_than(&self.expected))
    }

    fn explain_match(&self, actual: &ActualT) -> (explanation: String) {
        prefix_which(self.describe(self.matches(actual)))
    }
}

/// Matches a value greater than or equal to (in the sense of `>=`) `expected`.
pub fn ge<ExpectedT>(expected: ExpectedT) -> (m: GeMatcher<ExpectedT>)
    ensures
        m.expected == expected,
{
    GeMatcher { expected }
}

/// A matcher of values greater than or equal to (in the sense of `>=`) an expected value.
pub struct GeMatcher<ExpectedT> {
    pub expected: ExpectedT,
}

impl<ExpectedT: Debuggable> Describable for GeMatcher<ExpectedT> {
    open spec fn spec_describe(&self, matcher_result: MatcherResult) -> Seq<char> {
        match matcher_result {
            MatcherResult::Match => "is greater than or equal to "@ + self.expected.spec_debug(),
            MatcherResult::NoMatch => "is less than "@ + self.expected.spec_debug(),
        }
    }

    fn describe(&self, matcher_result: MatcherResult) -> (description: String) {
        let mut s = match matcher_result {
            MatcherResult::Match => String::from_str("is greater than or equal to "),
            MatcherResult::NoMatch => String::from_str("is less than "),
        };
        let e = self.expected.debug();
        s.append(e.as_str());
        s
    }
}

impl<ExpectedT: Debuggable, ActualT: OrderedWith<ExpectedT>> Matcher<ActualT> for GeMatcher<ExpectedT> {
    open spec fn spec_matches(&self, actual: ActualT) -> bool {
        actual.spec_ge(self.expected)
    }

    open spec fn spec_explain(&self, actual: ActualT) -> Seq<char> {
        which(self.spec_describe(result_of(self.spec_matches(actual))))
    }

    fn matches(&self, actual: &ActualT) -> (r: MatcherResult) {
        MatcherResult::from_bool(actual.ge_than(&self.expected))
    }

    fn explain_match(&self, actual: &ActualT) -> (explanation: String) {
        prefix_which(self.describe(self.matches(actual)))
    }
}

/// Matches a value less than (in the sense of `<`) `expected`.
pub fn lt<ExpectedT>(expected: ExpectedT) -> (m: LtMatcher<ExpectedT>)
    ensures
        m.expected == expected,
{
    LtMatcher { expected }
}

/// A matcher of values less than (in the sense of `<`) an expected value.
pub struct LtMatcher<ExpectedT> {
    pub expected: ExpectedT,
}

impl<ExpectedT: Debuggable> Describable for LtMatcher<ExpectedT> {
    open spec fn spec_describe(&self, matcher_result: MatcherResult) -> Seq<char> {
        match matcher_result {
            MatcherResult::Match => "is less than "@ + self.expected.spec_debug(),
            MatcherResult::NoMatch => "is greater than or equal to "@ + self.expected.spec_debug(),
        }
    }

    fn describe(&self, matcher_result: MatcherResult) -> (description: String) {
        let mut s = match matcher_result {
            MatcherResult::Match => String::from_str("is less than "),
            MatcherResult::NoMatch => String::from_str("is greater than or equal to "),
        };
        let e = self.expected.debug();
        s.append(e.as_str());
        s
    }
}

impl<ExpectedT: Debuggable, ActualT: OrderedWith<ExpectedT>> Matcher<ActualT> for LtMatcher<ExpectedT> {
    open spec fn spec_matches(&self, actual: ActualT) -> bool {
        actual.spec_lt(self.expected)
    }

    open spec fn spec_explain(&self, actual: ActualT) -> Seq<char> {
        which(self.spec_describe(result_of(self.spec_matches(actual))))
    }

    fn matches(&self, actual: &ActualT) -> (r: MatcherResult) {
        MatcherResult::from_bool(actual.lt_than(&self.expected))
    }

    fn explain_match(&self, actual: &ActualT) -> (explanation: String) {
        prefix_which(self.describe(self.matches(actual)))
    }
}

} // verus!
