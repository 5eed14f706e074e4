//! Matching containers by their number of elements.

use crate::collection::Collection;
use crate::matcher::{result_of, Describable, Matcher, MatcherResult};
use crate::text::{decimal_usize, nat_decimal};
use vstd::prelude::*;

verus! {

/// Matches a container whose number of elements `expected` matches.
pub fn len<E>(expected: E) -> (m: LenMatcher<E>)
    ensures
        m.expected == expected,
{
    LenMatcher { expected }
}

/// A matcher of containers by their number of elements.
pub struct LenMatcher<E> {
    pub expected: E,
}

impl<E: Describable> Describable for LenMatcher<E> {
    open spec fn spec_describe(&self, matcher_result: MatcherResult) -> Seq<char> {
        "has length, which "@ + self.expected.spec_describe(matcher_result)
    }

    fn describe(&self, matcher_result: MatcherResult) -> (description: String) {
        let mut s = String::from_str("has length, which ");
        let d = self.expected.describe(matcher_result);
        s.append(d.as_str());
        s
    }
}

impl<C: Collection, E: Matcher<usize>> Matcher<C> for LenMatcher<E> {
    open spec fn spec_matches(&self, actual: C) -> bool {
        self.expected.spec_matches(actual.spec_size() as usize)
    }

    open spec fn spec_explain(&self, actual: C) -> Seq<char> {
        "which has length "@ + nat_decimal(actual.spec_size()) + ", "@ + self.expected.spec_explain(
            actual.spec_size() as usize,
        )
    }

    fn matches(&self, actual: &C) -> (r: MatcherResult) {
        let n = actual.size();
        self.expected.matches(&n)
    }

    fn explain_match(&self, actual: &C) -> (explanation: String) {
        let n = actual.size();
        let mut s = String::from_str("which has length ");
        let d = decimal_usize(n);
        s.append(d.as_str());
        s.append(", ");
        let e = self.expected.explain_match(&n);
        s.append(e.as_str());
        s
    }
}

} // verus!
