//! Matching references by the value they point to.

use crate::matcher::{Describable, Matcher, MatcherResult};
use vstd::prelude::*;

verus! {

/// Matches a reference to a value which `inner` matches.
pub fn points_to<InnerMatcherT>(inner: InnerMatcherT) -> (m: PointsToMatcher<InnerMatcherT>)
    ensures
        m.inner == inner,
{
    PointsToMatcher { inner }
}

/// A matcher of references by the value they point to.
pub struct PointsToMatcher<InnerMatcherT> {
    pub inner: InnerMatcherT,
}

impl<InnerMatcherT: Describable> Describable for PointsToMatcher<InnerMatcherT> {
    open spec fn spec_describe(&self, matcher_result: MatcherResult) -> Seq<char> {
        self.inner.spec_describe(matcher_result)
    }

    fn describe(&self, matcher_result: MatcherResult) -> (description: String) {
        self.inner.describe(matcher_result)
    }
}

impl<'a, T, InnerMatcherT: Matcher<T>> Matcher<&'a T> for PointsToMatcher<InnerMatcherT> {
    open spec fn spec_matches(&self, actual: &'a T) -> bool {
        self.inner.spec_matches(*actual)
    }

    open spec fn spec_explain(&self, actual: &'a T) -> Seq<char> {
        self.inner.spec_explain(*actual)
    }

    fn matches(&self, actual: &&'a T) -> (r: MatcherResult) {
        self.inner.matches(*actual)
    }

    fn explain_match(&self, actual: &&'a T) -> (explanation: String) {
        self.inner.explain_match(*actual)
    }
}

} // verus!
