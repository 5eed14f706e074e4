//! Negation of a matcher.

use crate::matcher::{Describable, Matcher, MatcherResult, is_match_spec, result_of};
use vstd::prelude::*;

verus! {

/// Matches the values which `inner` does not match.
pub fn not<InnerMatcherT>(inner: InnerMatcherT) -> (m: NotMatcher<InnerMatcherT>)
    ensures
        m.inner == inner,
{
    NotMatcher { inner }
}

/// A matcher of the values another matcher does not match.
pub struct NotMatcher<InnerMatcherT> {
    pub inner: InnerMatcherT,
}

impl<InnerMatcherT: Describable> Describable for NotMatcher<InnerMatcherT> {
    open spec fn spec_describe(&self, matcher_result: MatcherResult) -> Seq<char> {
        self.inner.spec_describe(result_of(!is_match_spec(matcher_result)))
    }

    fn describe(&self, matcher_result: MatcherResult) -> (description: String) {
        self.inner.describe(matcher_result.negate())
    }
}

impl<T, InnerMatcherT: Matcher<T>> Matcher<T> for NotMatcher<InnerMatcherT> {
    open spec fn spec_matches(&self, actual: T) -> bool {
        !self.inner.spec_matches(actual)
    }

    open spec fn spec_explain(&self, actual: T) -> Seq<char> {
        self.inner.spec_explain(actual)
    }

    fn matches(&self, actual: &T) -> (r: MatcherResult) {
        self.inner.matches(actual).negate()
    }

    fn explain_match(&self, actual: &T) -> (explanation: String) {
        self.inner.explain_match(actual)
    }
}

/// The matcher `not(not(inner))`.
pub open spec fn negated_twice<InnerMatcherT>(inner: InnerMatcherT) -> NotMatcher<
    NotMatcher<InnerMatcherT>,
> {
    NotMatcher { inner: NotMatcher { inner } }
}

/// Negating twice gives the matcher back: `not(not(m))` matches, describes
/// and explains every value as `m` does.
pub proof fn lemma_not_not<T, InnerMatcherT: Matcher<T>>(inner: InnerMatcherT, actual: T)
    ensures
        negated_twice(inner).spec_matches(actual) == inner.spec_matches(actual),
        negated_twice(inner).spec_explain(actual) == inner.spec_explain(actual),
        forall|r: MatcherResult| #[trigger] negated_twice(inner).spec_describe(r) == inner.spec_describe(r),
{
    assert forall|r: MatcherResult| #[trigger] negated_twice(inner).spec_describe(r)
        == inner.spec_describe(r) by {
        assert(result_of(!is_match_spec(result_of(!is_match_spec(r)))) == r);
    }
}

} // verus!
