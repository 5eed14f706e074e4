//! Matching the outcome of fallible operations.

use crate::matcher::{Describable, Matcher, MatcherResult};
use vstd::prelude::*;

verus! {

/// Matches `Ok(v)` where `inner` matches `v`.
pub fn ok<InnerMatcherT>(inner: InnerMatcherT) -> (m: OkMatcher<InnerMatcherT>)
    ensures
        m.inner == inner,
{
    OkMatcher { inner }
}

/// A matcher of successes whose value an inner matcher matches.
pub struct OkMatcher<InnerMatcherT> {
    pub inner: InnerMatcherT,
}

impl<InnerMatcherT: Describable> Describable for OkMatcher<InnerMatcherT> {
    open spec fn spec_describe(&self, matcher_result: MatcherResult) -> Seq<char> {
        match matcher_result {
            MatcherResult::Match => "is a success containing a value, which "@
                + self.inner.spec_describe(MatcherResult::Match),
            MatcherResult::NoMatch => "is an error or a success containing a value, which "@
                + self.inner.spec_describe(MatcherResult::NoMatch),
        }
    }

    fn describe(&self, matcher_result: MatcherResult) -> (description: String) {
        let mut s = match matcher_result {
            MatcherResult::Match => String::from_str("is a success containing a value, which "),
            MatcherResult::NoMatch => String::from_str(
                "is an error or a success containing a value, which ",
            ),
        };
        let d = self.inner.describe(matcher_result);
        s.append(d.as_str());
        s
    }
}

impl<T, E, InnerMatcherT: Matcher<T>> Matcher<Result<T, E>> for OkMatcher<InnerMatcherT> {
    open spec fn spec_matches(&self, actual: Result<T, E>) -> bool {
        match actual {
            Ok(v) => self.inner.spec_matches(v),
            Err(_) => false,
        }
    }

    open spec fn spec_explain(&self, actual: Result<T, E>) -> Seq<char> {
        match actual {
            Ok(v) => "which is a success "@ + self.inner.spec_explain(v),
            Err(_) => "which is an error"@,
        }
    }

    fn matches(&self, actual: &Result<T, E>) -> (r: MatcherResult) {
        match actual {
            Ok(v) => self.inner.matches(v),
            Err(_) => MatcherResult::NoMatch,
        }
    }

    fn explain_match(&self, actual: &Result<T, E>) -> (explanation: String) {
        match actual {
            Ok(v) => {
                let mut s = String::from_str("which is a success ");
                let e = self.inner.explain_match(v);
                s.append(e.as_str());
                s
            },
            Err(_) => String::from_str("which is an error"),
        }
    }
}

/// Matches `Err(e)` where `inner` matches `e`.
pub fn err<InnerMatcherT>(inner: InnerMatcherT) -> (m: ErrMatcher<InnerMatcherT>)
    ensures
        m.inner == inner,
{
    ErrMatcher { inner }
}

/// A matcher of errors whose value an inner matcher matches.
pub struct ErrMatcher<InnerMatcherT> {
    pub inner: InnerMatcherT,
}

impl<InnerMatcherT: Describable> Describable for ErrMatcher<InnerMatcherT> {
    open spec fn spec_describe(&self, matcher_result: MatcherResult) -> Seq<char> {
        match matcher_result {
            MatcherResult::Match => "is an error which "@ + self.inner.spec_describe(MatcherResult::Match),
            MatcherResult::NoMatch => "is a success or is an error containing a value which "@
                + self.inner.spec_describe(MatcherResult::NoMatch),
        }
    }

    fn describe(&self, matcher_result: MatcherResult) -> (description: String) {
        let mut s = match matcher_result {
            MatcherResult::Match => String::from_str("is an error which "),
            MatcherResult::NoMatch => String::from_str(
                "is a success or is an error containing a value which ",
            ),
        };
        let d = self.inner.describe(matcher_result);
        s.append(d.as_str());
        s
    }
}

impl<T, E, InnerMatcherT: Matcher<E>> Matcher<Result<T, E>> for ErrMatcher<InnerMatcherT> {
    open spec fn spec_matches(&self, actual: Result<T, E>) -> bool {
        match actual {
            Ok(_) => false,
            Err(e) => self.inner.spec_matches(e),
        }
    }

    open spec fn spec_explain(&self, actual: Result<T, E>) -> Seq<char> {
        match actual {
            Ok(_) => "which is a success"@,
            Err(e) => "which is an error "@ + self.inner.spec_explain(e),
        }
    }

    fn matches(&self, actual: &Result<T, E>) -> (r: MatcherResult) {
        match actual {
            Ok(_) => MatcherResult::NoMatch,
            Err(e) => self.inner.matches(e),
        }
    }

    fn explain_match(&self, actual: &Result<T, E>) -> (explanation: String) {
        match actual {
            Ok(_) => String::from_str("which is a success"),
            Err(e) => {
                let mut s = String::from_str("which is an error ");
                let x = self.inner.explain_match(e);
                s.append(x.as_str());
                s
            },
        }
    }
}

} // verus!
