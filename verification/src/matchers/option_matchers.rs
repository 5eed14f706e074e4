//! Matching optional values.

use crate::matcher::{prefix_which, result_of, which, Describable, Matcher, MatcherResult};
use crate::text::{indent, indent_text, spaces};
use vstd::prelude::*;

verus! {

/// Matches `Some(v)` where `inner` matches `v`.
pub fn some<InnerMatcherT>(inner: InnerMatcherT) -> (m: SomeMatcher<InnerMatcherT>)
    ensures
        m.inner == inner,
{
    SomeMatcher { inner }
}

/// A matcher of present values which an inner matcher matches.
pub struct SomeMatcher<InnerMatcherT> {
    pub inner: InnerMatcherT,
}

impl<InnerMatcherT: Describable> Describable for SomeMatcher<InnerMatcherT> {
    open spec fn spec_describe(&self, matcher_result: MatcherResult) -> Seq<char> {
        match matcher_result {
            MatcherResult::Match => "has a value which "@ + self.inner.spec_describe(MatcherResult::Match),
            MatcherResult::NoMatch => "is None or has a value which "@ + self.inner.spec_describe(
                MatcherResult::NoMatch,
            ),
        }
    }

    fn describe(&self, matcher_result: MatcherResult) -> (description: String) {
        let mut s = match matcher_result {
            MatcherResult::Match => String::from_str("has a value which "),
            MatcherResult::NoMatch => String::from_str("is None or has a value which "),
        };
        let d = self.inner.describe(matcher_result);
        s.append(d.as_str());
        s
    }
}

impl<T, InnerMatcherT: Matcher<T>> Matcher<Option<T>> for SomeMatcher<InnerMatcherT> {
    open spec fn spec_matches(&self, actual: Option<T>) -> bool {
        match actual {
            Some(v) => self.inner.spec_matches(v),
            None => false,
        }
    }

    open spec fn spec_explain(&self, actual: Option<T>) -> Seq<char> {
        match actual {
            Some(v) => "which has a value\n"@ + indent(self.inner.spec_explain(v), spaces(2)),
            None => "which is None"@,
        }
    }

    fn matches(&self, actual: &Option<T>) -> (r: MatcherResult) {
        match actual {
            Some(v) => self.inner.matches(v),
            None => MatcherResult::NoMatch,
        }
    }

    fn explain_match(&self, actual: &Option<T>) -> (explanation: String) {
        match actual {
            Some(v) => {
                let mut s = String::from_str("which has a value\n");
                let e = self.inner.explain_match(v);
                let block = indent_text(e.as_str(), "  ");
                proof {
                    reveal_strlit("  ");
                }
                assert("  "@ =~= spaces(2));
                s.append(block.as_str());
                s
            },
            None => String::from_str("which is None"),
        }
    }
}

/// Matches `None`.
pub fn none() -> (m: NoneMatcher) {
    NoneMatcher
}

/// A matcher of absent values.
pub struct NoneMatcher;

impl Describable for NoneMatcher {
    open spec fn spec_describe(&self, matcher_result: MatcherResult) -> Seq<char> {
        match matcher_result {
            MatcherResult::Match => "is none"@,
            MatcherResult::NoMatch => "is some(_)"@,
        }
    }

    fn describe(&self, matcher_result: MatcherResult) -> (description: String) {
        match matcher_result {
            MatcherResult::Match => String::from_str("is none"),
            MatcherResult::NoMatch => String::from_str("is some(_)"),
        }
    }
}

impl<T> Matcher<Option<T>> for NoneMatcher {
    open spec fn spec_matches(&self, actual: Option<T>) -> bool {
        actual is None
    }

    open spec fn spec_explain(&self, actual: Option<T>) -> Seq<char> {
        which(self.spec_describe(result_of(self.spec_matches(actual))))
    }

    fn matches(&self, actual: &Option<T>) -> (r: MatcherResult) {
        MatcherResult::from_bool(actual.is_none())
    }

    fn explain_match(&self, actual: &Option<T>) -> (explanation: String) {
        prefix_which(self.describe(self.matches(actual)))
    }
}

} // verus!
