//! Matching pairs by a matcher for each of their two values.

use crate::matcher::{is_match_spec, Describable, Matcher, MatcherResult};
use crate::text::{indent, indent_text, numbered_list, render_numbered_list, spaces, views};
use vstd::prelude::*;

verus! {

/// The description of a pair of matchers, whose own descriptions are `a` and
/// `b`.
pub open spec fn pair_description(matcher_result: MatcherResult, a: Seq<char>, b: Seq<char>) -> Seq<char> {
    (if is_match_spec(matcher_result) {
        "is a tuple whose values respectively match:\n"@
    } else {
        "is a tuple whose values do not respectively match:\n"@
    }) + indent(numbered_list(seq![a, b]), spaces(2))
}

impl<MatcherA: Describable, MatcherB: Describable> Describable for (MatcherA, MatcherB) {
    open spec fn spec_describe(&self, matcher_result: MatcherResult) -> Seq<char> {
        pair_description(
            matcher_result,
            self.0.spec_describe(MatcherResult::Match),
            self.1.spec_describe(MatcherResult::Match),
        )
    }

    fn describe(&self, matcher_result: MatcherResult) -> (description: String) {
        let mut s = if matcher_result.is_match() {
            String::from_str("is a tuple whose values respectively match:\n")
        } else {
            String::from_str("is a tuple whose values do not respectively match:\n")
        };
        let items = vec![self.0.describe(MatcherResult::Match), self.1.describe(MatcherResult::Match)];
        assert(views(items@) =~= seq![
            self.0.spec_describe(MatcherResult::Match),
            self.1.spec_describe(MatcherResult::Match),
        ]);
        let list = render_numbered_list(&items);
        let block = indent_text(list.as_str(), "  ");
        proof {
            reveal_strlit("  ");
        }
        assert("  "@ =~= spaces(2));
        s.append(block.as_str());
        s
    }
}

impl<A, B, MatcherA: Matcher<A>, MatcherB: Matcher<B>> Matcher<(A, B)> for (MatcherA, MatcherB) {
    open spec fn spec_matches(&self, actual: (A, B)) -> bool {
        self.0.spec_matches(actual.0) && self.1.spec_matches(actual.1)
    }

    open spec fn spec_explain(&self, actual: (A, B)) -> Seq<char> {
        if self.spec_matches(actual) {
            "which is a tuple whose values all match"@
        } else {
            "which is a tuple whose values do not all match:\n"@ + indent(
                numbered_list(seq![self.0.spec_explain(actual.0), self.1.spec_explain(actual.1)]),
                spaces(2),
            )
        }
    }

    fn matches(&self, actual: &(A, B)) -> (r: MatcherResult) {
        if self.0.matches(&actual.0).is_match() {
            self.1.matches(&actual.1)
        } else {
            MatcherResult::NoMatch
        }
    }

    fn explain_match(&self, actual: &(A, B)) -> (explanation: String) {
        if self.0.matches(&actual.0).is_match() && self.1.matches(&actual.1).is_match() {
            String::from_str("which is a tuple whose values all match")
        } else {
            let mut s = String::from_str("which is a tuple whose values do not all match:\n");
            let items = vec![self.0.explain_match(&actual.0), self.1.explain_match(&actual.1)];
            assert(views(items@) =~= seq![
                self.0.spec_explain(actual.0),
                self.1.spec_explain(actual.1),
            ]);
            let list = render_numbered_list(&items);
            let block = indent_text(list.as_str(), "  ");
            proof {
                reveal_strlit("  ");
            }
            assert("  "@ =~= spaces(2));
            s.append(block.as_str());
            s
        }
    }
}

impl<MatcherA: Describable> Describable for (MatcherA,) {
    open spec fn spec_describe(&self, matcher_result: MatcherResult) -> Seq<char> {
        (if is_match_spec(matcher_result) {
            "is a tuple whose values respectively match:\n"@
        } else {
            "is a tuple whose values do not respectively match:\n"@
        }) + indent(numbered_list(seq![self.0.spec_describe(MatcherResult::Match)]), spaces(2))
    }

    fn describe(&self, matcher_result: MatcherResult) -> (description: String) {
        let mut s = if matcher_result.is_match() {
            String::from_str("is a tuple whose values respectively match:\n")
        } else {
            String::from_str("is a tuple whose values do not respectively match:\n")
        };
        let items = vec![self.0.describe(MatcherResult::Match)];
        assert(views(items@) =~= seq![self.0.spec_describe(MatcherResult::Match)]);
        let list = render_numbered_list(&items);
        let block = indent_text(list.as_str(), "  ");
        proof {
            reveal_strlit("  ");
        }
        assert("  "@ =~= spaces(2));
        s.append(block.as_str());
        s
    }
}

impl<A, MatcherA: Matcher<A>> Matcher<(A,)> for (MatcherA,) {
    open spec fn spec_matches(&self, actual: (A,)) -> bool {
        self.0.spec_matches(actual.0)
    }

    open spec fn spec_explain(&self, actual: (A,)) -> Seq<char> {
        if self.spec_matches(actual) {
            "which is a tuple whose values all match"@
        } else {
            "which is a tuple whose values do not all match:\n"@ + indent(
                numbered_list(seq![self.0.spec_explain(actual.0)]),
                spaces(2),
            )
        }
    }

    fn matches(&self, actual: &(A,)) -> (r: MatcherResult) {
        self.0.matches(&actual.0)
    }

    fn explain_match(&self, actual: &(A,)) -> (explanation: String) {
        if self.0.matches(&actual.0).is_match() {
            String::from_str("which is a tuple whose values all match")
        } else {
            let mut s = String::from_str("which is a tuple whose values do not all match:\n");
            let items = vec![self.0.explain_match(&actual.0)];
            assert(views(items@) =~= seq![self.0.spec_explain(actual.0)]);
            let list = render_numbered_list(&items);
            let block = indent_text(list.as_str(), "  ");
            proof {
                reveal_strlit("  ");
            }
            assert("  "@ =~= spaces(2));
            s.append(block.as_str());
            s
        }
    }
}

} // verus!
