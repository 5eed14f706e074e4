//! Matching the display rendering of a value.

use crate::matcher::{Describable, Matcher, MatcherResult};
use crate::matchers::all_matcher::{failures_below, AllMatcher, Components};
use crate::matchers::any_matcher::AnyMatcher;
use crate::matchers::eq_matcher::EqMatcher;
use crate::matchers::not_matcher::NotMatcher;
use crate::matchers::regex_matchers::{ContainsRegexMatcher, MatchesRegexMatcher};
use crate::matchers::str_matcher::StrMatcher;
use crate::text::{indent, indent_text};
use crate::value::Displayable;
use vstd::prelude::*;

verus! {

/// A matcher of strings which looks only at their characters: two strings
/// with the same characters are matched alike and explained alike.
pub trait TextMatcher: Matcher<String> {
    /// Two strings with the same characters are matched and explained alike.
    proof fn lemma_reads_text_only(&self, a: String, b: String)
        requires
            a@ == b@,
        ensures
            self.spec_matches(a) == self.spec_matches(b),
            self.spec_explain(a) == self.spec_explain(b),
    ;
}

impl<'e> TextMatcher for EqMatcher<&'e str> {
    proof fn lemma_reads_text_only(&self, a: String, b: String) {
    }
}

impl TextMatcher for EqMatcher<String> {
    proof fn lemma_reads_text_only(&self, a: String, b: String) {
    }
}

impl TextMatcher for StrMatcher {
    proof fn lemma_reads_text_only(&self, a: String, b: String) {
    }
}

impl TextMatcher for ContainsRegexMatcher {
    proof fn lemma_reads_text_only(&self, a: String, b: String) {
    }
}

impl TextMatcher for MatchesRegexMatcher {
    proof fn lemma_reads_text_only(&self, a: String, b: String) {
    }
}

impl<InnerMatcherT: TextMatcher> TextMatcher for NotMatcher<InnerMatcherT> {
    proof fn lemma_reads_text_only(&self, a: String, b: String) {
        self.inner.lemma_reads_text_only(a, b);
    }
}

/// Whether the matcher at position `i` of `components` matches and
/// explains `a` and `b` alike.
pub open spec fn alike_at<C: Components<String>>(components: C, i: int, a: String, b: String) -> bool {
    &&& components.spec_matches_at(i, a) == components.spec_matches_at(i, b)
    &&& components.spec_explain_at(i, a) == components.spec_explain_at(i, b)
}

/// A list of matchers of strings each of which looks only at the characters
/// of a string.
pub trait TextComponents: Components<String> + Sized {
    /// Two strings with the same characters are matched and explained alike
    /// by each matcher of the list.
    proof fn lemma_components_read_text_only(&self, a: String, b: String)
        requires
            a@ == b@,
        ensures
            forall|i: int| 0 <= i < self.spec_count() ==> alike_at(*self, i, a, b),
    ;
}

impl TextComponents for () {
    proof fn lemma_components_read_text_only(&self, a: String, b: String) {
    }
}

impl<MatcherT: TextMatcher> TextComponents for (MatcherT,) {
    proof fn lemma_components_read_text_only(&self, a: String, b: String) {
        self.0.lemma_reads_text_only(a, b);
    }
}

impl<MatcherT: TextMatcher, RestT: TextComponents> TextComponents for (MatcherT, RestT) {
    proof fn lemma_components_read_text_only(&self, a: String, b: String) {
        self.0.lemma_reads_text_only(a, b);
        self.1.lemma_components_read_text_only(a, b);
        assert forall|i: int| 0 <= i < self.spec_count() implies #[trigger] alike_at(*self, i, a, b) by {
            if i > 0 {
                assert(alike_at(self.1, i - 1, a, b));
            }
        }
    }
}

impl<MatcherT: TextMatcher> TextComponents for Vec<MatcherT> {
    proof fn lemma_components_read_text_only(&self, a: String, b: String) {
        assert forall|i: int| 0 <= i < self.spec_count() implies #[trigger] alike_at(*self, i, a, b) by {
            self@[i].lemma_reads_text_only(a, b);
        }
    }
}

/// The explanations of the failing matchers below `n` are the same for two
/// strings which every matcher below `n` matches and explains alike.
proof fn lemma_failures_alike<C: Components<String>>(components: C, a: String, b: String, n: nat)
    requires
        forall|i: int| 0 <= i < n ==> #[trigger] alike_at(components, i, a, b),
    ensures
        failures_below(components, a, n) == failures_below(components, b, n),
    decreases n,
{
    if n > 0 {
        lemma_failures_alike(components, a, b, (n - 1) as nat);
        assert(alike_at(components, n - 1, a, b));
    }
}

impl<ComponentsT: TextComponents> TextMatcher for AllMatcher<String, ComponentsT> {
    proof fn lemma_reads_text_only(&self, a: String, b: String) {
        let c = self.components;
        c.lemma_components_read_text_only(a, b);
        lemma_failures_alike(c, a, b, c.spec_count());
        if self.spec_matches(a) {
            assert forall|i: int| 0 <= i < c.spec_count() implies #[trigger] c.spec_matches_at(i, b) by {
                assert(c.spec_matches_at(i, a));
                assert(alike_at(c, i, a, b));
            }
        }
        if self.spec_matches(b) {
            assert forall|i: int| 0 <= i < c.spec_count() implies #[trigger] c.spec_matches_at(i, a) by {
                assert(c.spec_matches_at(i, b));
                assert(alike_at(c, i, a, b));
            }
        }
        if c.spec_count() == 1 {
            assert(alike_at(c, 0, a, b));
        }
    }
}

impl<ComponentsT: TextComponents> TextMatcher for AnyMatcher<String, ComponentsT> {
    proof fn lemma_reads_text_only(&self, a: String, b: String) {
        let c = self.components;
        c.lemma_components_read_text_only(a, b);
        lemma_failures_alike(c, a, b, c.spec_count());
        if self.spec_matches(a) {
            let i = choose|i: int| 0 <= i < c.spec_count() && #[trigger] c.spec_matches_at(i, a);
            assert(alike_at(c, i, a, b));
        }
        if self.spec_matches(b) {
            let i = choose|i: int| 0 <= i < c.spec_count() && #[trigger] c.spec_matches_at(i, b);
            assert(alike_at(c, i, a, b));
        }
        if c.spec_count() == 1 {
            assert(alike_at(c, 0, a, b));
        }
    }
}

/// A string whose characters are `text`.
pub open spec fn string_of(text: Seq<char>) -> String {
    choose|s: String| s@ == text
}

/// Matches a value whose display rendering (what `{}` produces) `inner`
/// matches.
pub fn displays_as<InnerMatcher>(inner: InnerMatcher) -> (m: DisplayMatcher<InnerMatcher>)
    ensures
        m.inner == inner,
        !m.alternate,
{
    DisplayMatcher { inner, alternate: false }
}

/// A matcher which renders the actual value with `Display` and matches the
/// result against an inner matcher.
pub struct DisplayMatcher<InnerMatcher> {
    pub inner: InnerMatcher,
    /// Whether the alternate rendering (what `{:#}` produces) is matched.
    pub alternate: bool,
}

impl<InnerMatcher> DisplayMatcher<InnerMatcher> {
    /// The same matcher, matching the alternate rendering of the actual
    /// value (what `{:#}` produces).
    pub fn alternate(self) -> (m: Self)
        ensures
            m.inner == self.inner,
            m.alternate,
    {
        DisplayMatcher { inner: self.inner, alternate: true }
    }
}

impl<InnerMatcher: Describable> Describable for DisplayMatcher<InnerMatcher> {
    open spec fn spec_describe(&self, matcher_result: MatcherResult) -> Seq<char> {
        match matcher_result {
            MatcherResult::Match => "displays as a string which "@ + self.inner.spec_describe(
                MatcherResult::Match,
            ),
            MatcherResult::NoMatch => "doesn't display as a string which "@
                + self.inner.spec_describe(MatcherResult::Match),
        }
    }

    fn describe(&self, matcher_result: MatcherResult) -> (description: String) {
        let mut s = match matcher_result {
            MatcherResult::Match => String::from_str("displays as a string which "),
            MatcherResult::NoMatch => String::from_str("doesn't display as a string which "),
        };
        let d = self.inner.describe(MatcherResult::Match);
        s.append(d.as_str());
        s
    }
}

impl<T: Displayable, InnerMatcher: TextMatcher> Matcher<T> for DisplayMatcher<InnerMatcher> {
    open spec fn spec_matches(&self, actual: T) -> bool {
        self.inner.spec_matches(string_of(actual.spec_display(self.alternate)))
    }

    open spec fn spec_explain(&self, actual: T) -> Seq<char> {
        let rendered = actual.spec_display(self.alternate);
        "which displays as:\n"@ + indent(rendered, "  "@) + "\n"@ + self.inner.spec_explain(
            string_of(rendered),
        )
    }

    fn matches(&self, actual: &T) -> (r: MatcherResult) {
        let rendered = actual.display(self.alternate);
        proof {
            let text = actual.spec_display(self.alternate);
            assert(rendered@ == text);
            self.inner.lemma_reads_text_only(rendered, string_of(text));
        }
        self.inner.matches(&rendered)
    }

    fn explain_match(&self, actual: &T) -> (explanation: String) {
        let rendered = actual.display(self.alternate);
        proof {
            let text = actual.spec_display(self.alternate);
            assert(rendered@ == text);
            self.inner.lemma_reads_text_only(rendered, string_of(text));
            reveal_strlit("  ");
        }
        let mut s = String::from_str("which displays as:\n");
        let shown = indent_text(rendered.as_str(), "  ");
        s.append(shown.as_str());
        s.append("\n");
        let inner_explanation = self.inner.explain_match(&rendered);
        s.append(inner_explanation.as_str());
        s
    }
}

} // verus!
