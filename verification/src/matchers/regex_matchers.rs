//! Matching text against regular expressions, with the `regex` crate.

use crate::matcher::{prefix_which, result_of, which, Describable, Matcher, MatcherResult};
use crate::text::{debug_text, quoted};
use crate::value::Text;
use vstd::prelude::*;

verus! {

/// Whether `regex::Regex::new` compiles `pattern`: it is a valid regular
/// expression whose compiled form stays within the default size limit.
pub uninterp spec fn regex_compiles(pattern: Seq<char>) -> bool;

/// Whether the regular expression `pattern`, compiled by
/// `regex::Regex::new`, finds a match anywhere in `haystack`, as
/// `regex::Regex::is_match` reports it.
pub uninterp spec fn regex_finds(pattern: Seq<char>, haystack: Seq<char>) -> bool;

/// Whether `pattern` compiles.
///
/// Calls `regex::Regex::new` and reports whether it returned `Ok`. The
/// result is named [`regex_compiles`] of the pattern.
#[verifier::external_body]
fn compiles(pattern: &str) -> (r: bool)
    ensures
        r == regex_compiles(pattern@),
{
    regex::Regex::new(pattern).is_ok()
}

/// Whether the regular expression `pattern` finds a match in `haystack`.
///
/// Calls `regex::Regex::new` on `pattern`, which `requires` makes succeed,
/// then `regex::Regex::is_match` on `haystack`. The result is named
/// [`regex_finds`] of the pattern and the haystack.
#[verifier::external_body]
fn finds(pattern: &str, haystack: &str) -> (r: bool)
    requires
        regex_compiles(pattern@),
    ensures
        r == regex_finds(pattern@, haystack@),
{
    regex::Regex::new(pattern).unwrap().is_match(haystack)
}

/// The regular expression which matches exactly the texts which `pattern`
/// matches as a whole: `pattern` between the anchors `^` and `$`.
pub open spec fn anchored(pattern: Seq<char>) -> Seq<char> {
    "^"@ + pattern + "$"@
}

/// Matches a text in which the regular expression `pattern` finds a match.
///
/// The pattern must compile; [`try_contains_regex`] checks it first.
pub fn contains_regex(pattern: &str) -> (m: ContainsRegexMatcher)
    requires
        regex_compiles(pattern@),
    ensures
        m.spec_pattern() == pattern@,
{
    ContainsRegexMatcher { pattern: String::from_str(pattern) }
}

/// The matcher of [`contains_regex`] if `pattern` compiles, and `None`
/// otherwise.
pub fn try_contains_regex(pattern: &str) -> (m: Option<ContainsRegexMatcher>)
    ensures
        m is Some <==> regex_compiles(pattern@),
        m matches Some(m) ==> m.spec_pattern() == pattern@,
{
    if compiles(pattern) {
        Some(contains_regex(pattern))
    } else {
        None
    }
}

/// A matcher of texts in which a regular expression finds a match.
pub struct ContainsRegexMatcher {
    pattern: String,
}

impl ContainsRegexMatcher {
    /// The pattern compiles.
    #[verifier::type_invariant]
    spec fn compiled(self) -> bool {
        regex_compiles(self.pattern@)
    }

    /// The regular expression.
    pub closed spec fn spec_pattern(self) -> Seq<char> {
        self.pattern@
    }
}

impl Describable for ContainsRegexMatcher {
    open spec fn spec_describe(&self, matcher_result: MatcherResult) -> Seq<char> {
        match matcher_result {
            MatcherResult::Match => "contains the regular expression "@ + debug_text(
                self.spec_pattern(),
            ),
            MatcherResult::NoMatch => "doesn't contain the regular expression "@ + debug_text(
                self.spec_pattern(),
            ),
        }
    }

    fn describe(&self, matcher_result: MatcherResult) -> (description: String) {
        let mut s = match matcher_result {
            MatcherResult::Match => String::from_str("contains the regular expression "),
            MatcherResult::NoMatch => String::from_str("doesn't contain the regular expression "),
        };
        let p = quoted(self.pattern.as_str());
        s.append(p.as_str());
        s
    }
}

impl<ActualT: Text> Matcher<ActualT> for ContainsRegexMatcher {
    open spec fn spec_matches(&self, actual: ActualT) -> bool {
        regex_finds(self.spec_pattern(), actual.spec_text())
    }

    open spec fn spec_explain(&self, actual: ActualT) -> Seq<char> {
        which(self.spec_describe(result_of(self.spec_matches(actual))))
    }

    fn matches(&self, actual: &ActualT) -> (r: MatcherResult) {
        proof {
            use_type_invariant(self);
        }
        MatcherResult::from_bool(finds(self.pattern.as_str(), actual.as_text()))
    }

    fn explain_match(&self, actual: &ActualT) -> (explanation: String) {
        prefix_which(self.describe(self.matches(actual)))
    }
}

/// Matches a text which the regular expression `pattern` matches as a
/// whole, from its first character to its last.
///
/// The pattern between the anchors `^` and `$` must compile;
/// [`try_matches_regex`] checks it first.
pub fn matches_regex(pattern: &str) -> (m: MatchesRegexMatcher)
    requires
        regex_compiles(anchored(pattern@)),
    ensures
        m.spec_pattern() == pattern@,
        m.spec_anchored() == anchored(pattern@),
{
    let mut adjusted = String::from_str("^");
    adjusted.append(pattern);
    adjusted.append("$");
    MatchesRegexMatcher { pattern: String::from_str(pattern), adjusted_pattern: adjusted }
}

/// The matcher of [`matches_regex`] if the anchored pattern compiles, and
/// `None` otherwise.
pub fn try_matches_regex(pattern: &str) -> (m: Option<MatchesRegexMatcher>)
    ensures
        m is Some <==> regex_compiles(anchored(pattern@)),
        m matches Some(m) ==> m.spec_pattern() == pattern@,
{
    let mut adjusted = String::from_str("^");
    adjusted.append(pattern);
    adjusted.append("$");
    if compiles(adjusted.as_str()) {
        Some(matches_regex(pattern))
    } else {
        None
    }
}

/// A matcher of texts which a regular expression matches as a whole.
pub struct MatchesRegexMatcher {
    pattern: String,
    adjusted_pattern: String,
}

impl MatchesRegexMatcher {
    /// The anchored pattern is the pattern between `^` and `$`, and it
    /// compiles.
    #[verifier::type_invariant]
    spec fn compiled(self) -> bool {
        &&& self.adjusted_pattern@ == anchored(self.pattern@)
        &&& regex_compiles(self.adjusted_pattern@)
    }

    /// The regular expression, as given.
    pub closed spec fn spec_pattern(self) -> Seq<char> {
        self.pattern@
    }

    /// The regular expression which is searched: the pattern between the
    /// anchors `^` and `$`.
    pub closed spec fn spec_anchored(self) -> Seq<char> {
        self.adjusted_pattern@
    }
}

impl Describable for MatchesRegexMatcher {
    open spec fn spec_describe(&self, matcher_result: MatcherResult) -> Seq<char> {
        match matcher_result {
            MatcherResult::Match => "matches the regular expression "@ + debug_text(
                self.spec_pattern(),
            ),
            MatcherResult::NoMatch => "doesn't match the regular expression "@ + debug_text(
                self.spec_pattern(),
            ),
        }
    }

    fn describe(&self, matcher_result: MatcherResult) -> (description: String) {
        let mut s = match matcher_result {
            MatcherResult::Match => String::from_str("matches the regular expression "),
            MatcherResult::NoMatch => String::from_str("doesn't match the regular expression "),
        };
        let p = quoted(self.pattern.as_str());
        s.append(p.as_str());
        s
    }
}

impl<ActualT: Text> Matcher<ActualT> for MatchesRegexMatcher {
    open spec fn spec_matches(&self, actual: ActualT) -> bool {
        regex_finds(anchored(self.spec_pattern()), actual.spec_text())
    }

    open spec fn spec_explain(&self, actual: ActualT) -> Seq<char> {
        which(self.spec_describe(result_of(self.spec_matches(actual))))
    }

    fn matches(&self, actual: &ActualT) -> (r: MatcherResult) {
        proof {
            use_type_invariant(self);
        }
        MatcherResult::from_bool(finds(self.adjusted_pattern.as_str(), actual.as_text()))
    }

    fn explain_match(&self, actual: &ActualT) -> (explanation: String) {
        prefix_which(self.describe(self.matches(actual)))
    }
}

/// `matches_regex(pattern)` matches exactly the texts which
/// `contains_regex` matches with the pattern between the anchors `^` and
/// `$`: a whole-text match is a match of the anchored pattern.
pub proof fn lemma_matches_regex_is_anchored_contains_regex<ActualT: Text>(
    whole: MatchesRegexMatcher,
    part: ContainsRegexMatcher,
    actual: ActualT,
)
    requires
        part.spec_pattern() == anchored(whole.spec_pattern()),
    ensures
        whole.spec_matches(actual) == part.spec_matches(actual),
{
}

} // verus!
