//! The core abstractions: the outcome of a match, and the traits which every
//! matcher implements.

use vstd::prelude::*;

verus! {

/// The outcome of matching an actual value against a matcher.
#[derive(Debug, Clone, Copy, PartialEq, Eq, Structural)]
pub enum MatcherResult {
    /// The actual value matches.
    Match,
    /// The actual value does not match.
    NoMatch,
}

/// The [`MatcherResult`] which stands for the boolean `b`.
pub open spec fn result_of(b: bool) -> MatcherResult {
    if b {
        MatcherResult::Match
    } else {
        MatcherResult::NoMatch
    }
}

/// The boolean which the [`MatcherResult`] `r` stands for.
pub open spec fn is_match_spec(r: MatcherResult) -> bool {
    r == MatcherResult::Match
}

impl MatcherResult {
    /// Whether this result is [`MatcherResult::Match`].
    pub fn is_match(&self) -> (b: bool)
        ensures
            b == is_match_spec(*self),
    {
        match self {
            MatcherResult::Match => true,
            MatcherResult::NoMatch => false,
        }
    }

    /// Whether this result is [`MatcherResult::NoMatch`].
    pub fn is_no_match(&self) -> (b: bool)
        ensures
            b == !is_match_spec(*self),
    {
        match self {
            MatcherResult::Match => false,
            MatcherResult::NoMatch => true,
        }
    }

    /// The result standing for the boolean `b`.
    pub fn from_bool(b: bool) -> (r: MatcherResult)
        ensures
            r == result_of(b),
    {
        if b {
            MatcherResult::Match
        } else {
            MatcherResult::NoMatch
        }
    }

    /// The opposite result: `Match` for `NoMatch` and the other way round.
    pub fn negate(&self) -> (r: MatcherResult)
        ensures
            r == result_of(!is_match_spec(*self)),
    {
        match self {
            MatcherResult::Match => MatcherResult::NoMatch,
            MatcherResult::NoMatch => MatcherResult::Match,
        }
    }
}

impl From<bool> for MatcherResult {
    fn from(b: bool) -> (r: MatcherResult) {
        MatcherResult::from_bool(b)
    }
}

impl vstd::std_specs::convert::FromSpecImpl<bool> for MatcherResult {
    open spec fn obeys_from_spec() -> bool {
        true
    }

    open spec fn from_spec(b: bool) -> MatcherResult {
        result_of(b)
    }
}

impl From<MatcherResult> for bool {
    fn from(r: MatcherResult) -> (b: bool) {
        r.is_match()
    }
}

impl vstd::std_specs::convert::FromSpecImpl<MatcherResult> for bool {
    open spec fn obeys_from_spec() -> bool {
        true
    }

    open spec fn from_spec(r: MatcherResult) -> bool {
        is_match_spec(r)
    }
}

/// A value which can describe, in words, the values it matches or does not
/// match.
pub trait Describable {
    /// The description for the given outcome, as text.
    ///
    /// For `Match` it completes the sentence "the actual value ..." with what
    /// a matching value satisfies; for `NoMatch`, with what a non-matching
    /// value satisfies.
    spec fn spec_describe(&self, matcher_result: MatcherResult) -> Seq<char>;

    /// Renders the description for the given outcome.
    fn describe(&self, matcher_result: MatcherResult) -> (description: String)
        ensures
            description@ == self.spec_describe(matcher_result),
    ;
}

/// A predicate on values of type `T`, together with the text describing it.
pub trait Matcher<T>: Describable {
    /// Whether `actual` is matched.
    spec fn spec_matches(&self, actual: T) -> bool;

    /// The explanation of why `actual` is or is not matched.
    spec fn spec_explain(&self, actual: T) -> Seq<char>;

    /// Matches `actual` against this matcher.
    fn matches(&self, actual: &T) -> (r: MatcherResult)
        ensures
            r == result_of(self.spec_matches(*actual)),
    ;

    /// Explains why `actual` is or is not matched.
    fn explain_match(&self, actual: &T) -> (explanation: String)
        ensures
            explanation@ == self.spec_explain(*actual),
    ;
}

/// The text `description` after "which ": how matchers explain a value by
/// default, with their description for the outcome on that value.
pub open spec fn which(description: Seq<char>) -> Seq<char> {
    "which "@ + description
}

/// Renders [`which`] of `description`.
pub fn prefix_which(description: String) -> (explanation: String)
    ensures
        explanation@ == which(description@),
{
    let mut s = String::from_str("which ");
    s.append(description.as_str());
    s
}

} // verus!
