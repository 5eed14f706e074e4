//! Matching text by its prefix, its suffix or a part of it.

use crate::matcher::{prefix_which, result_of, which, Describable, Matcher, MatcherResult};
use crate::text::{debug_text, quoted};
use crate::value::{equal_texts, Text};
use vstd::prelude::*;

verus! {

/// Which part of the actual text a [`StrMatcher`] compares with the
/// expected text.
#[derive(Clone, Copy, PartialEq, Eq, Structural)]
pub enum TextPart {
    /// The beginning of the actual text.
    Prefix,
    /// The end of the actual text.
    Suffix,
    /// Any consecutive characters of the actual text.
    Substring,
}

/// Whether `expected` is a prefix of `actual`.
pub open spec fn has_prefix(actual: Seq<char>, expected: Seq<char>) -> bool {
    expected.len() <= actual.len() && actual.take(expected.len() as int) == expected
}

/// Whether `expected` is a suffix of `actual`.
pub open spec fn has_suffix(actual: Seq<char>, expected: Seq<char>) -> bool {
    expected.len() <= actual.len() && actual.skip(actual.len() - expected.len()) == expected
}

/// Whether `expected` occurs in `actual` at position `i`.
pub open spec fn occurs_at(actual: Seq<char>, expected: Seq<char>, i: int) -> bool {
    0 <= i && i + expected.len() <= actual.len() && actual.subrange(i, i + expected.len()) == expected
}

/// Whether `expected` occurs somewhere in `actual`.
pub open spec fn has_substring(actual: Seq<char>, expected: Seq<char>) -> bool {
    exists|i: int| occurs_at(actual, expected, i)
}

/// A text placed in front of another is its prefix, placed behind it is its
/// suffix, and placed between two others is one of their substrings.
pub proof fn lemma_text_parts(before: Seq<char>, part: Seq<char>, after: Seq<char>)
    ensures
        has_prefix(part + after, part),
        has_suffix(before + part, part),
        has_substring(before + part + after, part),
{
    assert((part + after).take(part.len() as int) =~= part);
    assert((before + part).skip(before.len() as int) =~= part);
    let whole = before + part + after;
    assert(whole.subrange(before.len() as int, (before.len() + part.len()) as int) =~= part);
    assert(occurs_at(whole, part, before.len() as int));
}

/// A prefix and a suffix are substrings, and the empty text is a prefix, a
/// suffix and a substring of every text.
pub proof fn lemma_prefix_suffix_are_substrings(actual: Seq<char>, expected: Seq<char>)
    ensures
        has_prefix(actual, expected) ==> has_substring(actual, expected),
        has_suffix(actual, expected) ==> has_substring(actual, expected),
        has_prefix(actual, seq![]),
        has_suffix(actual, seq![]),
        has_substring(actual, seq![]),
{
    if has_prefix(actual, expected) {
        assert(actual.subrange(0, expected.len() as int) =~= actual.take(expected.len() as int));
        assert(occurs_at(actual, expected, 0));
    }
    if has_suffix(actual, expected) {
        let i = actual.len() - expected.len();
        assert(actual.subrange(i, i + expected.len()) =~= actual.skip(i));
        assert(occurs_at(actual, expected, i));
    }
    assert(actual.take(0) =~= seq![]);
    assert(actual.skip(actual.len() as int) =~= seq![]);
    assert(actual.subrange(0, 0) =~= seq![]);
    assert(occurs_at(actual, seq![], 0));
}

/// Matches a text which starts with `expected`.
pub fn starts_with(expected: &str) -> (m: StrMatcher)
    ensures
        m.expected@ == expected@,
        m.part == TextPart::Prefix,
{
    StrMatcher { expected: String::from_str(expected), part: TextPart::Prefix }
}

/// Matches a text which ends with `expected`.
pub fn ends_with(expected: &str) -> (m: StrMatcher)
    ensures
        m.expected@ == expected@,
        m.part == TextPart::Suffix,
{
    StrMatcher { expected: String::from_str(expected), part: TextPart::Suffix }
}

/// Matches a text which contains `expected`.
pub fn contains_substring(expected: &str) -> (m: StrMatcher)
    ensures
        m.expected@ == expected@,
        m.part == TextPart::Substring,
{
    StrMatcher { expected: String::from_str(expected), part: TextPart::Substring }
}

/// A matcher of texts containing an expected text at a given place.
pub struct StrMatcher {
    pub expected: String,
    pub part: TextPart,
}

/// Whether the text `expected` occurs at position `i` of the text `actual`.
fn occurs_here(actual: &str, expected: &str, i: usize) -> (r: bool)
    requires
        i + expected@.len() <= actual@.len(),
    ensures
        r == occurs_at(actual@, expected@, i as int),
{
    let n = expected.unicode_len();
    let na = actual.unicode_len();
    let mut j: usize = 0;
    while j < n
        invariant
            n == expected@.len(),
            na == actual@.len(),
            i + n <= actual@.len(),
            j <= n,
            forall|k: int| 0 <= k < j ==> actual@[i + k] == expected@[k],
        decreases n - j,
    {
        if actual.get_char(i + j) != expected.get_char(j) {
            assert(actual@.subrange(i as int, i + n)[j as int] != expected@[j as int]);
            return false;
        }
        j += 1;
    }
    assert(actual@.subrange(i as int, i + n) =~= expected@);
    true
}

/// Computes [`has_prefix`] of `actual` and `expected`.
pub fn text_has_prefix(actual: &str, expected: &str) -> (r: bool)
    ensures
        r == has_prefix(actual@, expected@),
{
    if expected.unicode_len() > actual.unicode_len() {
        return false;
    }
    let r = occurs_here(actual, expected, 0);
    assert(actual@.subrange(0, expected@.len() as int) =~= actual@.take(expected@.len() as int));
    r
}

/// Computes [`has_suffix`] of `actual` and `expected`.
pub fn text_has_suffix(actual: &str, expected: &str) -> (r: bool)
    ensures
        r == has_suffix(actual@, expected@),
{
    let na = actual.unicode_len();
    let ne = expected.unicode_len();
    if ne > na {
        return false;
    }
    let r = occurs_here(actual, expected, na - ne);
    assert(actual@.subrange(na - ne, na as int) =~= actual@.skip(na - ne));
    r
}

/// Computes [`has_substring`] of `actual` and `expected`.
pub fn text_has_substring(actual: &str, expected: &str) -> (r: bool)
    ensures
        r == has_substring(actual@, expected@),
{
    let na = actual.unicode_len();
    let ne = expected.unicode_len();
    if ne > na {
        return false;
    }
    let last = na - ne;
    let mut i: usize = 0;
    loop
        invariant
            na == actual@.len(),
            ne == expected@.len(),
            last == na - ne,
            i <= last,
            forall|k: int| 0 <= k < i ==> !occurs_at(actual@, expected@, k),
        decreases last - i,
    {
        if occurs_here(actual, expected, i) {
            return true;
        }
        if i == last {
            return false;
        }
        i += 1;
    }
}

impl StrMatcher {
    /// Whether the text `actual` is matched.
    pub open spec fn spec_matches_text(&self, actual: Seq<char>) -> bool {
        match self.part {
            TextPart::Prefix => has_prefix(actual, self.expected@),
            TextPart::Suffix => has_suffix(actual, self.expected@),
            TextPart::Substring => has_substring(actual, self.expected@),
        }
    }
}

impl Describable for StrMatcher {
    open spec fn spec_describe(&self, matcher_result: MatcherResult) -> Seq<char> {
        let e = debug_text(self.expected@);
        match (self.part, matcher_result) {
            (TextPart::Prefix, MatcherResult::Match) => "starts with prefix "@ + e,
            (TextPart::Prefix, MatcherResult::NoMatch) => "does not start with "@ + e,
            (TextPart::Suffix, MatcherResult::Match) => "ends with suffix "@ + e,
            (TextPart::Suffix, MatcherResult::NoMatch) => "does not end with "@ + e,
            (TextPart::Substring, MatcherResult::Match) => "contains a substring "@ + e,
            (TextPart::Substring, MatcherResult::NoMatch) => "does not contain a substring "@ + e,
        }
    }

    fn describe(&self, matcher_result: MatcherResult) -> (description: String) {
        let mut s = match (self.part, matcher_result) {
            (TextPart::Prefix, MatcherResult::Match) => String::from_str("starts with prefix "),
            (TextPart::Prefix, MatcherResult::NoMatch) => String::from_str("does not start with "),
            (TextPart::Suffix, MatcherResult::Match) => String::from_str("ends with suffix "),
            (TextPart::Suffix, MatcherResult::NoMatch) => String::from_str("does not end with "),
            (TextPart::Substring, MatcherResult::Match) => String::from_str("contains a substring "),
            (TextPart::Substring, MatcherResult::NoMatch) => String::from_str(
                "does not contain a substring ",
            ),
        };
        let e = quoted(self.expected.as_str());
        s.append(e.as_str());
        s
    }
}

impl<ActualT: Text> Matcher<ActualT> for StrMatcher {
    open spec fn spec_matches(&self, actual: ActualT) -> bool {
        self.spec_matches_text(actual.spec_text())
    }

    open spec fn spec_explain(&self, actual: ActualT) -> Seq<char> {
        which(self.spec_describe(result_of(self.spec_matches(actual))))
    }

    fn matches(&self, actual: &ActualT) -> (r: MatcherResult) {
        let a = actual.as_text();
        let e = self.expected.as_str();
        let b = match self.part {
            TextPart::Prefix => text_has_prefix(a, e),
            TextPart::Suffix => text_has_suffix(a, e),
            TextPart::Substring => text_has_substring(a, e),
        };
        MatcherResult::from_bool(b)
    }

    fn explain_match(&self, actual: &ActualT) -> (explanation: String) {
        prefix_which(self.describe(self.matches(actual)))
    }
}

} // verus!
