//! Matching values inside a range.

use crate::matcher::{prefix_which, result_of, which, Describable, Matcher, MatcherResult};
use crate::value::{Debuggable, OrderedWith};
use core::marker::PhantomData;
use core::ops::{Bound, Range, RangeFrom, RangeFull, RangeInclusive, RangeTo, RangeToInclusive};
use vstd::prelude::*;

verus! {

/// A range of values, read as its two bounds, as `RangeBounds` gives them:
/// each end is included, excluded, or absent (unbounded).
pub trait RangeEnds<ExpectedT>: Sized {
    /// The lower bound.
    spec fn spec_start_bound(&self) -> Bound<ExpectedT>;

    /// The upper bound.
    spec fn spec_end_bound(&self) -> Bound<ExpectedT>;

    /// Whether the range is written as a pair of bounds, as `{:?}` then
    /// renders it.
    spec fn spec_written_as_pair(&self) -> bool;

    /// Whether the bounds are determined: an inclusive range which iteration
    /// has run to exhaustion no longer reports them.
    spec fn spec_settled(&self) -> bool;

    /// Takes the range apart into its lower bound, its upper bound, and
    /// whether it is written as a pair of bounds.
    fn into_ends(self) -> (ends: (Bound<ExpectedT>, Bound<ExpectedT>, bool))
        requires
            self.spec_settled(),
        ensures
            ends.0 == self.spec_start_bound(),
            ends.1 == self.spec_end_bound(),
            ends.2 == self.spec_written_as_pair(),
    ;
}

/// A bound of a range: included, excluded or absent.
#[verifier::external_type_specification]
#[verifier::reject_recursive_types(T)]
pub struct ExBound<T>(Bound<T>);

/// The range `start..`, bounded below only.
#[verifier::external_type_specification]
#[verifier::reject_recursive_types(Idx)]
pub struct ExRangeFrom<Idx>(RangeFrom<Idx>);

/// The range `..end`, bounded above only, the end excluded.
#[verifier::external_type_specification]
#[verifier::reject_recursive_types(Idx)]
pub struct ExRangeTo<Idx>(RangeTo<Idx>);

/// The range `..=end`, bounded above only, the end included.
#[verifier::external_type_specification]
#[verifier::reject_recursive_types(Idx)]
pub struct ExRangeToInclusive<Idx>(RangeToInclusive<Idx>);

/// The range `..`, unbounded on both sides.
#[verifier::external_type_specification]
#[verifier::external_body]
pub struct ExRangeFull(RangeFull);

/// Takes the inclusive range `range` apart into its two ends.
///
/// Calls `RangeInclusive::into_inner`, which its documentation describes as
/// returning the lower bound and the inclusive upper bound; after iteration
/// to exhaustion the values are unspecified, so such a range is left out.
#[verifier::external_body]
fn inclusive_ends<ExpectedT>(range: RangeInclusive<ExpectedT>) -> (ends: (ExpectedT, ExpectedT))
    requires
        !range@.exhausted,
    ensures
        ends.0 == range@.start,
        ends.1 == range@.end,
{
    range.into_inner()
}

impl<ExpectedT> RangeEnds<ExpectedT> for Range<ExpectedT> {
    open spec fn spec_start_bound(&self) -> Bound<ExpectedT> {
        Bound::Included(self.start)
    }

    open spec fn spec_end_bound(&self) -> Bound<ExpectedT> {
        Bound::Excluded(self.end)
    }

    open spec fn spec_written_as_pair(&self) -> bool {
        false
    }

    open spec fn spec_settled(&self) -> bool {
        true
    }

    fn into_ends(self) -> (ends: (Bound<ExpectedT>, Bound<ExpectedT>, bool)) {
        (Bound::Included(self.start), Bound::Excluded(self.end), false)
    }
}

impl<ExpectedT> RangeEnds<ExpectedT> for RangeFrom<ExpectedT> {
    open spec fn spec_start_bound(&self) -> Bound<ExpectedT> {
        Bound::Included(self.start)
    }

    open spec fn spec_end_bound(&self) -> Bound<ExpectedT> {
        Bound::Unbounded
    }

    open spec fn spec_written_as_pair(&self) -> bool {
        false
    }

    open spec fn spec_settled(&self) -> bool {
        true
    }

    fn into_ends(self) -> (ends: (Bound<ExpectedT>, Bound<ExpectedT>, bool)) {
        (Bound::Included(self.start), Bound::Unbounded, false)
    }
}

impl<ExpectedT> RangeEnds<ExpectedT> for RangeTo<ExpectedT> {
    open spec fn spec_start_bound(&self) -> Bound<ExpectedT> {
        Bound::Unbounded
    }

    open spec fn spec_end_bound(&self) -> Bound<ExpectedT> {
        Bound::Excluded(self.end)
    }

    open spec fn spec_written_as_pair(&self) -> bool {
        false
    }

    open spec fn spec_settled(&self) -> bool {
        true
    }

    fn into_ends(self) -> (ends: (Bound<ExpectedT>, Bound<ExpectedT>, bool)) {
        (Bound::Unbounded, Bound::Excluded(self.end), false)
    }
}

impl<ExpectedT> RangeEnds<ExpectedT> for RangeToInclusive<ExpectedT> {
    open spec fn spec_start_bound(&self) -> Bound<ExpectedT> {
        Bound::Unbounded
    }

    open spec fn spec_end_bound(&self) -> Bound<ExpectedT> {
        Bound::Included(self.end)
    }

    open spec fn spec_written_as_pair(&self) -> bool {
        false
    }

    open spec fn spec_settled(&self) -> bool {
        true
    }

    fn into_ends(self) -> (ends: (Bound<ExpectedT>, Bound<ExpectedT>, bool)) {
        (Bound::Unbounded, Bound::Included(self.end), false)
    }
}

impl<ExpectedT> RangeEnds<ExpectedT> for RangeFull {
    open spec fn spec_start_bound(&self) -> Bound<ExpectedT> {
        Bound::Unbounded
    }

    open spec fn spec_end_bound(&self) -> Bound<ExpectedT> {
        Bound::Unbounded
    }

    open spec fn spec_written_as_pair(&self) -> bool {
        false
    }

    open spec fn spec_settled(&self) -> bool {
        true
    }

    fn into_ends(self) -> (ends: (Bound<ExpectedT>, Bound<ExpectedT>, bool)) {
        (Bound::Unbounded, Bound::Unbounded, false)
    }
}

impl<ExpectedT> RangeEnds<ExpectedT> for RangeInclusive<ExpectedT> {
    open spec fn spec_start_bound(&self) -> Bound<ExpectedT> {
        Bound::Included(self@.start)
    }

    open spec fn spec_end_bound(&self) -> Bound<ExpectedT> {
        Bound::Included(self@.end)
    }

    open spec fn spec_written_as_pair(&self) -> bool {
        false
    }

    open spec fn spec_settled(&self) -> bool {
        !self@.exhausted
    }

    fn into_ends(self) -> (ends: (Bound<ExpectedT>, Bound<ExpectedT>, bool)) {
        let (start, end) = inclusive_ends(self);
        (Bound::Included(start), Bound::Included(end), false)
    }
}

impl<ExpectedT> RangeEnds<ExpectedT> for (Bound<ExpectedT>, Bound<ExpectedT>) {
    open spec fn spec_start_bound(&self) -> Bound<ExpectedT> {
        self.0
    }

    open spec fn spec_end_bound(&self) -> Bound<ExpectedT> {
        self.1
    }

    open spec fn spec_written_as_pair(&self) -> bool {
        true
    }

    open spec fn spec_settled(&self) -> bool {
        true
    }

    fn into_ends(self) -> (ends: (Bound<ExpectedT>, Bound<ExpectedT>, bool)) {
        (self.0, self.1, true)
    }
}

/// Matches a value contained in `range`: above its lower bound and below
/// its upper bound, each bound admitting the value on it when included.
pub fn in_range<RangeT: RangeEnds<ExpectedT>, ExpectedT>(range: RangeT) -> (m: InRangeMatcher<
    RangeT,
    ExpectedT,
>)
    requires
        range.spec_settled(),
    ensures
        m.start == range.spec_start_bound(),
        m.end == range.spec_end_bound(),
        m.written_as_pair == range.spec_written_as_pair(),
{
    let (start, end, written_as_pair) = range.into_ends();
    InRangeMatcher { start, end, written_as_pair, phantom: PhantomData }
}

/// A matcher of values inside a range, kept as its two bounds.
#[verifier::reject_recursive_types(ExpectedT)]
pub struct InRangeMatcher<RangeT, ExpectedT> {
    /// The lower bound.
    pub start: Bound<ExpectedT>,
    /// The upper bound.
    pub end: Bound<ExpectedT>,
    /// Whether the range was written as a pair of bounds.
    pub written_as_pair: bool,
    pub phantom: PhantomData<RangeT>,
}

/// The rendering of a bound, as `{:?}` lays it out.
pub open spec fn bound_text<E: Debuggable>(bound: Bound<E>) -> Seq<char> {
    match bound {
        Bound::Included(x) => "Included("@ + x.spec_debug() + ")"@,
        Bound::Excluded(x) => "Excluded("@ + x.spec_debug() + ")"@,
        Bound::Unbounded => "Unbounded"@,
    }
}

/// The rendering of the range with the given bounds, as `{:?}` lays it out:
/// `(start, end)` for a pair of bounds; otherwise `start..end`, with `..=`
/// when the upper end is included, an absent end leaving its side empty.
pub open spec fn range_text<E: Debuggable>(start: Bound<E>, end: Bound<E>, written_as_pair: bool) -> Seq<
    char,
> {
    if written_as_pair {
        "("@ + bound_text(start) + ", "@ + bound_text(end) + ")"@
    } else {
        let lower = match start {
            Bound::Included(s) => s.spec_debug(),
            Bound::Excluded(s) => s.spec_debug(),
            Bound::Unbounded => seq![],
        };
        let separator = match end {
            Bound::Included(_) => "..="@,
            _ => ".."@,
        };
        let upper = match end {
            Bound::Included(e) => e.spec_debug(),
            Bound::Excluded(e) => e.spec_debug(),
            Bound::Unbounded => seq![],
        };
        lower + separator + upper
    }
}

/// Whether `actual` lies between the given bounds, as `RangeBounds::contains`
/// decides: above (or, when included, on) the lower bound, and below (or,
/// when included, on) the upper bound.
pub open spec fn within<E: OrderedWith<A>, A: OrderedWith<E>>(
    start: Bound<E>,
    end: Bound<E>,
    actual: A,
) -> bool {
    &&& match start {
        Bound::Included(s) => s.spec_le(actual),
        Bound::Excluded(s) => s.spec_lt(actual),
        Bound::Unbounded => true,
    }
    &&& match end {
        Bound::Included(e) => actual.spec_le(e),
        Bound::Excluded(e) => actual.spec_lt(e),
        Bound::Unbounded => true,
    }
}

/// `start..end` holds the values from `start` on, `start` included, up to
/// `end`, `end` excluded.
pub proof fn lemma_range_contains<E: OrderedWith<A>, A: OrderedWith<E>>(range: Range<E>, actual: A)
    ensures
        within(range.spec_start_bound(), range.spec_end_bound(), actual) == (range.start.spec_le(
            actual,
        ) && actual.spec_lt(range.end)),
{
}

/// `start..` holds the values from `start` on, `start` included.
pub proof fn lemma_range_from_contains<E: OrderedWith<A>, A: OrderedWith<E>>(
    range: RangeFrom<E>,
    actual: A,
)
    ensures
        within(range.spec_start_bound(), range.spec_end_bound(), actual) == range.start.spec_le(
            actual,
        ),
{
}

/// `..end` holds the values below `end`, `end` excluded.
pub proof fn lemma_range_to_contains<E: OrderedWith<A>, A: OrderedWith<E>>(
    range: RangeTo<E>,
    actual: A,
)
    ensures
        within(range.spec_start_bound(), range.spec_end_bound(), actual) == actual.spec_lt(
            range.end,
        ),
{
}

/// `..=end` holds the values up to `end`, `end` included.
pub proof fn lemma_range_to_inclusive_contains<E: OrderedWith<A>, A: OrderedWith<E>>(
    range: RangeToInclusive<E>,
    actual: A,
)
    ensures
        within(range.spec_start_bound(), range.spec_end_bound(), actual) == actual.spec_le(
            range.end,
        ),
{
}

/// `start..=end` holds the values from `start` to `end`, both included.
pub proof fn lemma_range_inclusive_contains<E: OrderedWith<A>, A: OrderedWith<E>>(
    range: RangeInclusive<E>,
    actual: A,
)
    ensures
        within(range.spec_start_bound(), range.spec_end_bound(), actual) == (range@.start.spec_le(
            actual,
        ) && actual.spec_le(range@.end)),
{
}

/// `..` holds every value.
pub proof fn lemma_range_full_contains<E: OrderedWith<A>, A: OrderedWith<E>>(
    range: RangeFull,
    actual: A,
)
    ensures
        within(
            <RangeFull as RangeEnds<E>>::spec_start_bound(&range),
            <RangeFull as RangeEnds<E>>::spec_end_bound(&range),
            actual,
        ),
{
}

/// On `i32`, each kind of range holds the numbers between its ends as the
/// integers order them, the start of `start..` and `start..end` and both
/// ends of `start..=end` included.
pub proof fn lemma_i32_ranges_contain(
    range: Range<i32>,
    from: RangeFrom<i32>,
    to: RangeTo<i32>,
    to_inclusive: RangeToInclusive<i32>,
    inclusive: RangeInclusive<i32>,
    actual: i32,
)
    ensures
        within(range.spec_start_bound(), range.spec_end_bound(), actual) == (range.start <= actual
            && actual < range.end),
        within(from.spec_start_bound(), from.spec_end_bound(), actual) == (from.start <= actual),
        within(from.spec_start_bound(), from.spec_end_bound(), from.start),
        within(to.spec_start_bound(), to.spec_end_bound(), actual) == (actual < to.end),
        within(to_inclusive.spec_start_bound(), to_inclusive.spec_end_bound(), actual) == (actual
            <= to_inclusive.end),
        within(inclusive.spec_start_bound(), inclusive.spec_end_bound(), actual) == (
        inclusive@.start <= actual && actual <= inclusive@.end),
{
}

/// Renders [`bound_text`] of `bound`.
fn render_bound<E: Debuggable>(bound: &Bound<E>) -> (s: String)
    ensures
        s@ == bound_text(*bound),
{
    match bound {
        Bound::Included(x) => {
            let mut s = String::from_str("Included(");
            let d = x.debug();
            s.append(d.as_str());
            s.append(")");
            s
        },
        Bound::Excluded(x) => {
            let mut s = String::from_str("Excluded(");
            let d = x.debug();
            s.append(d.as_str());
            s.append(")");
            s
        },
        Bound::Unbounded => String::from_str("Unbounded"),
    }
}

impl<RangeT, ExpectedT: Debuggable> InRangeMatcher<RangeT, ExpectedT> {
    /// Renders [`range_text`] of this matcher's bounds.
    pub fn render_range(&self) -> (s: String)
        ensures
            s@ == range_text(self.start, self.end, self.written_as_pair),
    {
        if self.written_as_pair {
            let mut s = String::from_str("(");
            let a = render_bound(&self.start);
            s.append(a.as_str());
            s.append(", ");
            let b = render_bound(&self.end);
            s.append(b.as_str());
            s.append(")");
            return s;
        }
        let mut s = match &self.start {
            Bound::Included(start) => start.debug(),
            Bound::Excluded(start) => start.debug(),
            Bound::Unbounded => String::new(),
        };
        match &self.end {
            Bound::Included(end) => {
                s.append("..=");
                let e = end.debug();
                s.append(e.as_str());
            },
            Bound::Excluded(end) => {
                s.append("..");
                let e = end.debug();
                s.append(e.as_str());
            },
            Bound::Unbounded => {
                s.append("..");
            },
        }
        s
    }
}

impl<RangeT, ExpectedT: Debuggable> Describable for InRangeMatcher<RangeT, ExpectedT> {
    open spec fn spec_describe(&self, matcher_result: MatcherResult) -> Seq<char> {
        match matcher_result {
            MatcherResult::Match => "which is contained in the range "@ + range_text(
                self.start,
                self.end,
                self.written_as_pair,
            ),
            MatcherResult::NoMatch => "which is not contained in the range "@ + range_text(
                self.start,
                self.end,
                self.written_as_pair,
            ),
        }
    }

    fn describe(&self, matcher_result: MatcherResult) -> (description: String) {
        let mut s = match matcher_result {
            MatcherResult::Match => String::from_str("which is contained in the range "),
            MatcherResult::NoMatch => String::from_str("which is not contained in the range "),
        };
        let r = self.render_range();
        s.append(r.as_str());
        s
    }
}

impl<
    RangeT,
    ExpectedT: Debuggable + OrderedWith<ActualT>,
    ActualT: OrderedWith<ExpectedT>,
> Matcher<ActualT> for InRangeMatcher<RangeT, ExpectedT> {
    open spec fn spec_matches(&self, actual: ActualT) -> bool {
        within(self.start, self.end, actual)
    }

    open spec fn spec_explain(&self, actual: ActualT) -> Seq<char> {
        which(self.spec_describe(result_of(self.spec_matches(actual))))
    }

    fn matches(&self, actual: &ActualT) -> (r: MatcherResult) {
        let above = match &self.start {
            Bound::Included(start) => start.le_than(actual),
            Bound::Excluded(start) => start.lt_than(actual),
            Bound::Unbounded => true,
        };
        let below = match &self.end {
            Bound::Included(end) => actual.le_than(end),
            Bound::Excluded(end) => actual.lt_than(end),
            Bound::Unbounded => true,
        };
        MatcherResult::from_bool(above && below)
    }

    fn explain_match(&self, actual: &ActualT) -> (explanation: String) {
        prefix_which(self.describe(self.matches(actual)))
    }
}

} // verus!
