//! Matching containers which hold an element matched by an inner matcher.

use crate::collection::Container;
use crate::matcher::{is_match_spec, result_of, Describable, Matcher, MatcherResult};
use crate::matchers::anything_matcher::Anything;
use crate::text::{decimal_usize, nat_decimal};
use vstd::prelude::*;

verus! {

/// The number of items of `items` which `inner` matches.
pub open spec fn count_matching<T, M: Matcher<T>>(inner: M, items: Seq<T>) -> nat
    decreases items.len(),
{
    if items.len() == 0 {
        0
    } else {
        count_matching(inner, items.drop_last()) + if inner.spec_matches(items.last()) {
            1nat
        } else {
            0nat
        }
    }
}

/// Whether some item of `items` is matched by `inner`.
pub open spec fn some_item_matches<T, M: Matcher<T>>(inner: M, items: Seq<T>) -> bool {
    exists|i: int| 0 <= i < items.len() && inner.spec_matches(#[trigger] items[i])
}

/// There is a matching item exactly when the number of matching items is
/// positive.
pub proof fn lemma_count_positive_iff_some<T, M: Matcher<T>>(inner: M, items: Seq<T>)
    ensures
        (count_matching(inner, items) > 0) == some_item_matches(inner, items),
        count_matching(inner, items) <= items.len(),
    decreases items.len(),
{
    if items.len() > 0 {
        let init = items.drop_last();
        lemma_count_positive_iff_some(inner, init);
        if some_item_matches(inner, init) {
            let i = choose|i: int| 0 <= i < init.len() && inner.spec_matches(#[trigger] init[i]);
            assert(items[i] == init[i]);
        }
        if some_item_matches(inner, items) && !inner.spec_matches(items.last()) {
            let i = choose|i: int| 0 <= i < items.len() && inner.spec_matches(#[trigger] items[i]);
            assert(init[i] == items[i]);
        }
        if inner.spec_matches(items.last()) {
            assert(inner.spec_matches(items[items.len() - 1]));
        }
    }
}

/// No item of an empty sequence matches.
pub proof fn lemma_count_empty<T, M: Matcher<T>>(inner: M)
    ensures
        count_matching(inner, Seq::<T>::empty()) == 0,
{
}

/// Appending an item adds one to the count when `inner` matches the item,
/// and nothing otherwise, whatever came before.
pub proof fn lemma_count_push<T, M: Matcher<T>>(inner: M, items: Seq<T>, x: T)
    ensures
        count_matching(inner, items.push(x)) == count_matching(inner, items) + if inner.spec_matches(
            x,
        ) {
            1nat
        } else {
            0nat
        },
{
    assert(items.push(x).drop_last() =~= items);
    assert(items.push(x).last() == x);
}

/// The count over two sequences placed end to end is the sum of their
/// counts.
pub proof fn lemma_count_concat<T, M: Matcher<T>>(inner: M, front: Seq<T>, back: Seq<T>)
    ensures
        count_matching(inner, front + back) == count_matching(inner, front) + count_matching(
            inner,
            back,
        ),
    decreases back.len(),
{
    if back.len() == 0 {
        assert(front + back =~= front);
    } else {
        let init = back.drop_last();
        lemma_count_concat(inner, front, init);
        assert((front + back).drop_last() =~= front + init);
        assert((front + back).last() == back.last());
    }
}

/// Every item which `inner` matches counts once: when all items match the
/// count is the length, and when none does it is zero.
pub proof fn lemma_count_all_or_none<T, M: Matcher<T>>(inner: M, items: Seq<T>)
    ensures
        (forall|i: int| 0 <= i < items.len() ==> inner.spec_matches(#[trigger] items[i]))
            ==> count_matching(inner, items) == items.len(),
        (forall|i: int| 0 <= i < items.len() ==> !inner.spec_matches(#[trigger] items[i]))
            ==> count_matching(inner, items) == 0,
    decreases items.len(),
{
    if items.len() > 0 {
        let init = items.drop_last();
        lemma_count_all_or_none(inner, init);
        assert(items.last() == items[items.len() - 1]);
        assert forall|i: int| 0 <= i < init.len() implies init[i] == items[i] by {}
    }
}

/// Matches a container holding an element which `inner` matches.
///
/// With [`ContainsMatcher::times`], it matches a container whose number of
/// elements which `inner` matches is itself matched by a given matcher.
pub fn contains<InnerMatcherT>(inner: InnerMatcherT) -> (m: ContainsMatcher<InnerMatcherT, Anything>)
    ensures
        m.inner == inner,
        m.count.is_none(),
{
    ContainsMatcher { inner, count: None }
}

/// A matcher of containers holding elements which an inner matcher matches.
pub struct ContainsMatcher<InnerMatcherT, CountMatcherT> {
    pub inner: InnerMatcherT,
    pub count: Option<CountMatcherT>,
}

impl<InnerMatcherT, CountMatcherT> ContainsMatcher<InnerMatcherT, CountMatcherT> {
    /// Configures this matcher to match containers whose number of matching
    /// elements is matched by `count`.
    ///
    /// `times(eq(0))` thus matches containers with no matching element.
    pub fn times<NewCountMatcherT>(self, count: NewCountMatcherT) -> (m: ContainsMatcher<
        InnerMatcherT,
        NewCountMatcherT,
    >)
        ensures
            m.inner == self.inner,
            m.count == Some(count),
    {
        ContainsMatcher { inner: self.inner, count: Some(count) }
    }

    /// Counts the elements of `actual` which the inner matcher matches.
    pub fn count_matches<C: Container>(&self, actual: &C) -> (n: usize)
        where
            InnerMatcherT: Matcher<C::Item>,
        ensures
            n == count_matching(self.inner, actual.spec_items()),
    {
        let ghost items = actual.spec_items();
        let len = actual.count();
        let mut n: usize = 0;
        let mut i: usize = 0;
        proof {
            lemma_count_positive_iff_some(self.inner, items);
        }
        while i < len
            invariant
                len == items.len(),
                items == actual.spec_items(),
                i <= len,
                n == count_matching(self.inner, items.take(i as int)),
                n <= i,
            decreases len - i,
        {
            assert(items.take(i + 1).drop_last() =~= items.take(i as int));
            assert(items.take(i + 1).last() == items[i as int]);
            if self.inner.matches(actual.item(i)).is_match() {
                n += 1;
            }
            i += 1;
        }
        assert(items.take(len as int) =~= items);
        n
    }
}

impl<InnerMatcherT: Describable, CountMatcherT: Describable> Describable for ContainsMatcher<
    InnerMatcherT,
    CountMatcherT,
> {
    open spec fn spec_describe(&self, matcher_result: MatcherResult) -> Seq<char> {
        let inner = self.inner.spec_describe(MatcherResult::Match);
        match (matcher_result, self.count) {
            (MatcherResult::Match, Some(c)) => "contains n elements which "@ + inner
                + "\n  where n "@ + c.spec_describe(MatcherResult::Match),
            (MatcherResult::NoMatch, Some(c)) => "doesn't contain n elements which "@ + inner
                + "\n  where n "@ + c.spec_describe(MatcherResult::Match),
            (MatcherResult::Match, None) => "contains at least one element which "@ + inner,
            (MatcherResult::NoMatch, None) => "contains no element which "@ + inner,
        }
    }

    fn describe(&self, matcher_result: MatcherResult) -> (description: String) {
        let inner = self.inner.describe(MatcherResult::Match);
        match (matcher_result, &self.count) {
            (MatcherResult::Match, Some(c)) => {
                let mut s = String::from_str("contains n elements which ");
                s.append(inner.as_str());
                s.append("\n  where n ");
                let d = c.describe(MatcherResult::Match);
                s.append(d.as_str());
                s
            },
            (MatcherResult::NoMatch, Some(c)) => {
                let mut s = String::from_str("doesn't contain n elements which ");
                s.append(inner.as_str());
                s.append("\n  where n ");
                let d = c.describe(MatcherResult::Match);
                s.append(d.as_str());
                s
            },
            (MatcherResult::Match, None) => {
                let mut s = String::from_str("contains at least one element which ");
                s.append(inner.as_str());
                s
            },
            (MatcherResult::NoMatch, None) => {
                let mut s = String::from_str("contains no element which ");
                s.append(inner.as_str());
                s
            },
        }
    }
}

impl<
    C: Container,
    InnerMatcherT: Matcher<C::Item>,
    CountMatcherT: Matcher<usize>,
> Matcher<C> for ContainsMatcher<InnerMatcherT, CountMatcherT> {
    open spec fn spec_matches(&self, actual: C) -> bool {
        match self.count {
            Some(c) => c.spec_matches(count_matching(self.inner, actual.spec_items()) as usize),
            None => some_item_matches(self.inner, actual.spec_items()),
        }
    }

    open spec fn spec_explain(&self, actual: C) -> Seq<char> {
        let n = count_matching(self.inner, actual.spec_items());
        if self.count.is_some() {
            "which contains "@ + nat_decimal(n) + " matching elements"@
        } else if n == 0 {
            "which does not contain a matching element"@
        } else {
            "which contains a matching element"@
        }
    }

    fn matches(&self, actual: &C) -> (r: MatcherResult) {
        match &self.count {
            Some(c) => {
                let n = self.count_matches(actual);
                c.matches(&n)
            },
            None => {
                let ghost items = actual.spec_items();
                let len = actual.count();
                let mut i: usize = 0;
                while i < len
                    invariant
                        len == items.len(),
                        items == actual.spec_items(),
                        self.count.is_none(),
                        i <= len,
                        forall|j: int| 0 <= j < i ==> !self.inner.spec_matches(#[trigger] items[j]),
                    decreases len - i,
                {
                    if self.inner.matches(actual.item(i)).is_match() {
                        assert(self.inner.spec_matches(items[i as int]));
                        return MatcherResult::Match;
                    }
                    i += 1;
                }
                MatcherResult::NoMatch
            },
        }
    }

    fn explain_match(&self, actual: &C) -> (explanation: String) {
        let n = self.count_matches(actual);
        if self.count.is_some() {
            let mut s = String::from_str("which contains ");
            let d = decimal_usize(n);
            s.append(d.as_str());
            s.append(" matching elements");
            s
        } else if n == 0 {
            String::from_str("which does not contain a matching element")
        } else {
            String::from_str("which contains a matching element")
        }
    }
}

} // verus!
