//! Matching containers all of whose elements an inner matcher matches.

use crate::collection::Container;
use crate::matcher::{result_of, Describable, Matcher, MatcherResult};
use crate::matchers::anything_matcher::Anything;
use crate::matchers::containers::contains_matcher::{
    count_matching, lemma_count_positive_iff_some, ContainsMatcher,
};
use crate::matchers::not_matcher::NotMatcher;
use crate::matchers::ord_matchers::GtMatcher;
use crate::text::{decimal_usize, join, nat_decimal};
use crate::value::Debuggable;
use vstd::prelude::*;

verus! {

/// Whether `inner` matches every item of `items`.
pub open spec fn every_item_matches<T, M: Matcher<T>>(inner: M, items: Seq<T>) -> bool {
    forall|i: int| 0 <= i < items.len() ==> inner.spec_matches(#[trigger] items[i])
}

/// The positions of the items of `items` which `inner` does not match, in
/// increasing order.
pub open spec fn mismatch_positions<T, M: Matcher<T>>(inner: M, items: Seq<T>) -> Seq<nat>
    decreases items.len(),
{
    if items.len() == 0 {
        seq![]
    } else if inner.spec_matches(items.last()) {
        mismatch_positions(inner, items.drop_last())
    } else {
        mismatch_positions(inner, items.drop_last()).push((items.len() - 1) as nat)
    }
}

/// The labels `#i` of the positions `positions`, separated by commas.
pub open spec fn position_labels(positions: Seq<nat>) -> Seq<char> {
    join(positions.map_values(|p: nat| "#"@ + nat_decimal(p)), ", "@)
}

/// The positions of mismatches are positions of the items, in increasing
/// order, and every mismatching item is among them.
pub proof fn lemma_mismatch_positions<T, M: Matcher<T>>(inner: M, items: Seq<T>)
    ensures
        forall|k: int|
            0 <= k < mismatch_positions(inner, items).len() ==> {
                let p = #[trigger] mismatch_positions(inner, items)[k];
                p < items.len() && !inner.spec_matches(items[p as int])
            },
        forall|i: int|
            0 <= i < items.len() && !inner.spec_matches(#[trigger] items[i]) ==> mismatch_positions(
                inner,
                items,
            ).contains(i as nat),
        (mismatch_positions(inner, items).len() == 0) == every_item_matches(inner, items),
    decreases items.len(),
{
    if items.len() > 0 {
        let init = items.drop_last();
        lemma_mismatch_positions(inner, init);
        let prev = mismatch_positions(inner, init);
        assert forall|i: int|
            0 <= i < items.len() && !inner.spec_matches(#[trigger] items[i]) implies mismatch_positions(
            inner,
            items,
        ).contains(i as nat) by {
            if i < items.len() - 1 {
                assert(init[i] == items[i]);
                let k = choose|k: int| 0 <= k < prev.len() && prev[k] == i as nat;
                if inner.spec_matches(items.last()) {
                } else {
                    assert(mismatch_positions(inner, items)[k] == i as nat);
                }
            } else {
                let all = mismatch_positions(inner, items);
                assert(all[all.len() - 1] == i as nat);
            }
        }
        if every_item_matches(inner, items) {
            assert forall|i: int| 0 <= i < init.len() implies inner.spec_matches(#[trigger] init[i]) by {
                assert(items[i] == init[i]);
            }
            assert(inner.spec_matches(items[items.len() - 1]));
        }
        if !every_item_matches(inner, items) {
            let i = choose|i: int| 0 <= i < items.len() && !inner.spec_matches(#[trigger] items[i]);
            assert(mismatch_positions(inner, items).contains(i as nat));
        }
        assert forall|k: int|
            0 <= k < mismatch_positions(inner, items).len() implies {
                let p = #[trigger] mismatch_positions(inner, items)[k];
                p < items.len() && !inner.spec_matches(items[p as int])
            } by {
            if k < prev.len() {
                let p = prev[k];
                assert(init[p as int] == items[p as int]);
            } else {
                assert(items.last() == items[items.len() - 1]);
            }
        }
    }
}

/// Matches a container all of whose elements `inner` matches.
pub fn each<InnerMatcherT>(inner: InnerMatcherT) -> (m: EachMatcher<InnerMatcherT>)
    ensures
        m.inner == inner,
{
    EachMatcher { inner }
}

/// A matcher of containers all of whose elements an inner matcher matches.
pub struct EachMatcher<InnerMatcherT> {
    pub inner: InnerMatcherT,
}

impl<InnerMatcherT: Describable> Describable for EachMatcher<InnerMatcherT> {
    open spec fn spec_describe(&self, matcher_result: MatcherResult) -> Seq<char> {
        match matcher_result {
            MatcherResult::Match => "only contains elements that "@ + self.inner.spec_describe(
                MatcherResult::Match,
            ),
            MatcherResult::NoMatch => "contains no element that "@ + self.inner.spec_describe(
                MatcherResult::Match,
            ),
        }
    }

    fn describe(&self, matcher_result: MatcherResult) -> (description: String) {
        let mut s = match matcher_result {
            MatcherResult::Match => String::from_str("only contains elements that "),
            MatcherResult::NoMatch => String::from_str("contains no element that "),
        };
        let d = self.inner.describe(MatcherResult::Match);
        s.append(d.as_str());
        s
    }
}

impl<C: Container, InnerMatcherT: Matcher<C::Item>> Matcher<C> for EachMatcher<InnerMatcherT> where
    C::Item: Debuggable,
 {
    open spec fn spec_matches(&self, actual: C) -> bool {
        every_item_matches(self.inner, actual.spec_items())
    }

    open spec fn spec_explain(&self, actual: C) -> Seq<char> {
        let items = actual.spec_items();
        let positions = mismatch_positions(self.inner, items);
        if positions.len() == 0 {
            "whose each element "@ + self.inner.spec_describe(MatcherResult::Match)
        } else if positions.len() == 1 {
            let p = positions[0] as int;
            "whose element #"@ + nat_decimal(p as nat) + " is "@ + items[p].spec_debug() + ", "@
                + self.inner.spec_explain(items[p])
        } else {
            "whose elements "@ + position_labels(positions) + " don't match"@
        }
    }

    fn matches(&self, actual: &C) -> (r: MatcherResult) {
        let ghost items = actual.spec_items();
        let len = actual.count();
        let mut i: usize = 0;
        while i < len
            invariant
                len == items.len(),
                items == actual.spec_items(),
                i <= len,
                forall|j: int| 0 <= j < i ==> self.inner.spec_matches(#[trigger] items[j]),
            decreases len - i,
        {
            if self.inner.matches(actual.item(i)).is_no_match() {
                return MatcherResult::NoMatch;
            }
            i += 1;
        }
        MatcherResult::Match
    }

    fn explain_match(&self, actual: &C) -> (explanation: String) {
        let ghost items = actual.spec_items();
        let len = actual.count();
        let mut positions: Vec<usize> = Vec::new();
        let mut labels: Vec<String> = Vec::new();
        let mut i: usize = 0;
        assert(items.take(0) =~= seq![]);
        while i < len
            invariant
                len == items.len(),
                items == actual.spec_items(),
                i <= len,
                positions@.len() == labels@.len(),
                positions@.map_values(|p: usize| p as nat) == mismatch_positions(
                    self.inner,
                    items.take(i as int),
                ),
                forall|k: int|
                    0 <= k < labels@.len() ==> #[trigger] labels@[k]@ == "#"@ + nat_decimal(
                        positions@[k] as nat,
                    ),
            decreases len - i,
        {
            assert(items.take(i + 1).drop_last() =~= items.take(i as int));
            assert(items.take(i + 1).last() == items[i as int]);
            if self.inner.matches(actual.item(i)).is_no_match() {
                let mut label = String::from_str("#");
                let d = decimal_usize(i);
                label.append(d.as_str());
                positions.push(i);
                labels.push(label);
            }
            i += 1;
        }
        assert(items.take(len as int) =~= items);
        let ghost ps = mismatch_positions(self.inner, items);
        proof {
            lemma_mismatch_positions(self.inner, items);
        }
        if positions.len() == 0 {
            let mut s = String::from_str("whose each element ");
            let d = self.inner.describe(MatcherResult::Match);
            s.append(d.as_str());
            s
        } else if positions.len() == 1 {
            let p = positions[0];
            assert(p as nat == ps[0]);
            let mut s = String::from_str("whose element #");
            let d = decimal_usize(p);
            s.append(d.as_str());
            s.append(" is ");
            let v = actual.item(p).debug();
            s.append(v.as_str());
            s.append(", ");
            let e = self.inner.explain_match(actual.item(p));
            s.append(e.as_str());
            s
        } else {
            let mut s = String::from_str("whose elements ");
            let joined = crate::text::join_texts(&labels, ", ");
            assert(crate::text::views(labels@) =~= ps.map_values(
                |p: nat| "#"@ + nat_decimal(p),
            )) by {
                assert forall|k: int| 0 <= k < labels@.len() implies crate::text::views(labels@)[k]
                    == ps.map_values(|p: nat| "#"@ + nat_decimal(p))[k] by {
                    assert(ps[k] == positions@.map_values(|p: usize| p as nat)[k]);
                }
            }
            s.append(joined.as_str());
            s.append(" don't match");
            s
        }
    }
}

/// The matcher `not(contains(not(inner)))`: no element fails `inner`.
pub open spec fn no_element_failing<InnerMatcherT>(inner: InnerMatcherT) -> NotMatcher<
    ContainsMatcher<NotMatcher<InnerMatcherT>, Anything>,
> {
    NotMatcher { inner: ContainsMatcher { inner: NotMatcher { inner }, count: None } }
}

/// `each(inner)` matches exactly the containers which
/// `not(contains(not(inner)))` matches: every element passes exactly when
/// no element fails.
pub proof fn lemma_each_is_no_element_failing<C: Container, InnerMatcherT: Matcher<C::Item>>(
    inner: InnerMatcherT,
    actual: C,
) where C::Item: Debuggable
    ensures
        (EachMatcher { inner }).spec_matches(actual) == no_element_failing(inner).spec_matches(actual),
{
    let items = actual.spec_items();
    let failing = NotMatcher { inner };
    if (EachMatcher { inner }).spec_matches(actual) {
        assert forall|i: int| 0 <= i < items.len() implies !failing.spec_matches(
            #[trigger] items[i],
        ) by {
            assert(inner.spec_matches(items[i]));
        }
    } else {
        let i = choose|i: int| 0 <= i < items.len() && !inner.spec_matches(#[trigger] items[i]);
        assert(failing.spec_matches(items[i]));
    }
}

/// The matcher `contains(inner).times(gt(0))`.
pub open spec fn contains_some<InnerMatcherT>(inner: InnerMatcherT) -> ContainsMatcher<
    InnerMatcherT,
    GtMatcher<usize>,
> {
    ContainsMatcher { inner, count: Some(GtMatcher { expected: 0usize }) }
}

/// `contains(inner)` matches exactly the containers which
/// `contains(inner).times(gt(0))` matches: some element matches exactly when
/// the number of matching elements is positive.
pub proof fn lemma_contains_is_positive_count<C: Container, InnerMatcherT: Matcher<C::Item>>(
    inner: InnerMatcherT,
    actual: C,
)
    requires
        actual.spec_items().len() <= usize::MAX,
    ensures
        (ContainsMatcher { inner, count: None::<Anything> }).spec_matches(actual)
            == contains_some(inner).spec_matches(actual),
{
    lemma_count_positive_iff_some(inner, actual.spec_items());
}

} // verus!
