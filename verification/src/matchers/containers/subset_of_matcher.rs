//! Matching containers all of whose items are in a given container.

use crate::collection::Container;
use crate::matcher::{result_of, Describable, Matcher, MatcherResult};
use crate::matchers::containers::each_matcher::{lemma_mismatch_positions, mismatch_positions};
use crate::text::{decimal_usize, join, join_texts, nat_decimal, views};
use crate::value::{Debuggable, EqualTo};
use vstd::prelude::*;

verus! {

/// Whether no item of `superset` is equal to `needle`.
pub open spec fn is_missing<E: EqualTo<T>, T>(superset: Seq<E>, needle: T) -> bool {
    !exists|j: int| 0 <= j < superset.len() && (#[trigger] superset[j]).spec_equal_to(needle)
}

/// Matches a container all of whose items are equal to some item of
/// `superset`. How often an item occurs, in either container, plays no role.
pub fn subset_of<ExpectedT>(superset: ExpectedT) -> (m: SubsetOfMatcher<ExpectedT>)
    ensures
        m.superset == superset,
{
    SubsetOfMatcher { superset }
}

/// A matcher of containers whose items all occur in an expected container.
pub struct SubsetOfMatcher<ExpectedT> {
    pub superset: ExpectedT,
}

/// The matcher of the values equal to some item of a container; it is how a
/// [`SubsetOfMatcher`] checks each actual item.
pub struct ElementOf<'a, ExpectedT> {
    pub superset: &'a ExpectedT,
}

impl<'a, ExpectedT: Debuggable> Describable for ElementOf<'a, ExpectedT> {
    open spec fn spec_describe(&self, matcher_result: MatcherResult) -> Seq<char> {
        match matcher_result {
            MatcherResult::Match => "is an element of "@ + self.superset.spec_pretty(),
            MatcherResult::NoMatch => "isn't an element of "@ + self.superset.spec_pretty(),
        }
    }

    fn describe(&self, matcher_result: MatcherResult) -> (description: String) {
        let mut s = match matcher_result {
            MatcherResult::Match => String::from_str("is an element of "),
            MatcherResult::NoMatch => String::from_str("isn't an element of "),
        };
        let p = self.superset.pretty();
        s.append(p.as_str());
        s
    }
}

impl<'a, T, ExpectedT: Container + Debuggable> Matcher<T> for ElementOf<'a, ExpectedT> where
    ExpectedT::Item: EqualTo<T>,
 {
    open spec fn spec_matches(&self, actual: T) -> bool {
        !is_missing(self.superset.spec_items(), actual)
    }

    open spec fn spec_explain(&self, actual: T) -> Seq<char> {
        "which "@ + self.spec_describe(result_of(self.spec_matches(actual)))
    }

    fn matches(&self, actual: &T) -> (r: MatcherResult) {
        MatcherResult::from_bool(!expected_is_missing(self.superset, actual))
    }

    fn explain_match(&self, actual: &T) -> (explanation: String) {
        let mut s = String::from_str("which ");
        let d = self.describe(self.matches(actual));
        s.append(d.as_str());
        s
    }
}

/// Whether no item of `superset` is equal to `needle`.
pub fn expected_is_missing<T, ExpectedT: Container>(superset: &ExpectedT, needle: &T) -> (r: bool)
    where
        ExpectedT::Item: EqualTo<T>,
    ensures
        r == is_missing(superset.spec_items(), *needle),
{
    let ghost items = superset.spec_items();
    let n = superset.count();
    let mut j: usize = 0;
    while j < n
        invariant
            n == items.len(),
            items == superset.spec_items(),
            j <= n,
            forall|k: int| 0 <= k < j ==> !(#[trigger] items[k]).spec_equal_to(*needle),
        decreases n - j,
    {
        if superset.item(j).equal_to(needle) {
            assert(items[j as int].spec_equal_to(*needle));
            return false;
        }
        j += 1;
    }
    true
}

/// The label `"{item:#?} at #{position}"` of an unexpected item.
pub open spec fn unexpected_label<T: Debuggable>(items: Seq<T>, position: nat) -> Seq<char> {
    items[position as int].spec_pretty() + " at #"@ + nat_decimal(position)
}

impl<ExpectedT: Debuggable> Describable for SubsetOfMatcher<ExpectedT> {
    open spec fn spec_describe(&self, matcher_result: MatcherResult) -> Seq<char> {
        match matcher_result {
            MatcherResult::Match => "is a subset of "@ + self.superset.spec_pretty(),
            MatcherResult::NoMatch => "isn't a subset of "@ + self.superset.spec_pretty(),
        }
    }

    fn describe(&self, matcher_result: MatcherResult) -> (description: String) {
        let mut s = match matcher_result {
            MatcherResult::Match => String::from_str("is a subset of "),
            MatcherResult::NoMatch => String::from_str("isn't a subset of "),
        };
        let p = self.superset.pretty();
        s.append(p.as_str());
        s
    }
}

impl<A: Container, ExpectedT: Container + Debuggable> Matcher<A> for SubsetOfMatcher<ExpectedT> where
    ExpectedT::Item: EqualTo<A::Item>,
    A::Item: Debuggable,
 {
    open spec fn spec_matches(&self, actual: A) -> bool {
        forall|i: int|
            0 <= i < actual.spec_items().len() ==> !is_missing(
                self.superset.spec_items(),
                #[trigger] actual.spec_items()[i],
            )
    }

    open spec fn spec_explain(&self, actual: A) -> Seq<char> {
        let items = actual.spec_items();
        let positions = mismatch_positions(ElementOf { superset: &self.superset }, items);
        let labels = positions.map_values(|p: nat| unexpected_label(items, p));
        if positions.len() == 0 {
            "which no element is unexpected"@
        } else if positions.len() == 1 {
            "whose element "@ + labels[0] + " is unexpected"@
        } else {
            "whose elements "@ + join(labels, ", "@) + " are unexpected"@
        }
    }

    fn matches(&self, actual: &A) -> (r: MatcherResult) {
        let ghost items = actual.spec_items();
        let len = actual.count();
        let mut i: usize = 0;
        while i < len
            invariant
                len == items.len(),
                items == actual.spec_items(),
                i <= len,
                forall|j: int| 0 <= j < i ==> !is_missing(self.superset.spec_items(), #[trigger] items[j]),
            decreases len - i,
        {
            if expected_is_missing(&self.superset, actual.item(i)) {
                return MatcherResult::NoMatch;
            }
            i += 1;
        }
        MatcherResult::Match
    }

    fn explain_match(&self, actual: &A) -> (explanation: String) {
        let ghost items = actual.spec_items();
        let ghost member = ElementOf { superset: &self.superset };
        let len = actual.count();
        let mut positions: Vec<usize> = Vec::new();
        let mut labels: Vec<String> = Vec::new();
        let mut i: usize = 0;
        assert(items.take(0) =~= seq![]);
        while i < len
            invariant
                len == items.len(),
                items == actual.spec_items(),
                member == (ElementOf { superset: &self.superset }),
                i <= len,
                positions@.len() == labels@.len(),
                positions@.map_values(|p: usize| p as nat) == mismatch_positions(
                    member,
                    items.take(i as int),
                ),
                forall|k: int|
                    0 <= k < labels@.len() ==> #[trigger] labels@[k]@ == unexpected_label(
                        items,
                        positions@[k] as nat,
                    ),
            decreases len - i,
        {
            assert(items.take(i + 1).drop_last() =~= items.take(i as int));
            assert(items.take(i + 1).last() == items[i as int]);
            let item = actual.item(i);
            if expected_is_missing(&self.superset, item) {
                let mut label = item.pretty();
                label.append(" at #");
                let d = decimal_usize(i);
                label.append(d.as_str());
                positions.push(i);
                labels.push(label);
            }
            i += 1;
        }
        assert(items.take(len as int) =~= items);
        let ghost ps = mismatch_positions(member, items);
        let ghost want = ps.map_values(|p: nat| unexpected_label(items, p));
        assert(views(labels@) =~= want) by {
            assert forall|k: int| 0 <= k < labels@.len() implies views(labels@)[k] == want[k] by {
                assert(ps[k] == positions@.map_values(|p: usize| p as nat)[k]);
            }
        }
        if labels.len() == 0 {
            String::from_str("which no element is unexpected")
        } else if labels.len() == 1 {
            let mut s = String::from_str("whose element ");
            s.append(labels[0].as_str());
            s.append(" is unexpected");
            s
        } else {
            let mut s = String::from_str("whose elements ");
            let joined = join_texts(&labels, ", ");
            s.append(joined.as_str());
            s.append(" are unexpected");
            s
        }
    }
}

/// An item is missing from a container exactly when it is missing from any
/// container with the same distinct items.
pub proof fn lemma_missing_by_set<E: EqualTo<T>, T>(superset1: Seq<E>, superset2: Seq<E>, needle: T)
    requires
        superset1.to_set() == superset2.to_set(),
    ensures
        is_missing(superset1, needle) == is_missing(superset2, needle),
{
    if !is_missing(superset1, needle) {
        let j = choose|j: int|
            0 <= j < superset1.len() && (#[trigger] superset1[j]).spec_equal_to(needle);
        assert(superset1.to_set().contains(superset1[j]));
        assert(superset2.contains(superset1[j]));
        let k = choose|k: int| 0 <= k < superset2.len() && superset2[k] == superset1[j];
        assert(superset2[k].spec_equal_to(needle));
    }
    if !is_missing(superset2, needle) {
        let j = choose|j: int|
            0 <= j < superset2.len() && (#[trigger] superset2[j]).spec_equal_to(needle);
        assert(superset2.to_set().contains(superset2[j]));
        assert(superset1.contains(superset2[j]));
        let k = choose|k: int| 0 <= k < superset1.len() && superset1[k] == superset2[j];
        assert(superset1[k].spec_equal_to(needle));
    }
}

/// Whether no item of `items` is missing from `superset`.
pub open spec fn all_present<E: EqualTo<T>, T>(superset: Seq<E>, items: Seq<T>) -> bool {
    forall|i: int| 0 <= i < items.len() ==> !is_missing(superset, #[trigger] items[i])
}

/// Whether all items are present depends only on the distinct items of the
/// two containers, one way.
proof fn lemma_present_by_set<E: EqualTo<T>, T>(
    superset1: Seq<E>,
    superset2: Seq<E>,
    items1: Seq<T>,
    items2: Seq<T>,
)
    requires
        superset1.to_set() == superset2.to_set(),
        items1.to_set() == items2.to_set(),
        all_present(superset1, items1),
    ensures
        all_present(superset2, items2),
{
    assert forall|i: int| 0 <= i < items2.len() implies !is_missing(
        superset2,
        #[trigger] items2[i],
    ) by {
        assert(items2.to_set().contains(items2[i]));
        assert(items1.contains(items2[i]));
        let k = choose|k: int| 0 <= k < items1.len() && items1[k] == items2[i];
        assert(!is_missing(superset1, items1[k]));
        lemma_missing_by_set(superset1, superset2, items2[i]);
    }
}

/// `subset_of` ignores how often items occur, in the actual container and
/// in the superset alike: containers with the same distinct items are
/// matched alike, against supersets with the same distinct items.
pub proof fn lemma_subset_of_ignores_multiplicity<
    A: Container,
    ExpectedT: Container + Debuggable,
>(superset1: ExpectedT, superset2: ExpectedT, actual1: A, actual2: A) where
    ExpectedT::Item: EqualTo<A::Item>,
    A::Item: Debuggable,
    requires
        superset1.spec_items().to_set() == superset2.spec_items().to_set(),
        actual1.spec_items().to_set() == actual2.spec_items().to_set(),
    ensures
        (SubsetOfMatcher { superset: superset1 }).spec_matches(actual1) == (SubsetOfMatcher {
            superset: superset2,
        }).spec_matches(actual2),
{
    let s1 = superset1.spec_items();
    let s2 = superset2.spec_items();
    let a1 = actual1.spec_items();
    let a2 = actual2.spec_items();
    if all_present(s1, a1) {
        lemma_present_by_set(s1, s2, a1, a2);
    }
    if all_present(s2, a2) {
        lemma_present_by_set(s2, s1, a2, a1);
    }
}

} // verus!
