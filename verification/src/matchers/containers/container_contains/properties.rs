//! How the three requirements relate, in order and in any order.

use crate::matchers::all_matcher::Components;
use crate::matchers::containers::container_contains::ordered_matcher::{
    embeds, flipped, greedy_stop, is_embedding_from, item_rel, lemma_greedy_decides,
    ordered_explanation, ordered_holds, positional_mismatches,
};
use crate::matchers::containers::container_contains::unordered_matcher::{
    assignable, assignable_from, is_assignment_from, none_used, unordered_holds,
};
use crate::matchers::containers::container_contains::ordered_matcher::{
    lemma_greedy_longest_prefix, ContainerContainsOrderedMatcher,
};
use crate::matchers::containers::container_contains::Requirements;
use crate::collection::Container;
use crate::matcher::Matcher;
use crate::text::nat_decimal;
use core::marker::PhantomData;
use crate::value::Debuggable;
use vstd::prelude::*;
use vstd::set_lib::{lemma_int_range, lemma_len_subset, lemma_subset_equality, set_int_range};

verus! {

/// Whether the values of `f` are pairwise distinct.
pub open spec fn injective(f: Seq<int>) -> bool {
    forall|t1: int, t2: int|
        0 <= t1 < f.len() && 0 <= t2 < f.len() && t1 != t2 ==> #[trigger] f[t1] != #[trigger] f[t2]
}

/// Whether `f` takes the value `i` at some position.
pub open spec fn takes_value(f: Seq<int>, i: int) -> bool {
    exists|t: int| 0 <= t < f.len() && f[t] == i
}

/// A sequence of distinct values below `q` is at most `q` long, and when it
/// is exactly `q` long it takes every value below `q`.
pub proof fn lemma_injection_bound(f: Seq<int>, q: int)
    requires
        0 <= q,
        injective(f),
        forall|t: int| 0 <= t < f.len() ==> 0 <= #[trigger] f[t] < q,
    ensures
        f.len() <= q,
        f.len() == q ==> forall|i: int| 0 <= i < q ==> #[trigger] takes_value(f, i),
{
    assert(f.no_duplicates());
    f.unique_seq_to_set();
    let range = set_int_range(0, q);
    lemma_int_range(0, q);
    assert(f.to_set().subset_of(range));
    lemma_len_subset(f.to_set(), range);
    if f.len() == q {
        lemma_subset_equality(f.to_set(), range);
        assert forall|i: int| 0 <= i < q implies #[trigger] takes_value(f, i) by {
            assert(range.contains(i));
            assert(f.to_set().contains(i));
        }
    }
}

/// A strictly increasing sequence is injective.
pub proof fn lemma_increasing_injective(f: Seq<int>)
    requires
        forall|t1: int, t2: int| 0 <= t1 < t2 < f.len() ==> #[trigger] f[t1] < #[trigger] f[t2],
    ensures
        injective(f),
{
    assert forall|t1: int, t2: int|
        0 <= t1 < f.len() && 0 <= t2 < f.len() && t1 != t2 implies #[trigger] f[t1] != #[trigger] f[t2] by {
        if t1 < t2 {
            assert(f[t1] < f[t2]);
        } else {
            assert(f[t2] < f[t1]);
        }
    }
}

/// A strictly increasing sequence of natural numbers has at position `t` a
/// value of at least `t`.
pub proof fn lemma_increasing_floor(f: Seq<int>, t: int)
    requires
        0 <= t < f.len(),
        forall|s: int| 0 <= s < f.len() ==> 0 <= #[trigger] f[s],
        forall|t1: int, t2: int| 0 <= t1 < t2 < f.len() ==> #[trigger] f[t1] < #[trigger] f[t2],
    ensures
        t <= f[t],
    decreases t,
{
    if t > 0 {
        lemma_increasing_floor(f, t - 1);
        assert(f[t - 1] < f[t]);
    } else {
        assert(0 <= f[0]);
    }
}

/// A strictly increasing sequence of values below `q` has at position `t`
/// a value of at most `q - f.len() + t`.
pub proof fn lemma_increasing_ceiling(f: Seq<int>, q: int, t: int)
    requires
        0 <= t < f.len(),
        forall|s: int| 0 <= s < f.len() ==> #[trigger] f[s] < q,
        forall|t1: int, t2: int| 0 <= t1 < t2 < f.len() ==> #[trigger] f[t1] < #[trigger] f[t2],
    ensures
        f[t] <= q - f.len() + t,
    decreases f.len() - t,
{
    if t < f.len() - 1 {
        lemma_increasing_ceiling(f, q, t + 1);
        assert(f[t] < f[t + 1]);
    } else {
        assert(f[t] < q);
    }
}

/// In order, a one-to-one correspondence holds exactly when each matcher
/// has an item of its own and each item a matcher of its own:
/// `contains_exactly(..).in_order()` matches exactly the containers which
/// both `contains_each(..).in_order()` and `is_contained_in(..).in_order()`
/// match.
pub proof fn lemma_ordered_perfect_iff_superset_and_subset<T, E: Components<T>>(
    elements: E,
    items: Seq<T>,
)
    ensures
        ordered_holds(Requirements::PerfectMatch, elements, items) <==> (ordered_holds(
            Requirements::Superset,
            elements,
            items,
        ) && ordered_holds(Requirements::Subset, elements, items)),
{
    let n = items.len() as int;
    let m = elements.spec_count() as int;
    let rel = item_rel(elements, items);
    if ordered_holds(Requirements::PerfectMatch, elements, items) {
        let f = Seq::new(m as nat, |t: int| t);
        assert forall|t: int| 0 <= t < f.len() implies 0 <= #[trigger] f[t] < n && rel(0 + t, f[t]) by {
            assert(elements.spec_matches_at(t, items[t]));
        }
        assert(is_embedding_from(rel, m, n, 0, 0, f));
        assert(embeds(rel, m, n));
        let g = Seq::new(n as nat, |t: int| t);
        assert forall|t: int| 0 <= t < g.len() implies 0 <= #[trigger] g[t] < m && flipped(rel)(
            0 + t,
            g[t],
        ) by {
            assert(elements.spec_matches_at(t, items[t]));
        }
        assert(is_embedding_from(flipped(rel), n, m, 0, 0, g));
        assert(embeds(flipped(rel), n, m));
    }
    if ordered_holds(Requirements::Superset, elements, items) && ordered_holds(
        Requirements::Subset,
        elements,
        items,
    ) {
        let f = choose|f: Seq<int>| is_embedding_from(rel, m, n, 0, 0, f);
        let g = choose|g: Seq<int>| is_embedding_from(flipped(rel), n, m, 0, 0, g);
        lemma_increasing_injective(f);
        lemma_increasing_injective(g);
        assert forall|t: int| 0 <= t < f.len() implies 0 <= #[trigger] f[t] < n by {}
        assert forall|t: int| 0 <= t < g.len() implies 0 <= #[trigger] g[t] < m by {}
        lemma_injection_bound(f, n);
        lemma_injection_bound(g, m);
        assert forall|k: int| 0 <= k < n implies #[trigger] elements.spec_matches_at(k, items[k]) by {
            lemma_increasing_floor(f, k);
            lemma_increasing_ceiling(f, n, k);
            assert(rel(k, f[k]));
        }
    }
}

/// In any order, a one-to-one correspondence holds exactly when each matcher
/// has an item of its own and each item a matcher of its own:
/// `contains_exactly(..)` matches exactly the containers which both
/// `contains_each(..)` and `is_contained_in(..)` match.
pub proof fn lemma_unordered_perfect_iff_superset_and_subset<T, E: Components<T>>(
    elements: E,
    items: Seq<T>,
)
    ensures
        unordered_holds(Requirements::PerfectMatch, elements, items) <==> (unordered_holds(
            Requirements::Superset,
            elements,
            items,
        ) && unordered_holds(Requirements::Subset, elements, items)),
{
    let n = items.len() as int;
    let m = elements.spec_count() as int;
    let rel = item_rel(elements, items);
    if unordered_holds(Requirements::PerfectMatch, elements, items) {
        let used = none_used(n);
        let f = choose|f: Seq<int>| is_assignment_from(rel, m, n, 0, used, f);
        assert(injective(f));
        lemma_injection_bound(f, n);
        let g = Seq::new(
            n as nat,
            |i: int| choose|t: int| 0 <= t < f.len() && f[t] == i,
        );
        assert forall|i: int| 0 <= i < g.len() implies 0 <= #[trigger] g[i] < m && f[g[i]] == i by {
            assert(takes_value(f, i));
        }
        let unused = none_used(m);
        assert forall|i: int| 0 <= i < g.len() implies 0 <= #[trigger] g[i] < m && !unused[g[i]]
            && flipped(rel)(0 + i, g[i]) by {
            assert(f[g[i]] == i);
            assert(rel(0 + g[i], f[g[i]]));
        }
        assert forall|i1: int, i2: int|
            0 <= i1 < g.len() && 0 <= i2 < g.len() && i1 != i2 implies #[trigger] g[i1]
            != #[trigger] g[i2] by {
            assert(f[g[i1]] == i1);
            assert(f[g[i2]] == i2);
        }
        assert(is_assignment_from(flipped(rel), n, m, 0, unused, g));
        assert(assignable(flipped(rel), n, m));
    }
    if unordered_holds(Requirements::Superset, elements, items) && unordered_holds(
        Requirements::Subset,
        elements,
        items,
    ) {
        let f = choose|f: Seq<int>| is_assignment_from(rel, m, n, 0, none_used(n), f);
        let g = choose|g: Seq<int>| is_assignment_from(flipped(rel), n, m, 0, none_used(m), g);
        assert(injective(f));
        assert(injective(g));
        lemma_injection_bound(f, n);
        lemma_injection_bound(g, m);
    }
}

/// A correspondence in order is one in any order: whatever
/// `contains_exactly`, `contains_each` or `is_contained_in` matches with
/// `.in_order()`, it also matches without.
pub proof fn lemma_ordered_implies_unordered<T, E: Components<T>>(
    requirements: Requirements,
    elements: E,
    items: Seq<T>,
)
    ensures
        ordered_holds(requirements, elements, items) ==> unordered_holds(
            requirements,
            elements,
            items,
        ),
{
    let n = items.len() as int;
    let m = elements.spec_count() as int;
    let rel = item_rel(elements, items);
    if ordered_holds(requirements, elements, items) {
        match requirements {
            Requirements::PerfectMatch => {
                lemma_ordered_perfect_iff_superset_and_subset(elements, items);
                let f = choose|f: Seq<int>| is_embedding_from(rel, m, n, 0, 0, f);
                lemma_increasing_injective(f);
                assert(is_assignment_from(rel, m, n, 0, none_used(n), f));
            },
            Requirements::Superset => {
                let f = choose|f: Seq<int>| is_embedding_from(rel, m, n, 0, 0, f);
                lemma_increasing_injective(f);
                assert(is_assignment_from(rel, m, n, 0, none_used(n), f));
            },
            Requirements::Subset => {
                let g = choose|g: Seq<int>| is_embedding_from(flipped(rel), n, m, 0, 0, g);
                lemma_increasing_injective(g);
                assert(is_assignment_from(flipped(rel), n, m, 0, none_used(m), g));
            },
        }
    }
}

/// There is no positional mismatch below `upto` exactly when each matcher
/// below `upto` matches the item at its own position.
pub proof fn lemma_no_positional_mismatch<T: Debuggable, E: Components<T>>(
    elements: E,
    items: Seq<T>,
    upto: nat,
)
    ensures
        (positional_mismatches(elements, items, upto).len() == 0) <==> forall|k: int|
            0 <= k < upto ==> #[trigger] elements.spec_matches_at(k, items[k]),
    decreases upto,
{
    if upto > 0 {
        let k = upto - 1;
        lemma_no_positional_mismatch(elements, items, k as nat);
        if forall|j: int| 0 <= j < upto ==> #[trigger] elements.spec_matches_at(j, items[j]) {
            assert(elements.spec_matches_at(k, items[k]));
        }
    }
}

/// The explanation which an in-order matcher gives of a container it
/// matches, under each requirement.
pub open spec fn agreement_text(requirements: Requirements) -> Seq<char> {
    match requirements {
        Requirements::PerfectMatch => "whose elements all match"@,
        Requirements::Superset => "where all elements are present"@,
        Requirements::Subset => "where all elements are matched"@,
    }
}

/// Explanation and outcome agree: an in-order matcher explains a container
/// with the text of [`agreement_text`] exactly when it matches the
/// container.
pub proof fn lemma_ordered_explanation_agrees<T: Debuggable, E: Components<T>>(
    requirements: Requirements,
    elements: E,
    items: Seq<T>,
)
    ensures
        (ordered_explanation(requirements, elements, items) == agreement_text(requirements))
            <==> ordered_holds(requirements, elements, items),
{
    let n = items.len() as int;
    let m = elements.spec_count() as int;
    let explanation = ordered_explanation(requirements, elements, items);
    let ok = agreement_text(requirements);
    reveal_strlit("whose elements all match");
    reveal_strlit("where all elements are present");
    reveal_strlit("where all elements are matched");
    reveal_strlit("whose size is ");
    reveal_strlit("where ");
    reveal_strlit("where:\n");
    reveal_strlit("where matcher #");
    reveal_strlit("where element #");
    match requirements {
        Requirements::PerfectMatch => {
            let shared = if n < m {
                n
            } else {
                m
            };
            let ms = positional_mismatches(elements, items, shared as nat);
            lemma_no_positional_mismatch(elements, items, shared as nat);
            if ms.len() == 0 && n != m {
                assert(explanation[6] != ok[6]);
            } else if ms.len() == 1 {
                assert(explanation[2] != ok[2]);
            } else if ms.len() > 1 {
                assert(explanation[2] != ok[2]);
            }
            if ordered_holds(requirements, elements, items) {
                assert forall|k: int| 0 <= k < shared implies #[trigger] elements.spec_matches_at(
                    k,
                    items[k],
                ) by {
                    assert(elements.spec_matches_at(k, items[k]));
                }
            }
        },
        Requirements::Superset => {
            let rel = item_rel(elements, items);
            lemma_greedy_decides(rel, m, n, 0, 0);
            if greedy_stop(rel, m, n, 0, 0) < m {
                assert(explanation[6] != ok[6]);
            }
        },
        Requirements::Subset => {
            let rel = flipped(item_rel(elements, items));
            lemma_greedy_decides(rel, n, m, 0, 0);
            if greedy_stop(rel, n, m, 0, 0) < n {
                assert(explanation[6] != ok[6]);
            }
        },
    }
}

/// The matcher of containers whose items correspond in order to `elements`
/// as `requirements` demand.
pub open spec fn in_order<T, E>(elements: E, requirements: Requirements) -> ContainerContainsOrderedMatcher<
    T,
    E,
> {
    ContainerContainsOrderedMatcher { elements, requirements, phantom: PhantomData }
}

/// Whether `f` is strictly increasing with values in `0..q`.
pub open spec fn increasing_into(f: Seq<int>, q: int) -> bool {
    &&& forall|t: int| 0 <= t < f.len() ==> 0 <= #[trigger] f[t] < q
    &&& forall|t1: int, t2: int| 0 <= t1 < t2 < f.len() ==> #[trigger] f[t1] < #[trigger] f[t2]
}

/// Whether `f` places the matchers of `elements`, in order, on items of
/// `items` which they match.
pub open spec fn places_matchers<T, E: Components<T>>(elements: E, items: Seq<T>, f: Seq<int>) -> bool {
    &&& f.len() == elements.spec_count()
    &&& increasing_into(f, items.len() as int)
    &&& forall|i: int| 0 <= i < f.len() ==> #[trigger] elements.spec_matches_at(i, items[f[i]])
}

/// Whether `g` places the items of `items`, in order, on matchers of
/// `elements` which match them.
pub open spec fn places_items<T, E: Components<T>>(elements: E, items: Seq<T>, g: Seq<int>) -> bool {
    &&& g.len() == items.len()
    &&& increasing_into(g, elements.spec_count() as int)
    &&& forall|j: int| 0 <= j < g.len() ==> #[trigger] elements.spec_matches_at(g[j], items[j])
}

/// What the in-order matchers match, spelled out:
/// - `contains_exactly(..).in_order()`: as many items as matchers, each
///   matcher matching the item at its own position;
/// - `contains_each(..).in_order()`: the matchers can be placed, in order,
///   on items which they match (strictly increasing positions);
/// - `is_contained_in(..).in_order()`: the items can be placed, in order,
///   on matchers which match them.
pub proof fn lemma_in_order_matching<T: Debuggable, E: Components<T>, C: Container<Item = T>>(
    elements: E,
    actual: C,
)
    ensures
        in_order::<T, E>(elements, Requirements::PerfectMatch).spec_matches(actual) <==> (
        actual.spec_items().len() == elements.spec_count() && forall|i: int|
            0 <= i < actual.spec_items().len() ==> #[trigger] elements.spec_matches_at(
                i,
                actual.spec_items()[i],
            )),
        in_order::<T, E>(elements, Requirements::Superset).spec_matches(actual) <==> exists|
            f: Seq<int>,
        | places_matchers(elements, actual.spec_items(), f),
        in_order::<T, E>(elements, Requirements::Subset).spec_matches(actual) <==> exists|g: Seq<int>|
            places_items(elements, actual.spec_items(), g),
{
    let items = actual.spec_items();
    let n = items.len() as int;
    let m = elements.spec_count() as int;
    let rel = item_rel(elements, items);
    if embeds(rel, m, n) {
        let f = choose|f: Seq<int>| is_embedding_from(rel, m, n, 0, 0, f);
        assert forall|i: int| 0 <= i < f.len() implies #[trigger] elements.spec_matches_at(
            i,
            items[f[i]],
        ) by {
            assert(rel(0 + i, f[i]));
        }
        assert(places_matchers(elements, items, f));
    }
    if exists|f: Seq<int>| places_matchers(elements, items, f) {
        let f = choose|f: Seq<int>| places_matchers(elements, items, f);
        assert forall|t: int| 0 <= t < f.len() implies 0 <= #[trigger] f[t] < n && rel(0 + t, f[t]) by {
            assert(elements.spec_matches_at(t, items[f[t]]));
        }
        assert(is_embedding_from(rel, m, n, 0, 0, f));
    }
    let frel = flipped(rel);
    if embeds(frel, n, m) {
        let g = choose|g: Seq<int>| is_embedding_from(frel, n, m, 0, 0, g);
        assert forall|j: int| 0 <= j < g.len() implies #[trigger] elements.spec_matches_at(
            g[j],
            items[j],
        ) by {
            assert(frel(0 + j, g[j]));
        }
        assert(places_items(elements, items, g));
    }
    if exists|g: Seq<int>| places_items(elements, items, g) {
        let g = choose|g: Seq<int>| places_items(elements, items, g);
        assert forall|t: int| 0 <= t < g.len() implies 0 <= #[trigger] g[t] < m && frel(0 + t, g[t]) by {
            assert(elements.spec_matches_at(g[t], items[t]));
        }
        assert(is_embedding_from(frel, n, m, 0, 0, g));
    }
}

/// The explanation of an in-order matcher agrees with its outcome: it is
/// the text of [`agreement_text`] exactly when the matcher matches.
pub proof fn lemma_in_order_explanation_agrees<
    T: Debuggable,
    E: Components<T>,
    C: Container<Item = T>,
>(requirements: Requirements, elements: E, actual: C)
    ensures
        (in_order::<T, E>(elements, requirements).spec_explain(actual) == agreement_text(requirements))
            <==> in_order::<T, E>(elements, requirements).spec_matches(actual),
{
    lemma_ordered_explanation_agrees(requirements, elements, actual.spec_items());
}

/// `contains_each(..).in_order()` names, in its explanation, the first
/// matcher left over by the longest prefix of matchers which can be placed
/// in order: the prefix of `k` matchers can be placed, no longer prefix
/// can, and the explanation reports all present when `k` covers every
/// matcher and names matcher `#k` otherwise.
pub proof fn lemma_superset_explanation_names_longest_prefix<
    T: Debuggable,
    E: Components<T>,
    C: Container<Item = T>,
>(elements: E, actual: C)
    ensures
        ({
            let items = actual.spec_items();
            let m = elements.spec_count() as int;
            let n = items.len() as int;
            let rel = item_rel(elements, items);
            let k = greedy_stop(rel, m, n, 0, 0);
            &&& 0 <= k <= m
            &&& embeds(rel, k, n)
            &&& forall|j: int| k < j <= m ==> !#[trigger] embeds(rel, j, n)
            &&& in_order::<T, E>(elements, Requirements::Superset).spec_explain(actual) == if k == m {
                "where all elements are present"@
            } else {
                "where matcher #"@ + nat_decimal(k as nat) + " does not match any following elements"@
            }
        }),
{
    let items = actual.spec_items();
    let m = elements.spec_count() as int;
    let n = items.len() as int;
    let rel = item_rel(elements, items);
    lemma_greedy_decides(rel, m, n, 0, 0);
    lemma_greedy_longest_prefix(rel, m, n);
    let k = greedy_stop(rel, m, n, 0, 0);
    assert(embeds(rel, k, n));
}

/// `is_contained_in(..).in_order()` names, in its explanation, the first
/// item left over by the longest prefix of items which can be placed in
/// order on matchers: the prefix of `k` items can be placed, no longer
/// prefix can, and the explanation reports all matched when `k` covers
/// every item and names element `#k` otherwise.
pub proof fn lemma_subset_explanation_names_longest_prefix<
    T: Debuggable,
    E: Components<T>,
    C: Container<Item = T>,
>(elements: E, actual: C)
    ensures
        ({
            let items = actual.spec_items();
            let m = elements.spec_count() as int;
            let n = items.len() as int;
            let rel = flipped(item_rel(elements, items));
            let k = greedy_stop(rel, n, m, 0, 0);
            &&& 0 <= k <= n
            &&& embeds(rel, k, m)
            &&& forall|j: int| k < j <= n ==> !#[trigger] embeds(rel, j, m)
            &&& in_order::<T, E>(elements, Requirements::Subset).spec_explain(actual) == if k == n {
                "where all elements are matched"@
            } else {
                "where element #"@ + nat_decimal(k as nat) + " is not matched by any following matcher"@
            }
        }),
{
    let items = actual.spec_items();
    let m = elements.spec_count() as int;
    let n = items.len() as int;
    let rel = flipped(item_rel(elements, items));
    lemma_greedy_decides(rel, n, m, 0, 0);
    lemma_greedy_longest_prefix(rel, n, m);
    let k = greedy_stop(rel, n, m, 0, 0);
    assert(embeds(rel, k, m));
}

} // verus!
