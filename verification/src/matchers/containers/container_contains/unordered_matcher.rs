//! Matching containers whose items correspond, in any order, to a list of
//! matchers.

use crate::collection::Container;
use crate::matcher::{is_match_spec, result_of, Describable, Matcher, MatcherResult};
use crate::matchers::all_matcher::{descriptions, descriptions_of, results_of, Components};
use crate::matchers::containers::container_contains::ordered_matcher::{
    flipped, item_rel, match_table, table_shape, ContainerContainsOrderedMatcher,
};
use crate::matchers::containers::container_contains::{
    size_mismatch, size_mismatch_text, Requirements,
};
use crate::matchers::containers::each_matcher::position_labels;
use crate::text::{decimal_usize, indent, indent_text, join, join_texts, nat_decimal, numbered_list,
    render_numbered_list, spaces, views};
use crate::value::Debuggable;
use core::marker::PhantomData;
use vstd::prelude::*;

verus! {

/// Whether `f` assigns to the pattern positions `k..p` distinct text
/// positions below `q`, none of them marked in `used`, such that `rel` holds
/// between each pattern position and its text position.
pub open spec fn is_assignment_from(
    rel: spec_fn(int, int) -> bool,
    p: int,
    q: int,
    k: int,
    used: Seq<bool>,
    f: Seq<int>,
) -> bool {
    &&& f.len() == p - k
    &&& forall|t: int|
        0 <= t < f.len() ==> 0 <= #[trigger] f[t] < q && !used[f[t]] && rel(k + t, f[t])
    &&& forall|t1: int, t2: int| 0 <= t1 < f.len() && 0 <= t2 < f.len() && t1 != t2 ==> #[trigger] f[t1] != #[trigger] f[t2]
}

/// Whether the pattern positions `k..p` can be assigned distinct unused text
/// positions along `rel`.
pub open spec fn assignable_from(
    rel: spec_fn(int, int) -> bool,
    p: int,
    q: int,
    k: int,
    used: Seq<bool>,
) -> bool {
    exists|f: Seq<int>| is_assignment_from(rel, p, q, k, used, f)
}

/// No text position marked.
pub open spec fn none_used(q: int) -> Seq<bool> {
    Seq::new(q as nat, |_i: int| false)
}

/// Whether the `p` pattern positions can be assigned distinct positions
/// among the `q` text positions such that `rel` holds between each pattern
/// position and its text position: an injective map along `rel`.
pub open spec fn assignable(rel: spec_fn(int, int) -> bool, p: int, q: int) -> bool {
    assignable_from(rel, p, q, 0, none_used(q))
}

/// Nothing is left to assign.
pub proof fn lemma_assignable_done(
    rel: spec_fn(int, int) -> bool,
    p: int,
    q: int,
    k: int,
    used: Seq<bool>,
)
    requires
        k == p,
    ensures
        assignable_from(rel, p, q, k, used),
{
    assert(is_assignment_from(rel, p, q, k, used, Seq::<int>::empty()));
}

/// The next pattern position can be assigned exactly when some unused text
/// position relates to it and the rest can be assigned once that position
/// is used.
pub proof fn lemma_assignable_step(
    rel: spec_fn(int, int) -> bool,
    p: int,
    q: int,
    k: int,
    used: Seq<bool>,
)
    requires
        k < p,
        used.len() == q,
    ensures
        assignable_from(rel, p, q, k, used) == exists|x: int|
            0 <= x < q && !used[x] && rel(k, x) && #[trigger] assignable_from(
                rel,
                p,
                q,
                k + 1,
                used.update(x, true),
            ),
{
    let k1 = k + 1;
    if assignable_from(rel, p, q, k, used) {
        let f = choose|f: Seq<int>| is_assignment_from(rel, p, q, k, used, f);
        let x = f[0];
        let g = f.drop_first();
        let used1 = used.update(x, true);
        assert forall|t: int| 0 <= t < g.len() implies 0 <= #[trigger] g[t] < q && !used1[g[t]] && rel(
            k1 + t,
            g[t],
        ) by {
            assert(g[t] == f[t + 1]);
            assert(f[0] != f[t + 1]);
        }
        assert forall|t1: int, t2: int|
            0 <= t1 < g.len() && 0 <= t2 < g.len() && t1 != t2 implies #[trigger] g[t1]
            != #[trigger] g[t2] by {
            assert(g[t1] == f[t1 + 1]);
            assert(g[t2] == f[t2 + 1]);
        }
        assert(is_assignment_from(rel, p, q, k1, used1, g));
        assert(assignable_from(rel, p, q, k + 1, used.update(x, true)));
    }
    if exists|x: int|
        0 <= x < q && !used[x] && rel(k, x) && #[trigger] assignable_from(
            rel,
            p,
            q,
            k + 1,
            used.update(x, true),
        ) {
        let x = choose|x: int|
            0 <= x < q && !used[x] && rel(k, x) && #[trigger] assignable_from(
                rel,
                p,
                q,
                k + 1,
                used.update(x, true),
            );
        let used1 = used.update(x, true);
        let g = choose|g: Seq<int>| is_assignment_from(rel, p, q, k1, used1, g);
        let f = seq![x] + g;
        assert forall|t: int| 0 <= t < f.len() implies 0 <= #[trigger] f[t] < q && !used[f[t]] && rel(
            k + t,
            f[t],
        ) by {
            if t > 0 {
                assert(f[t] == g[t - 1]);
                assert(!used1[g[t - 1]]);
            }
        }
        assert forall|t1: int, t2: int|
            0 <= t1 < f.len() && 0 <= t2 < f.len() && t1 != t2 implies #[trigger] f[t1]
            != #[trigger] f[t2] by {
            if t1 > 0 {
                assert(f[t1] == g[t1 - 1]);
                assert(!used1[g[t1 - 1]]);
            }
            if t2 > 0 {
                assert(f[t2] == g[t2 - 1]);
                assert(!used1[g[t2 - 1]]);
            }
        }
        assert(is_assignment_from(rel, p, q, k, used, f));
    }
}

/// Searches for an assignment of the pattern positions `k..p` to distinct
/// text positions not marked in `used`, backtracking over the choices. The
/// marks are restored before returning. With `matchers_first`, the pattern
/// is the list of `m` matchers and the text the list of `n` items; otherwise
/// the other way round.
fn assign_from(
    rows: &Vec<Vec<bool>>,
    n: usize,
    m: usize,
    matchers_first: bool,
    k: usize,
    used: &mut Vec<bool>,
    Ghost(pat): Ghost<spec_fn(int, int) -> bool>,
) -> (r: bool)
    requires
        table_shape(rows@, n as int, m as int),
        matchers_first ==> forall|a: int, b: int|
            0 <= a < m && 0 <= b < n ==> #[trigger] pat(a, b) == rows@[b]@[a],
        !matchers_first ==> forall|a: int, b: int|
            0 <= a < n && 0 <= b < m ==> #[trigger] pat(a, b) == rows@[a]@[b],
        k <= (if matchers_first { m } else { n }),
        old(used)@.len() == (if matchers_first { n } else { m }),
    ensures
        final(used)@ == old(used)@,
        r == assignable_from(
            pat,
            (if matchers_first { m } else { n }) as int,
            (if matchers_first { n } else { m }) as int,
            k as int,
            old(used)@,
        ),
    decreases (if matchers_first { m } else { n }) - k,
{
    let (p, q) = if matchers_first {
        (m, n)
    } else {
        (n, m)
    };
    let ghost used0 = used@;
    if k == p {
        proof {
            lemma_assignable_done(pat, p as int, q as int, k as int, used0);
        }
        return true;
    }
    proof {
        lemma_assignable_step(pat, p as int, q as int, k as int, used0);
    }
    let mut x: usize = 0;
    while x < q
        invariant
            table_shape(rows@, n as int, m as int),
            matchers_first ==> forall|a: int, b: int|
                0 <= a < m && 0 <= b < n ==> #[trigger] pat(a, b) == rows@[b]@[a],
            !matchers_first ==> forall|a: int, b: int|
                0 <= a < n && 0 <= b < m ==> #[trigger] pat(a, b) == rows@[a]@[b],
            (p, q) == if matchers_first {
                (m, n)
            } else {
                (n, m)
            },
            k < p,
            x <= q,
            used@ == used0,
            used0 == old(used)@,
            used0.len() == q,
            assignable_from(pat, p as int, q as int, k as int, used0) == exists|y: int|
                0 <= y < q && !used0[y] && pat(k as int, y) && #[trigger] assignable_from(
                    pat,
                    p as int,
                    q as int,
                    k + 1,
                    used0.update(y, true),
                ),
            forall|y: int|
                0 <= y < x ==> !(!used0[y] && pat(k as int, y) && #[trigger] assignable_from(
                    pat,
                    p as int,
                    q as int,
                    k + 1,
                    used0.update(y, true),
                )),
        decreases q - x,
    {
        let related = if matchers_first {
            rows[x][k]
        } else {
            rows[k][x]
        };
        if !used[x] && related {
            used.set(x, true);
            let ok = assign_from(rows, n, m, matchers_first, k + 1, used, Ghost(pat));
            used.set(x, false);
            assert(used@ =~= used0);
            if ok {
                return true;
            }
        }
        x += 1;
    }
    false
}

/// Whether the items `items` correspond in any order to the matchers of
/// `elements` as `requirements` demand:
/// - `PerfectMatch`: as many items as matchers, and a one-to-one
///   correspondence in which each matcher matches its item;
/// - `Superset`: each matcher matches its own item;
/// - `Subset`: each item is matched by its own matcher.
pub open spec fn unordered_holds<T, E: Components<T>>(
    requirements: Requirements,
    elements: E,
    items: Seq<T>,
) -> bool {
    let n = items.len() as int;
    let m = elements.spec_count() as int;
    match requirements {
        Requirements::PerfectMatch => n == m && assignable(item_rel(elements, items), m, n),
        Requirements::Superset => assignable(item_rel(elements, items), m, n),
        Requirements::Subset => assignable(flipped(item_rel(elements, items)), n, m),
    }
}

/// Decides [`unordered_holds`] on the table `rows` of `n` items by `m`
/// matchers.
fn decide_unordered<T, E: Components<T>>(
    requirements: Requirements,
    rows: &Vec<Vec<bool>>,
    n: usize,
    m: usize,
    Ghost(elements): Ghost<E>,
    Ghost(items): Ghost<Seq<T>>,
) -> (r: bool)
    requires
        table_shape(rows@, n as int, m as int),
        n == items.len(),
        m == elements.spec_count(),
        forall|i: int| 0 <= i < n ==> #[trigger] rows@[i]@ == results_of(elements, items[i]),
    ensures
        r == unordered_holds(requirements, elements, items),
{
    let ghost rel = item_rel(elements, items);
    assert forall|a: int, b: int| 0 <= a < m && 0 <= b < n implies #[trigger] rel(a, b) == rows@[b]@[a] by {
        assert(rows@[b]@ == results_of(elements, items[b]));
    }
    assert forall|a: int, b: int| 0 <= a < n && 0 <= b < m implies #[trigger] flipped(rel)(a, b) == rows@[a]@[b] by {
        assert(rows@[a]@ == results_of(elements, items[a]));
    }
    match requirements {
        Requirements::PerfectMatch => {
            if n != m {
                return false;
            }
            let mut used: Vec<bool> = Vec::new();
            let mut i: usize = 0;
            while i < n
                invariant
                    i <= n,
                    used@ == none_used(i as int),
                decreases n - i,
            {
                used.push(false);
                i += 1;
                assert(used@ =~= none_used(i as int));
            }
            assign_from(rows, n, m, true, 0, &mut used, Ghost(rel))
        },
        Requirements::Superset => {
            let mut used: Vec<bool> = Vec::new();
            let mut i: usize = 0;
            while i < n
                invariant
                    i <= n,
                    used@ == none_used(i as int),
                decreases n - i,
            {
                used.push(false);
                i += 1;
                assert(used@ =~= none_used(i as int));
            }
            assign_from(rows, n, m, true, 0, &mut used, Ghost(rel))
        },
        Requirements::Subset => {
            let mut used: Vec<bool> = Vec::new();
            let mut i: usize = 0;
            while i < m
                invariant
                    i <= m,
                    used@ == none_used(i as int),
                decreases m - i,
            {
                used.push(false);
                i += 1;
                assert(used@ =~= none_used(i as int));
            }
            assign_from(rows, n, m, false, 0, &mut used, Ghost(flipped(rel)))
        },
    }
}


/// The positions below `n` at which `pred` holds, in increasing order.
pub open spec fn positions_where(pred: spec_fn(int) -> bool, n: nat) -> Seq<nat>
    decreases n,
{
    if n == 0 {
        seq![]
    } else if pred(n - 1) {
        positions_where(pred, (n - 1) as nat).push((n - 1) as nat)
    } else {
        positions_where(pred, (n - 1) as nat)
    }
}

/// The positions of the items of `items` which no matcher of `elements`
/// matches.
pub open spec fn unmatchable_items<T, E: Components<T>>(elements: E, items: Seq<T>) -> Seq<nat> {
    positions_where(
        |i: int| forall|j: int| 0 <= j < elements.spec_count() ==> !#[trigger] elements.spec_matches_at(j, items[i]),
        items.len(),
    )
}

/// The positions of the matchers of `elements` which match no item of
/// `items`.
pub open spec fn unmatchable_matchers<T, E: Components<T>>(elements: E, items: Seq<T>) -> Seq<nat> {
    positions_where(
        |j: int| forall|i: int| 0 <= i < items.len() ==> !#[trigger] elements.spec_matches_at(j, items[i]),
        elements.spec_count(),
    )
}

/// `singular` for one position, `plural` for several.
pub open spec fn number_word(positions: Seq<nat>, singular: Seq<char>, plural: Seq<char>) -> Seq<char> {
    if positions.len() == 1 {
        singular
    } else {
        plural
    }
}

/// The part of an explanation naming the items `items` which match no
/// matcher.
pub open spec fn lonely_items_text(items: Seq<nat>) -> Seq<char> {
    number_word(items, "whose element "@, "whose elements "@) + position_labels(items) + number_word(
        items,
        " does not match any expected elements"@,
        " do not match any expected elements"@,
    )
}

/// The part of an explanation naming the matchers `matchers` which match no
/// item.
pub open spec fn lonely_matchers_text(matchers: Seq<nat>) -> Seq<char> {
    number_word(matchers, "no elements match the expected element "@, "no elements match the expected elements "@)
        + position_labels(matchers)
}

/// The explanation of items which match no matcher, or matchers which match
/// no item, as far as `requirements` care about them; `None` when there are
/// none.
pub open spec fn unmatchable_text(
    requirements: Requirements,
    items: Seq<nat>,
    matchers: Seq<nat>,
) -> Option<Seq<char>> {
    match requirements {
        Requirements::PerfectMatch => if items.len() == 0 && matchers.len() == 0 {
            None
        } else if matchers.len() == 0 {
            Some(lonely_items_text(items))
        } else if items.len() == 0 {
            Some(
                number_word(matchers, "which has no element matching the expected element "@,
                "which has no elements matching the expected elements "@) + position_labels(matchers),
            )
        } else {
            Some(lonely_items_text(items) + " and "@ + lonely_matchers_text(matchers))
        },
        Requirements::Superset => if matchers.len() == 0 {
            None
        } else {
            Some(
                number_word(matchers, "which has no element matching the expected element "@,
                "which has no elements matching the expected elements "@) + position_labels(matchers),
            )
        },
        Requirements::Subset => if items.len() == 0 {
            None
        } else {
            Some(lonely_items_text(items))
        },
    }
}

/// The first text position from `x` on, below `q`, not marked in `used` and
/// related to pattern position `k`; `q` when there is none.
pub open spec fn first_free_from(rel: spec_fn(int, int) -> bool, q: int, k: int, used: Seq<bool>, x: int) -> int
    decreases q - x,
{
    if x >= q {
        q
    } else if !used[x] && rel(k, x) {
        x
    } else {
        first_free_from(rel, q, k, used, x + 1)
    }
}

/// The assignment which gives each pattern position from `k` on, in turn,
/// the first free text position related to it; a position with none gets
/// `q`.
pub open spec fn first_fit_from(rel: spec_fn(int, int) -> bool, p: int, q: int, k: int, used: Seq<bool>) -> Seq<int>
    decreases p - k,
{
    if k >= p {
        seq![]
    } else {
        let x = first_free_from(rel, q, k, used, 0);
        if x < q {
            seq![x] + first_fit_from(rel, p, q, k + 1, used.update(x, true))
        } else {
            seq![q] + first_fit_from(rel, p, q, k + 1, used)
        }
    }
}

/// The matching shown when no complete one exists: each matcher in turn
/// takes the first free item it matches.
pub open spec fn best_match<T, E: Components<T>>(elements: E, items: Seq<T>) -> Seq<int> {
    first_fit_from(item_rel(elements, items), elements.spec_count() as int, items.len() as int, 0, none_used(items.len() as int))
}

/// The line reporting that the item at `i` went to the matcher at `j`.
pub open spec fn pair_line<T: Debuggable, E: Components<T>>(elements: E, items: Seq<T>, i: int, j: int) -> Seq<char> {
    "Actual element "@ + items[i].spec_debug() + " at index "@ + nat_decimal(i as nat)
        + " matched expected element `"@ + elements.spec_describe_at(j, MatcherResult::Match)
        + "` at index "@ + nat_decimal(j as nat) + "."@
}

/// The line reporting that the item at `i` went to no matcher.
pub open spec fn lonely_item_line<T: Debuggable>(items: Seq<T>, i: int) -> Seq<char> {
    "Actual element "@ + items[i].spec_debug() + " at index "@ + nat_decimal(i as nat)
        + " did not match any remaining expected element."@
}

/// The line reporting that the matcher at `j` got no item.
pub open spec fn lonely_matcher_line<T, E: Components<T>>(elements: E, j: int) -> Seq<char> {
    "Expected element `"@ + elements.spec_describe_at(j, MatcherResult::Match) + "` at index "@
        + nat_decimal(j as nat) + " did not match any remaining actual element."@
}

/// The lines of a matching `fit` of matchers to items: first the pairs, by
/// matcher, then the items left over, then the matchers left over.
pub open spec fn best_match_lines<T: Debuggable, E: Components<T>>(elements: E, items: Seq<T>, fit: Seq<int>) -> Seq<Seq<char>> {
    let n = items.len() as int;
    let m = elements.spec_count();
    positions_where(|j: int| fit[j] < n, m).map_values(|j: nat| pair_line(elements, items, fit[j as int], j as int))
        + positions_where(|i: int| !fit.contains(i), n as nat).map_values(|i: nat| lonely_item_line(items, i as int))
        + positions_where(|j: int| fit[j] >= n, m).map_values(|j: nat| lonely_matcher_line(elements, j as int))
}

/// The explanation of an unordered match against `items`.
pub open spec fn unordered_explanation<T: Debuggable, E: Components<T>>(
    requirements: Requirements,
    elements: E,
    items: Seq<T>,
) -> Seq<char> {
    let n = items.len();
    let m = elements.spec_count();
    if size_mismatch(requirements, n, m) {
        size_mismatch_text(requirements, n, m)
    } else if let Some(t) = unmatchable_text(requirements, unmatchable_items(elements, items), unmatchable_matchers(elements, items)) {
        t
    } else if unordered_holds(requirements, elements, items) {
        "whose elements all match"@
    } else {
        "which does not have a "@ + requirements.spec_name()
            + " match with the expected elements. The best match found was:\n"@
            + indent(join(best_match_lines(elements, items, best_match(elements, items)), "\n"@), spaces(2))
    }
}

/// Matches a container whose items correspond, in any order, to a list of
/// matchers, as its [`Requirements`] demand.
pub struct ContainerContainsUnorderedMatcher<T, ComponentsT> {
    pub elements: ComponentsT,
    pub requirements: Requirements,
    pub phantom: PhantomData<T>,
}

impl<T, ComponentsT> ContainerContainsUnorderedMatcher<T, ComponentsT> {
    /// Builds the matcher of containers whose items correspond in any order
    /// to the matchers `elements` as `requirements` demand.
    pub fn new(elements: ComponentsT, requirements: Requirements) -> (m: Self)
        ensures
            m.elements == elements,
            m.requirements == requirements,
    {
        ContainerContainsUnorderedMatcher { elements, requirements, phantom: PhantomData }
    }

    /// The matcher with the same matchers and requirements, whose items
    /// must correspond to the matchers in their order.
    pub fn in_order(self) -> (m: ContainerContainsOrderedMatcher<T, ComponentsT>)
        ensures
            m.elements == self.elements,
            m.requirements == self.requirements,
    {
        ContainerContainsOrderedMatcher::new(self.elements, self.requirements)
    }
}

/// Matches a container whose items correspond one to one, in any order, to
/// the matchers `elements`.
pub fn contains_exactly<T, ComponentsT>(elements: ComponentsT) -> (m:
    ContainerContainsUnorderedMatcher<T, ComponentsT>)
    ensures
        m.elements == elements,
        m.requirements == Requirements::PerfectMatch,
{
    ContainerContainsUnorderedMatcher::new(elements, Requirements::PerfectMatch)
}

/// Matches a container in which each of the matchers `elements` has an item
/// of its own, in any order; other items may be present.
pub fn contains_each<T, ComponentsT>(elements: ComponentsT) -> (m:
    ContainerContainsUnorderedMatcher<T, ComponentsT>)
    ensures
        m.elements == elements,
        m.requirements == Requirements::Superset,
{
    ContainerContainsUnorderedMatcher::new(elements, Requirements::Superset)
}

/// Matches a container each of whose items has a matcher of its own among
/// `elements`, in any order; matchers may be left over.
pub fn is_contained_in<T, ComponentsT>(elements: ComponentsT) -> (m:
    ContainerContainsUnorderedMatcher<T, ComponentsT>)
    ensures
        m.elements == elements,
        m.requirements == Requirements::Subset,
{
    ContainerContainsUnorderedMatcher::new(elements, Requirements::Subset)
}

/// The first line of the description of an unordered list of matchers.
pub open spec fn unordered_header(requirements: Requirements, matcher_result: MatcherResult) -> Seq<char> {
    let verb = if is_match_spec(matcher_result) {
        "contains"@
    } else {
        "doesn't contain"@
    };
    let bound = match requirements {
        Requirements::PerfectMatch => Seq::<char>::empty(),
        Requirements::Superset => " at least"@,
        Requirements::Subset => " at most"@,
    };
    verb + bound + " elements matching in any order:\n"@
}

impl<T, ComponentsT: Components<T>> Describable for ContainerContainsUnorderedMatcher<T, ComponentsT> {
    open spec fn spec_describe(&self, matcher_result: MatcherResult) -> Seq<char> {
        unordered_header(self.requirements, matcher_result) + indent(
            numbered_list(descriptions_of(self.elements, MatcherResult::Match)),
            spaces(2),
        )
    }

    fn describe(&self, matcher_result: MatcherResult) -> (description: String) {
        let mut s = if matcher_result.is_match() {
            String::from_str("contains")
        } else {
            String::from_str("doesn't contain")
        };
        match self.requirements {
            Requirements::PerfectMatch => {},
            Requirements::Superset => s.append(" at least"),
            Requirements::Subset => s.append(" at most"),
        }
        s.append(" elements matching in any order:\n");
        let ds = descriptions(&self.elements, MatcherResult::Match);
        let list = render_numbered_list(&ds);
        let block = indent_text(list.as_str(), "  ");
        proof {
            reveal_strlit("  ");
        }
        assert("  "@ =~= spaces(2));
        s.append(block.as_str());
        assert(s@ =~= self.spec_describe(matcher_result));
        s
    }
}


/// `positions_where` depends on the predicate only below `n`.
pub proof fn lemma_positions_congruent(p1: spec_fn(int) -> bool, p2: spec_fn(int) -> bool, n: nat)
    requires
        forall|i: int| 0 <= i < n ==> #[trigger] p1(i) == p2(i),
    ensures
        positions_where(p1, n) == positions_where(p2, n),
    decreases n,
{
    if n > 0 {
        lemma_positions_congruent(p1, p2, (n - 1) as nat);
    }
}

/// The positions, as natural numbers.
pub open spec fn as_nats(v: Seq<usize>) -> Seq<nat> {
    v.map_values(|x: usize| x as nat)
}

/// Renders [`position_labels`] of `positions`.
pub fn render_position_labels(positions: &Vec<usize>) -> (s: String)
    ensures
        s@ == position_labels(as_nats(positions@)),
{
    let mut labels: Vec<String> = Vec::new();
    let mut i: usize = 0;
    while i < positions.len()
        invariant
            i <= positions@.len(),
            labels@.len() == i,
            forall|k: int| 0 <= k < i ==> #[trigger] labels@[k]@ == "#"@ + nat_decimal(positions@[k] as nat),
        decreases positions@.len() - i,
    {
        let mut label = String::from_str("#");
        let d = decimal_usize(positions[i]);
        label.append(d.as_str());
        labels.push(label);
        i += 1;
    }
    assert(views(labels@) =~= as_nats(positions@).map_values(|p: nat| "#"@ + nat_decimal(p)));
    join_texts(&labels, ", ")
}

/// The positions of the items, among the `n` rows of `rows`, which no matcher
/// matches.
fn lonely_rows(rows: &Vec<Vec<bool>>, n: usize, m: usize) -> (r: Vec<usize>)
    requires
        table_shape(rows@, n as int, m as int),
    ensures
        as_nats(r@) == positions_where(
            |i: int| forall|j: int| 0 <= j < m ==> !#[trigger] rows@[i]@[j],
            n as nat,
        ),
{
    let ghost pred = |i: int| forall|j: int| 0 <= j < m ==> !#[trigger] rows@[i]@[j];
    let mut r: Vec<usize> = Vec::new();
    let mut i: usize = 0;
    while i < n
        invariant
            table_shape(rows@, n as int, m as int),
            pred == (|i: int| forall|j: int| 0 <= j < m ==> !#[trigger] rows@[i]@[j]),
            i <= n,
            as_nats(r@) == positions_where(pred, i as nat),
        decreases n - i,
    {
        let mut j: usize = 0;
        let mut any = false;
        while j < m
            invariant
                table_shape(rows@, n as int, m as int),
                i < n,
                j <= m,
                any == exists|k: int| 0 <= k < j && #[trigger] rows@[i as int]@[k],
            decreases m - j,
        {
            if rows[i][j] {
                any = true;
            }
            j += 1;
        }
        if !any {
            r.push(i);
        }
        assert(as_nats(r@) =~= positions_where(pred, (i + 1) as nat));
        i += 1;
    }
    r
}

/// The positions of the matchers, among the `m` columns of `rows`, which
/// match no item.
fn lonely_columns(rows: &Vec<Vec<bool>>, n: usize, m: usize) -> (r: Vec<usize>)
    requires
        table_shape(rows@, n as int, m as int),
    ensures
        as_nats(r@) == positions_where(
            |j: int| forall|i: int| 0 <= i < n ==> !#[trigger] rows@[i]@[j],
            m as nat,
        ),
{
    let ghost pred = |j: int| forall|i: int| 0 <= i < n ==> !#[trigger] rows@[i]@[j];
    let mut r: Vec<usize> = Vec::new();
    let mut j: usize = 0;
    while j < m
        invariant
            table_shape(rows@, n as int, m as int),
            pred == (|j: int| forall|i: int| 0 <= i < n ==> !#[trigger] rows@[i]@[j]),
            j <= m,
            as_nats(r@) == positions_where(pred, j as nat),
        decreases m - j,
    {
        let mut i: usize = 0;
        let mut any = false;
        while i < n
            invariant
                table_shape(rows@, n as int, m as int),
                j < m,
                i <= n,
                any == exists|k: int| 0 <= k < i && #[trigger] rows@[k]@[j as int],
            decreases n - i,
        {
            if rows[i][j] {
                any = true;
            }
            i += 1;
        }
        if !any {
            r.push(j);
        }
        assert(as_nats(r@) =~= positions_where(pred, (j + 1) as nat));
        j += 1;
    }
    r
}


/// The positions, as integers.
pub open spec fn as_ints(v: Seq<usize>) -> Seq<int> {
    v.map_values(|x: usize| x as int)
}

/// Computes [`first_fit_from`] from the start on the table `rows`, the
/// pattern being the `m` matchers and the text the `n` items. Also returns
/// which items the assignment uses.
fn first_fit(
    rows: &Vec<Vec<bool>>,
    n: usize,
    m: usize,
    Ghost(rel): Ghost<spec_fn(int, int) -> bool>,
) -> (r: (Vec<usize>, Vec<bool>))
    requires
        table_shape(rows@, n as int, m as int),
        forall|a: int, b: int| 0 <= a < m && 0 <= b < n ==> #[trigger] rel(a, b) == rows@[b]@[a],
    ensures
        as_ints(r.0@) == first_fit_from(rel, m as int, n as int, 0, none_used(n as int)),
        r.0@.len() == m,
        forall|j: int| 0 <= j < m ==> #[trigger] r.0@[j] <= n,
        r.1@.len() == n,
        forall|i: int| 0 <= i < n ==> #[trigger] r.1@[i] == as_ints(r.0@).contains(i),
{
    let mut used: Vec<bool> = Vec::new();
    let mut i: usize = 0;
    while i < n
        invariant
            i <= n,
            used@ == none_used(i as int),
        decreases n - i,
    {
        used.push(false);
        i += 1;
        assert(used@ =~= none_used(i as int));
    }
    let ghost whole = first_fit_from(rel, m as int, n as int, 0, none_used(n as int));
    let mut fit: Vec<usize> = Vec::new();
    let mut j: usize = 0;
    assert(as_ints(fit@) + first_fit_from(rel, m as int, n as int, 0, used@) =~= whole);
    while j < m
        invariant
            table_shape(rows@, n as int, m as int),
            forall|a: int, b: int| 0 <= a < m && 0 <= b < n ==> #[trigger] rel(a, b) == rows@[b]@[a],
            whole == first_fit_from(rel, m as int, n as int, 0, none_used(n as int)),
            j <= m,
            fit@.len() == j,
            used@.len() == n,
            as_ints(fit@) + first_fit_from(rel, m as int, n as int, j as int, used@) == whole,
            forall|t: int| 0 <= t < j ==> #[trigger] fit@[t] <= n,
            forall|x: int| 0 <= x < n ==> #[trigger] used@[x] == as_ints(fit@).contains(x),
        decreases m - j,
    {
        let mut x: usize = 0;
        while x < n && (used[x] || !rows[x][j])
            invariant
                table_shape(rows@, n as int, m as int),
                forall|a: int, b: int| 0 <= a < m && 0 <= b < n ==> #[trigger] rel(a, b) == rows@[b]@[a],
                j < m,
                used@.len() == n,
                x <= n,
                first_free_from(rel, n as int, j as int, used@, 0) == first_free_from(
                    rel,
                    n as int,
                    j as int,
                    used@,
                    x as int,
                ),
            decreases n - x,
        {
            x += 1;
        }
        let ghost before = used@;
        let ghost fit_before = fit@;
        assert(first_free_from(rel, n as int, j as int, used@, 0) == x as int);
        if x < n {
            used.set(x, true);
        }
        fit.push(x);
        assert(as_ints(fit@) =~= as_ints(fit_before).push(x as int));
        assert forall|y: int| 0 <= y < n implies #[trigger] used@[y] == as_ints(fit@).contains(y) by {
            if as_ints(fit_before).contains(y) {
                let t = choose|t: int| 0 <= t < as_ints(fit_before).len() && as_ints(fit_before)[t] == y;
                assert(as_ints(fit@)[t] == y);
            }
            if as_ints(fit@).contains(y) && y != x {
                let t = choose|t: int| 0 <= t < as_ints(fit@).len() && as_ints(fit@)[t] == y;
                assert(t < fit_before.len());
                assert(as_ints(fit_before)[t] == y);
            }
            if y == x {
                assert(as_ints(fit@)[j as int] == y);
            }
        }
        assert(as_ints(fit@) + first_fit_from(rel, m as int, n as int, j + 1, used@) =~= whole) by {
            assert(first_fit_from(rel, m as int, n as int, j as int, before) =~= seq![x as int]
                + first_fit_from(rel, m as int, n as int, j + 1, used@));
        }
        j += 1;
    }
    assert(first_fit_from(rel, m as int, n as int, m as int, used@) =~= Seq::<int>::empty());
    assert(as_ints(fit@) =~= whole);
    (fit, used)
}


/// Renders [`lonely_items_text`] of `items`.
fn render_lonely_items(items: &Vec<usize>) -> (s: String)
    ensures
        s@ == lonely_items_text(as_nats(items@)),
{
    let mut s = if items.len() == 1 {
        String::from_str("whose element ")
    } else {
        String::from_str("whose elements ")
    };
    let labels = render_position_labels(items);
    s.append(labels.as_str());
    if items.len() == 1 {
        s.append(" does not match any expected elements");
    } else {
        s.append(" do not match any expected elements");
    }
    s
}

/// Renders the text naming matchers which match no item, as a sentence of
/// its own.
fn render_missing_matchers(matchers: &Vec<usize>) -> (s: String)
    ensures
        s@ == number_word(
            as_nats(matchers@),
            "which has no element matching the expected element "@,
            "which has no elements matching the expected elements "@,
        ) + position_labels(as_nats(matchers@)),
{
    let mut s = if matchers.len() == 1 {
        String::from_str("which has no element matching the expected element ")
    } else {
        String::from_str("which has no elements matching the expected elements ")
    };
    let labels = render_position_labels(matchers);
    s.append(labels.as_str());
    s
}

/// Renders [`unmatchable_text`] of `requirements`, `items` and `matchers`.
fn render_unmatchable(requirements: Requirements, items: &Vec<usize>, matchers: &Vec<usize>) -> (r: Option<String>)
    ensures
        match unmatchable_text(requirements, as_nats(items@), as_nats(matchers@)) {
            Some(t) => r matches Some(s) && s@ == t,
            None => r is None,
        },
{
    match requirements {
        Requirements::PerfectMatch => {
            if items.len() == 0 && matchers.len() == 0 {
                None
            } else if matchers.len() == 0 {
                Some(render_lonely_items(items))
            } else if items.len() == 0 {
                Some(render_missing_matchers(matchers))
            } else {
                let mut s = render_lonely_items(items);
                s.append(" and ");
                if matchers.len() == 1 {
                    s.append("no elements match the expected element ");
                } else {
                    s.append("no elements match the expected elements ");
                }
                let labels = render_position_labels(matchers);
                s.append(labels.as_str());
                Some(s)
            }
        },
        Requirements::Superset => {
            if matchers.len() == 0 {
                None
            } else {
                Some(render_missing_matchers(matchers))
            }
        },
        Requirements::Subset => {
            if items.len() == 0 {
                None
            } else {
                Some(render_lonely_items(items))
            }
        },
    }
}


impl<T: Debuggable, ComponentsT: Components<T>> ContainerContainsUnorderedMatcher<T, ComponentsT> {
    /// Renders the lines of [`best_match_lines`] for the items of `actual`.
    fn render_best_match<C: Container<Item = T>>(
        &self,
        actual: &C,
        fit: &Vec<usize>,
        used: &Vec<bool>,
    ) -> (lines: Vec<String>)
        requires
            fit@.len() == self.elements.spec_count(),
            used@.len() == actual.spec_items().len(),
            forall|j: int| 0 <= j < fit@.len() ==> #[trigger] fit@[j] <= actual.spec_items().len(),
            forall|i: int|
                0 <= i < used@.len() ==> #[trigger] used@[i] == as_ints(fit@).contains(i),
        ensures
            views(lines@) == best_match_lines(self.elements, actual.spec_items(), as_ints(fit@)),
    {
        let ghost items = actual.spec_items();
        let ghost fi = as_ints(fit@);
        let n = actual.count();
        let m = fit.len();
        let ds = descriptions(&self.elements, MatcherResult::Match);
        assert(ds@.len() == views(ds@).len());
        let ghost pred_pair = |j: int| fi[j] < n;
        let ghost pred_item = |i: int| !fi.contains(i);
        let ghost pred_lonely = |j: int| fi[j] >= n;
        let mut lines: Vec<String> = Vec::new();
        let mut j: usize = 0;
        while j < m
            invariant
                items == actual.spec_items(),
                fi == as_ints(fit@),
                n == items.len(),
                m == fit@.len(),
                m == self.elements.spec_count(),
                views(ds@) == descriptions_of(self.elements, MatcherResult::Match),
                ds@.len() == m,
                forall|t: int| 0 <= t < m ==> #[trigger] fit@[t] <= n,
                pred_pair == (|j: int| fi[j] < n),
                j <= m,
                views(lines@) == positions_where(pred_pair, j as nat).map_values(
                    |k: nat| pair_line(self.elements, items, fi[k as int], k as int),
                ),
            decreases m - j,
        {
            let ghost before = views(lines@);
            if fit[j] < n {
                let i = fit[j];
                let mut line = String::from_str("Actual element ");
                let v = actual.item(i).debug();
                line.append(v.as_str());
                line.append(" at index ");
                let di = decimal_usize(i);
                line.append(di.as_str());
                line.append(" matched expected element `");
                assert(views(ds@)[j as int] == ds@[j as int]@);
                line.append(ds[j].as_str());
                line.append("` at index ");
                let dj = decimal_usize(j);
                line.append(dj.as_str());
                line.append(".");
                lines.push(line);
                assert(views(lines@) =~= before.push(line@));
            }
            assert(views(lines@) =~= positions_where(pred_pair, (j + 1) as nat).map_values(
                |k: nat| pair_line(self.elements, items, fi[k as int], k as int),
            ));
            j += 1;
        }
        let ghost part1 = views(lines@);
        let mut i: usize = 0;
        assert(views(lines@) =~= part1 + positions_where(pred_item, 0).map_values(
            |k: nat| lonely_item_line(items, k as int),
        ));
        while i < n
            invariant
                items == actual.spec_items(),
                fi == as_ints(fit@),
                n == items.len(),
                used@.len() == n,
                forall|x: int| 0 <= x < n ==> #[trigger] used@[x] == fi.contains(x),
                pred_item == (|i: int| !fi.contains(i)),
                i <= n,
                views(lines@) == part1 + positions_where(pred_item, i as nat).map_values(
                    |k: nat| lonely_item_line(items, k as int),
                ),
            decreases n - i,
        {
            let ghost before = views(lines@);
            if !used[i] {
                let mut line = String::from_str("Actual element ");
                let v = actual.item(i).debug();
                line.append(v.as_str());
                line.append(" at index ");
                let di = decimal_usize(i);
                line.append(di.as_str());
                line.append(" did not match any remaining expected element.");
                lines.push(line);
                assert(views(lines@) =~= before.push(line@));
            }
            assert(views(lines@) =~= part1 + positions_where(pred_item, (i + 1) as nat).map_values(
                |k: nat| lonely_item_line(items, k as int),
            ));
            i += 1;
        }
        let ghost part2 = views(lines@);
        let mut j: usize = 0;
        assert(views(lines@) =~= part2 + positions_where(pred_lonely, 0).map_values(
            |k: nat| lonely_matcher_line(self.elements, k as int),
        ));
        while j < m
            invariant
                fi == as_ints(fit@),
                n == actual.spec_items().len(),
                m == fit@.len(),
                m == self.elements.spec_count(),
                views(ds@) == descriptions_of(self.elements, MatcherResult::Match),
                ds@.len() == m,
                pred_lonely == (|j: int| fi[j] >= n),
                j <= m,
                views(lines@) == part2 + positions_where(pred_lonely, j as nat).map_values(
                    |k: nat| lonely_matcher_line(self.elements, k as int),
                ),
            decreases m - j,
        {
            let ghost before = views(lines@);
            if fit[j] >= n {
                let mut line = String::from_str("Expected element `");
                assert(views(ds@)[j as int] == ds@[j as int]@);
                line.append(ds[j].as_str());
                line.append("` at index ");
                let dj = decimal_usize(j);
                line.append(dj.as_str());
                line.append(" did not match any remaining actual element.");
                lines.push(line);
                assert(views(lines@) =~= before.push(line@));
            }
            assert(views(lines@) =~= part2 + positions_where(pred_lonely, (j + 1) as nat).map_values(
                |k: nat| lonely_matcher_line(self.elements, k as int),
            ));
            j += 1;
        }
        assert(views(lines@) =~= best_match_lines(self.elements, items, fi));
        lines
    }
}


impl<T: Debuggable, ComponentsT: Components<T>> ContainerContainsUnorderedMatcher<T, ComponentsT> {
    /// Whether the items of `actual` correspond to the matchers as the
    /// requirements demand.
    fn matches_with_iter<C: Container<Item = T>>(&self, actual: &C) -> (r: bool)
        ensures
            r == unordered_holds(self.requirements, self.elements, actual.spec_items()),
    {
        let rows = match_table(&self.elements, actual);
        let n = actual.count();
        let ds = descriptions(&self.elements, MatcherResult::Match);
        assert(ds@.len() == views(ds@).len());
        let m = ds.len();
        decide_unordered::<T, ComponentsT>(
            self.requirements,
            &rows,
            n,
            m,
            Ghost(self.elements),
            Ghost(actual.spec_items()),
        )
    }

    /// Explains how the items of `actual` correspond to the matchers.
    fn explain_match_with_iter<C: Container<Item = T>>(&self, actual: &C) -> (s: String)
        ensures
            s@ == unordered_explanation(self.requirements, self.elements, actual.spec_items()),
    {
        let ghost items = actual.spec_items();
        let rows = match_table(&self.elements, actual);
        let n = actual.count();
        let ds = descriptions(&self.elements, MatcherResult::Match);
        assert(ds@.len() == views(ds@).len());
        let m = ds.len();
        assert(table_shape(rows@, n as int, m as int));
        if let Some(t) = self.requirements.explain_size_mismatch(actual, m) {
            return t;
        }
        let lonely_items = lonely_rows(&rows, n, m);
        let lonely_matchers = lonely_columns(&rows, n, m);
        proof {
            let p_rows = |i: int| forall|j: int| 0 <= j < m ==> !#[trigger] rows@[i]@[j];
            let p_spec = |i: int|
                forall|j: int|
                    0 <= j < self.elements.spec_count() ==> !#[trigger] self.elements.spec_matches_at(
                        j,
                        items[i],
                    );
            assert forall|i: int| 0 <= i < n implies #[trigger] p_rows(i) == p_spec(i) by {
                assert(rows@[i]@ == results_of(self.elements, items[i]));
                assert forall|j: int| 0 <= j < m implies #[trigger] rows@[i]@[j] == self.elements.spec_matches_at(j, items[i]) by {}
                if !p_rows(i) {
                    let j = choose|j: int| 0 <= j < m && rows@[i]@[j];
                    assert(self.elements.spec_matches_at(j, items[i]));
                }
                if !p_spec(i) {
                    let j = choose|j: int| 0 <= j < self.elements.spec_count() && self.elements.spec_matches_at(j, items[i]);
                    assert(rows@[i]@[j]);
                }
            }
            lemma_positions_congruent(p_rows, p_spec, n as nat);
            let q_rows = |j: int| forall|i: int| 0 <= i < n ==> !#[trigger] rows@[i]@[j];
            let q_spec = |j: int|
                forall|i: int|
                    0 <= i < items.len() ==> !#[trigger] self.elements.spec_matches_at(j, items[i]);
            assert forall|j: int| 0 <= j < m implies #[trigger] q_rows(j) == q_spec(j) by {
                if !q_rows(j) {
                    let i = choose|i: int| 0 <= i < n && rows@[i]@[j];
                    assert(rows@[i]@ == results_of(self.elements, items[i]));
                    assert(self.elements.spec_matches_at(j, items[i]));
                }
                if !q_spec(j) {
                    let i = choose|i: int| 0 <= i < items.len() && self.elements.spec_matches_at(j, items[i]);
                    assert(rows@[i]@ == results_of(self.elements, items[i]));
                    assert(rows@[i]@[j]);
                }
            }
            lemma_positions_congruent(q_rows, q_spec, m as nat);
        }
        if let Some(t) = render_unmatchable(self.requirements, &lonely_items, &lonely_matchers) {
            return t;
        }
        let holds = decide_unordered::<T, ComponentsT>(
            self.requirements,
            &rows,
            n,
            m,
            Ghost(self.elements),
            Ghost(items),
        );
        if holds {
            return String::from_str("whose elements all match");
        }
        let ghost rel = item_rel(self.elements, items);
        assert forall|a: int, b: int| 0 <= a < m && 0 <= b < n implies #[trigger] rel(a, b) == rows@[b]@[a] by {
            assert(rows@[b]@ == results_of(self.elements, items[b]));
        }
        let (fit, used) = first_fit(&rows, n, m, Ghost(rel));
        let lines = self.render_best_match(actual, &fit, &used);
        let mut s = String::from_str("which does not have a ");
        let name = self.requirements.name();
        s.append(name.as_str());
        s.append(" match with the expected elements. The best match found was:\n");
        let joined = join_texts(&lines, "\n");
        let block = indent_text(joined.as_str(), "  ");
        proof {
            reveal_strlit("  ");
        }
        assert("  "@ =~= spaces(2));
        s.append(block.as_str());
        s
    }
}

impl<T: Debuggable, ComponentsT: Components<T>, C: Container<Item = T>> Matcher<C> for
    ContainerContainsUnorderedMatcher<T, ComponentsT> {
    open spec fn spec_matches(&self, actual: C) -> bool {
        unordered_holds(self.requirements, self.elements, actual.spec_items())
    }

    open spec fn spec_explain(&self, actual: C) -> Seq<char> {
        unordered_explanation(self.requirements, self.elements, actual.spec_items())
    }

    fn matches(&self, actual: &C) -> (r: MatcherResult) {
        MatcherResult::from_bool(self.matches_with_iter(actual))
    }

    fn explain_match(&self, actual: &C) -> (explanation: String) {
        self.explain_match_with_iter(actual)
    }
}

} // verus!
