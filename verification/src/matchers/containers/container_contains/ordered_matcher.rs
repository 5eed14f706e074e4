//! Matching containers whose items correspond, in order, to a list of
//! matchers.

use crate::collection::Container;
use crate::matcher::{is_match_spec, result_of, Describable, Matcher, MatcherResult};
use crate::matchers::all_matcher::{
    descriptions, descriptions_of, explanations, results, results_of, Components,
};
use crate::matchers::containers::container_contains::Requirements;
use crate::text::{
    bullet_list, decimal_usize, indent, indent_text, nat_decimal, numbered_list,
    render_bullet_list, render_numbered_list, spaces, views,
};
use crate::value::Debuggable;
use core::marker::PhantomData;
use vstd::prelude::*;

verus! {

/// Whether `f` maps the positions `k..p` of a pattern, in increasing order,
/// to positions in `x..q` of a text such that `rel` holds between each
/// pattern position and its text position.
pub open spec fn is_embedding_from(
    rel: spec_fn(int, int) -> bool,
    p: int,
    q: int,
    k: int,
    x: int,
    f: Seq<int>,
) -> bool {
    &&& f.len() == p - k
    &&& forall|t: int| 0 <= t < f.len() ==> x <= #[trigger] f[t] < q && rel(k + t, f[t])
    &&& forall|t1: int, t2: int| 0 <= t1 < t2 < f.len() ==> #[trigger] f[t1] < #[trigger] f[t2]
}

/// Whether the pattern positions `k..p` embed, in order, into the text
/// positions `x..q` under `rel`.
pub open spec fn embeds_from(rel: spec_fn(int, int) -> bool, p: int, q: int, k: int, x: int) -> bool {
    exists|f: Seq<int>| is_embedding_from(rel, p, q, k, x, f)
}

/// Whether the `p` positions of a pattern embed, in order, into the `q`
/// positions of a text under `rel`: there is a strictly increasing map from
/// pattern positions to text positions along which `rel` holds.
pub open spec fn embeds(rel: spec_fn(int, int) -> bool, p: int, q: int) -> bool {
    embeds_from(rel, p, q, 0, 0)
}

/// An empty rest of the pattern always embeds.
pub proof fn lemma_embeds_done(rel: spec_fn(int, int) -> bool, p: int, q: int, k: int, x: int)
    requires
        k == p,
    ensures
        embeds_from(rel, p, q, k, x),
{
    assert(is_embedding_from(rel, p, q, k, x, Seq::<int>::empty()));
}

/// A non-empty rest of the pattern does not embed into an empty rest of the
/// text.
pub proof fn lemma_embeds_exhausted(rel: spec_fn(int, int) -> bool, p: int, q: int, k: int, x: int)
    requires
        k < p,
        q <= x,
    ensures
        !embeds_from(rel, p, q, k, x),
{
    if embeds_from(rel, p, q, k, x) {
        let f = choose|f: Seq<int>| is_embedding_from(rel, p, q, k, x, f);
        assert(x <= f[0] < q);
    }
}

/// When the next pattern position relates to the next text position, the
/// rest of the pattern embeds exactly when the pattern after it embeds into
/// the text after it.
pub proof fn lemma_embeds_take(rel: spec_fn(int, int) -> bool, p: int, q: int, k: int, x: int)
    requires
        k < p,
        x < q,
        rel(k, x),
    ensures
        embeds_from(rel, p, q, k, x) == embeds_from(rel, p, q, k + 1, x + 1),
{
    if embeds_from(rel, p, q, k, x) {
        let f = choose|f: Seq<int>| is_embedding_from(rel, p, q, k, x, f);
        let g = f.drop_first();
        assert forall|t: int| 0 <= t < g.len() implies x + 1 <= #[trigger] g[t] < q && rel(
            k + 1 + t,
            g[t],
        ) by {
            assert(g[t] == f[t + 1]);
            assert(f[0] < f[t + 1]);
            assert(x <= f[0]);
        }
        assert forall|t1: int, t2: int| 0 <= t1 < t2 < g.len() implies #[trigger] g[t1]
            < #[trigger] g[t2] by {
            assert(g[t1] == f[t1 + 1]);
            assert(g[t2] == f[t2 + 1]);
            assert(f[t1 + 1] < f[t2 + 1]);
        }
        assert(is_embedding_from(rel, p, q, k + 1, x + 1, g));
    }
    if embeds_from(rel, p, q, k + 1, x + 1) {
        let k1 = k + 1;
        let x1 = x + 1;
        let g = choose|g: Seq<int>| is_embedding_from(rel, p, q, k1, x1, g);
        let f = seq![x] + g;
        assert forall|t: int| 0 <= t < f.len() implies x <= #[trigger] f[t] < q && rel(k + t, f[t]) by {
            if t > 0 {
                assert(f[t] == g[t - 1]);
            }
        }
        assert forall|t1: int, t2: int| 0 <= t1 < t2 < f.len() implies #[trigger] f[t1]
            < #[trigger] f[t2] by {
            if t1 == 0 {
                assert(f[t2] == g[t2 - 1]);
                assert(x + 1 <= g[t2 - 1]);
            } else {
                assert(f[t1] == g[t1 - 1]);
                assert(f[t2] == g[t2 - 1]);
            }
        }
        assert(is_embedding_from(rel, p, q, k, x, f));
    }
}

/// When the next pattern position does not relate to the next text position,
/// the rest of the pattern embeds exactly when it embeds into the text after
/// that position.
pub proof fn lemma_embeds_skip(rel: spec_fn(int, int) -> bool, p: int, q: int, k: int, x: int)
    requires
        k < p,
        x < q,
        !rel(k, x),
    ensures
        embeds_from(rel, p, q, k, x) == embeds_from(rel, p, q, k, x + 1),
{
    if embeds_from(rel, p, q, k, x) {
        let f = choose|f: Seq<int>| is_embedding_from(rel, p, q, k, x, f);
        assert forall|t: int| 0 <= t < f.len() implies x + 1 <= #[trigger] f[t] < q && rel(
            k + t,
            f[t],
        ) by {
            if t > 0 {
                assert(f[0] < f[t]);
            }
        }
        assert(is_embedding_from(rel, p, q, k, x + 1, f));
    }
    if embeds_from(rel, p, q, k, x + 1) {
        let x1 = x + 1;
        let f = choose|f: Seq<int>| is_embedding_from(rel, p, q, k, x1, f);
        assert(is_embedding_from(rel, p, q, k, x, f));
    }
}

/// How far the greedy scan gets: starting at pattern position `k` and text
/// position `x`, it moves on in both when they relate and in the text alone
/// otherwise, and stops when either is used up. The result is the pattern
/// position at which it stops.
pub open spec fn greedy_stop(rel: spec_fn(int, int) -> bool, p: int, q: int, k: int, x: int) -> int
    decreases q - x,
{
    if k >= p || x >= q {
        k
    } else if rel(k, x) {
        greedy_stop(rel, p, q, k + 1, x + 1)
    } else {
        greedy_stop(rel, p, q, k, x + 1)
    }
}

/// The greedy scan decides embedding: the pattern embeds exactly when the
/// scan uses it all up.
pub proof fn lemma_greedy_decides(rel: spec_fn(int, int) -> bool, p: int, q: int, k: int, x: int)
    requires
        0 <= k <= p,
        0 <= x,
    ensures
        k <= greedy_stop(rel, p, q, k, x) <= p,
        (greedy_stop(rel, p, q, k, x) == p) == embeds_from(rel, p, q, k, x),
    decreases q - x,
{
    if k == p {
        lemma_embeds_done(rel, p, q, k, x);
    } else if x >= q {
        lemma_embeds_exhausted(rel, p, q, k, x);
    } else if rel(k, x) {
        lemma_embeds_take(rel, p, q, k, x);
        lemma_greedy_decides(rel, p, q, k + 1, x + 1);
    } else {
        lemma_embeds_skip(rel, p, q, k, x);
        lemma_greedy_decides(rel, p, q, k, x + 1);
    }
}

/// The greedy scan with a shorter pattern stops where the scan with the
/// longer one stops, or at the end of the shorter pattern if that comes
/// first.
pub proof fn lemma_greedy_stop_shorter(
    rel: spec_fn(int, int) -> bool,
    p: int,
    m: int,
    q: int,
    k: int,
    x: int,
)
    requires
        0 <= k <= m <= p,
        0 <= x,
    ensures
        greedy_stop(rel, m, q, k, x) == if m < greedy_stop(rel, p, q, k, x) {
            m
        } else {
            greedy_stop(rel, p, q, k, x)
        },
    decreases q - x,
{
    lemma_greedy_decides(rel, p, q, k, x);
    if k >= m || x >= q {
    } else if rel(k, x) {
        lemma_greedy_stop_shorter(rel, p, m, q, k + 1, x + 1);
    } else {
        lemma_greedy_stop_shorter(rel, p, m, q, k, x + 1);
    }
}

/// The greedy scan finds the longest prefix of the pattern which embeds in
/// order: the first `m` pattern positions embed into the text exactly when
/// `m` is at most the position where the scan stops.
pub proof fn lemma_greedy_longest_prefix(rel: spec_fn(int, int) -> bool, p: int, q: int)
    requires
        0 <= p,
    ensures
        forall|m: int|
            0 <= m <= p ==> (#[trigger] embeds(rel, m, q) <==> m <= greedy_stop(rel, p, q, 0, 0)),
{
    assert forall|m: int| 0 <= m <= p implies (#[trigger] embeds(rel, m, q) <==> m <= greedy_stop(
        rel,
        p,
        q,
        0,
        0,
    )) by {
        lemma_greedy_stop_shorter(rel, p, m, q, 0, 0);
        lemma_greedy_decides(rel, m, q, 0, 0);
    }
}

/// The relation "matcher `j` of `elements` matches item `i` of `items`".
pub open spec fn item_rel<T, E: Components<T>>(elements: E, items: Seq<T>) -> spec_fn(int, int) -> bool {
    |j: int, i: int| elements.spec_matches_at(j, items[i])
}

/// `rel` with its two arguments swapped.
pub open spec fn flipped(rel: spec_fn(int, int) -> bool) -> spec_fn(int, int) -> bool {
    |a: int, b: int| rel(b, a)
}

/// Whether the items `items` correspond in order to the matchers of
/// `elements` as `requirements` demand:
/// - `PerfectMatch`: as many items as matchers, and each matcher matches the
///   item at its own position;
/// - `Superset`: the matchers match items at strictly increasing positions;
/// - `Subset`: the items are matched by matchers at strictly increasing
///   positions.
pub open spec fn ordered_holds<T, E: Components<T>>(
    requirements: Requirements,
    elements: E,
    items: Seq<T>,
) -> bool {
    let n = items.len() as int;
    let m = elements.spec_count() as int;
    match requirements {
        Requirements::PerfectMatch => n == m && forall|k: int|
            0 <= k < n ==> #[trigger] elements.spec_matches_at(k, items[k]),
        Requirements::Superset => embeds(item_rel(elements, items), m, n),
        Requirements::Subset => embeds(flipped(item_rel(elements, items)), n, m),
    }
}

/// For each item of `actual`, whether each matcher of `elements` matches it.
pub fn match_table<C: Container, E: Components<C::Item>>(elements: &E, actual: &C) -> (rows: Vec<
    Vec<bool>,
>)
    ensures
        rows@.len() == actual.spec_items().len(),
        forall|i: int|
            0 <= i < rows@.len() ==> #[trigger] rows@[i]@ == results_of(
                *elements,
                actual.spec_items()[i],
            ),
{
    let ghost items = actual.spec_items();
    let n = actual.count();
    let mut rows: Vec<Vec<bool>> = Vec::new();
    let mut i: usize = 0;
    while i < n
        invariant
            n == items.len(),
            items == actual.spec_items(),
            i <= n,
            rows@.len() == i,
            forall|k: int| 0 <= k < i ==> #[trigger] rows@[k]@ == results_of(*elements, items[k]),
        decreases n - i,
    {
        let row = results(elements, actual.item(i));
        rows.push(row);
        i += 1;
    }
    rows
}

/// Whether the table `rows` has `n` rows of `m` entries.
pub open spec fn table_shape(rows: Seq<Vec<bool>>, n: int, m: int) -> bool {
    rows.len() == n && forall|i: int| 0 <= i < n ==> (#[trigger] rows[i])@.len() == m
}

/// Runs the greedy scan on the table `rows` of `n` items by `m` matchers. With
/// `matchers_first`, the pattern is the list of matchers and the text the
/// list of items; otherwise the other way round. Returns whether the scan
/// used the pattern up, and the pattern position at which it stopped.
fn scan_greedily(
    rows: &Vec<Vec<bool>>,
    n: usize,
    m: usize,
    matchers_first: bool,
    Ghost(pat): Ghost<spec_fn(int, int) -> bool>,
) -> (r: (bool, usize))
    requires
        table_shape(rows@, n as int, m as int),
        matchers_first ==> forall|k: int, x: int|
            0 <= k < m && 0 <= x < n ==> #[trigger] pat(k, x) == rows@[x]@[k],
        !matchers_first ==> forall|k: int, x: int|
            0 <= k < n && 0 <= x < m ==> #[trigger] pat(k, x) == rows@[k]@[x],
    ensures
        ({
            let (p, q) = if matchers_first {
                (m as int, n as int)
            } else {
                (n as int, m as int)
            };
            &&& r.0 == embeds(pat, p, q)
            &&& r.1 as int == greedy_stop(pat, p, q, 0, 0)
        }),
{
    let (p, q) = if matchers_first {
        (m, n)
    } else {
        (n, m)
    };
    let mut k: usize = 0;
    let mut x: usize = 0;
    proof {
        lemma_greedy_decides(pat, p as int, q as int, 0, 0);
    }
    while k < p && x < q
        invariant
            table_shape(rows@, n as int, m as int),
            matchers_first ==> forall|k: int, x: int|
                0 <= k < m && 0 <= x < n ==> #[trigger] pat(k, x) == rows@[x]@[k],
            !matchers_first ==> forall|k: int, x: int|
                0 <= k < n && 0 <= x < m ==> #[trigger] pat(k, x) == rows@[k]@[x],
            (p, q) == if matchers_first {
                (m, n)
            } else {
                (n, m)
            },
            k <= p,
            x <= q,
            greedy_stop(pat, p as int, q as int, 0, 0) == greedy_stop(
                pat,
                p as int,
                q as int,
                k as int,
                x as int,
            ),
        decreases q - x,
    {
        let related = if matchers_first {
            rows[x][k]
        } else {
            rows[k][x]
        };
        if related {
            k += 1;
        }
        x += 1;
    }
    proof {
        lemma_greedy_decides(pat, p as int, q as int, 0, 0);
    }
    (k == p, k)
}

/// Matches a container whose items correspond in order to a list of
/// matchers, as its [`Requirements`] demand.
pub struct ContainerContainsOrderedMatcher<T, ComponentsT> {
    pub elements: ComponentsT,
    pub requirements: Requirements,
    pub phantom: PhantomData<T>,
}

impl<T, ComponentsT> ContainerContainsOrderedMatcher<T, ComponentsT> {
    /// Builds the matcher of containers whose items correspond in order to
    /// the matchers `elements` as `requirements` demand.
    pub fn new(elements: ComponentsT, requirements: Requirements) -> (m: Self)
        ensures
            m.elements == elements,
            m.requirements == requirements,
    {
        ContainerContainsOrderedMatcher { elements, requirements, phantom: PhantomData }
    }
}

/// The description of a list of matchers which items match in order.
pub open spec fn ordered_description<T, E: Components<T>>(
    elements: E,
    matcher_result: MatcherResult,
) -> Seq<char> {
    (if is_match_spec(matcher_result) {
        "has"@
    } else {
        "doesn't have"@
    }) + " elements:\n"@ + indent(
        numbered_list(descriptions_of(elements, MatcherResult::Match)),
        spaces(2),
    )
}

impl<T, ComponentsT: Components<T>> Describable for ContainerContainsOrderedMatcher<T, ComponentsT> {
    open spec fn spec_describe(&self, matcher_result: MatcherResult) -> Seq<char> {
        ordered_description(self.elements, matcher_result)
    }

    fn describe(&self, matcher_result: MatcherResult) -> (description: String) {
        let mut s = if matcher_result.is_match() {
            String::from_str("has")
        } else {
            String::from_str("doesn't have")
        };
        s.append(" elements:\n");
        let ds = descriptions(&self.elements, MatcherResult::Match);
        let list = render_numbered_list(&ds);
        let block = indent_text(list.as_str(), "  ");
        proof {
            reveal_strlit("  ");
        }
        assert("  "@ =~= spaces(2));
        s.append(block.as_str());
        s
    }
}

/// The mismatch lines, for positions below `upto`, of a positionwise
/// comparison of `items` with the matchers of `elements`.
pub open spec fn positional_mismatches<T: Debuggable, E: Components<T>>(
    elements: E,
    items: Seq<T>,
    upto: nat,
) -> Seq<Seq<char>>
    decreases upto,
{
    if upto == 0 {
        seq![]
    } else {
        let k = upto - 1;
        let prev = positional_mismatches(elements, items, k as nat);
        if elements.spec_matches_at(k, items[k]) {
            prev
        } else {
            prev.push(
                "element #"@ + nat_decimal(k as nat) + " is "@ + items[k].spec_debug() + ", "@
                    + elements.spec_explain_at(k, items[k]),
            )
        }
    }
}

/// The explanation of an ordered match against `items`.
pub open spec fn ordered_explanation<T: Debuggable, E: Components<T>>(
    requirements: Requirements,
    elements: E,
    items: Seq<T>,
) -> Seq<char> {
    let n = items.len() as int;
    let m = elements.spec_count() as int;
    match requirements {
        Requirements::PerfectMatch => {
            let shared = if n < m {
                n
            } else {
                m
            };
            let ms = positional_mismatches(elements, items, shared as nat);
            if ms.len() == 0 {
                if n == m {
                    "whose elements all match"@
                } else {
                    "whose size is "@ + nat_decimal(n as nat)
                }
            } else if ms.len() == 1 {
                "where "@ + ms[0]
            } else {
                "where:\n"@ + indent(bullet_list(ms), spaces(2))
            }
        },
        Requirements::Superset => {
            let stop = greedy_stop(item_rel(elements, items), m, n, 0, 0);
            if stop < m {
                "where matcher #"@ + nat_decimal(stop as nat) + " does not match any following elements"@
            } else {
                "where all elements are present"@
            }
        },
        Requirements::Subset => {
            let stop = greedy_stop(flipped(item_rel(elements, items)), n, m, 0, 0);
            if stop < n {
                "where element #"@ + nat_decimal(stop as nat)
                    + " is not matched by any following matcher"@
            } else {
                "where all elements are matched"@
            }
        },
    }
}

impl<T, ComponentsT: Components<T>> ContainerContainsOrderedMatcher<T, ComponentsT> {
    /// Whether the items of `actual` correspond to the matchers as the
    /// requirements demand.
    fn matches_with_iter<C: Container<Item = T>>(&self, actual: &C) -> (r: bool)
        ensures
            r == ordered_holds(self.requirements, self.elements, actual.spec_items()),
    {
        let ghost items = actual.spec_items();
        let ghost rel = item_rel(self.elements, items);
        let rows = match_table(&self.elements, actual);
        let n = actual.count();
        let m = self.elements_count();
        assert(table_shape(rows@, n as int, m as int));
        match self.requirements {
            Requirements::PerfectMatch => {
                if n != m {
                    return false;
                }
                let mut k: usize = 0;
                while k < n
                    invariant
                        self.requirements == Requirements::PerfectMatch,
                        items == actual.spec_items(),
                        n == m,
                        n == items.len(),
                        m == self.elements.spec_count(),
                        table_shape(rows@, n as int, m as int),
                        forall|i: int| 0 <= i < n ==> #[trigger] rows@[i]@ == results_of(self.elements, items[i]),
                        k <= n,
                        forall|j: int| 0 <= j < k ==> #[trigger] self.elements.spec_matches_at(j, items[j]),
                    decreases n - k,
                {
                    assert(rows@[k as int]@ == results_of(self.elements, items[k as int]));
                    if !rows[k][k] {
                        return false;
                    }
                    k += 1;
                }
                true
            },
            Requirements::Superset => {
                let (found, _) = scan_greedily(&rows, n, m, true, Ghost(rel));
                found
            },
            Requirements::Subset => {
                let (found, _) = scan_greedily(&rows, n, m, false, Ghost(flipped(rel)));
                found
            },
        }
    }

    /// The number of matchers.
    fn elements_count(&self) -> (m: usize)
        ensures
            m == self.elements.spec_count(),
    {
        let ds = descriptions(&self.elements, MatcherResult::Match);
        assert(ds@.len() == views(ds@).len());
        ds.len()
    }
}


impl<T: Debuggable, ComponentsT: Components<T>> ContainerContainsOrderedMatcher<T, ComponentsT> {
    /// Explains how the items of `actual` correspond to the matchers.
    fn explain_match_with_iter<C: Container<Item = T>>(&self, actual: &C) -> (s: String)
        ensures
            s@ == ordered_explanation(self.requirements, self.elements, actual.spec_items()),
    {
        let ghost items = actual.spec_items();
        let ghost rel = item_rel(self.elements, items);
        let rows = match_table(&self.elements, actual);
        let n = actual.count();
        let m = self.elements_count();
        assert(table_shape(rows@, n as int, m as int));
        match self.requirements {
            Requirements::PerfectMatch => {
                let shared = if n < m {
                    n
                } else {
                    m
                };
                let mut ms: Vec<String> = Vec::new();
                let mut k: usize = 0;
                while k < shared
                    invariant
                        self.requirements == Requirements::PerfectMatch,
                        items == actual.spec_items(),
                        n == items.len(),
                        m == self.elements.spec_count(),
                        shared <= n,
                        shared <= m,
                        table_shape(rows@, n as int, m as int),
                        forall|i: int| 0 <= i < n ==> #[trigger] rows@[i]@ == results_of(self.elements, items[i]),
                        k <= shared,
                        views(ms@) == positional_mismatches(self.elements, items, k as nat),
                    decreases shared - k,
                {
                    assert(rows@[k as int]@ == results_of(self.elements, items[k as int]));
                    if !rows[k][k] {
                        let item = actual.item(k);
                        let mut line = String::from_str("element #");
                        let d = decimal_usize(k);
                        line.append(d.as_str());
                        line.append(" is ");
                        let v = item.debug();
                        line.append(v.as_str());
                        line.append(", ");
                        let es = explanations(&self.elements, item);
                        assert(es@.len() == views(es@).len());
                        assert(views(es@)[k as int] == es@[k as int]@);
                        line.append(es[k].as_str());
                        let ghost before = ms@;
                        ms.push(line);
                        assert(views(ms@) =~= views(before).push(line@));
                    }
                    k += 1;
                }
                assert(ms@.len() == views(ms@).len());
                if ms.len() == 0 {
                    if n == m {
                        String::from_str("whose elements all match")
                    } else {
                        let mut s = String::from_str("whose size is ");
                        let d = decimal_usize(n);
                        s.append(d.as_str());
                        s
                    }
                } else if ms.len() == 1 {
                    assert(views(ms@)[0] == ms@[0]@);
                    let mut s = String::from_str("where ");
                    s.append(ms[0].as_str());
                    s
                } else {
                    let mut s = String::from_str("where:\n");
                    let list = render_bullet_list(&ms);
                    let block = indent_text(list.as_str(), "  ");
                    proof {
                        reveal_strlit("  ");
                    }
                    assert("  "@ =~= spaces(2));
                    s.append(block.as_str());
                    s
                }
            },
            Requirements::Superset => {
                let (_, stop) = scan_greedily(&rows, n, m, true, Ghost(rel));
                if stop < m {
                    let mut s = String::from_str("where matcher #");
                    let d = decimal_usize(stop);
                    s.append(d.as_str());
                    s.append(" does not match any following elements");
                    s
                } else {
                    String::from_str("where all elements are present")
                }
            },
            Requirements::Subset => {
                let (_, stop) = scan_greedily(&rows, n, m, false, Ghost(flipped(rel)));
                if stop < n {
                    let mut s = String::from_str("where element #");
                    let d = decimal_usize(stop);
                    s.append(d.as_str());
                    s.append(" is not matched by any following matcher");
                    s
                } else {
                    String::from_str("where all elements are matched")
                }
            },
        }
    }
}

impl<T: Debuggable, ComponentsT: Components<T>, C: Container<Item = T>> Matcher<C> for
    ContainerContainsOrderedMatcher<T, ComponentsT> {
    open spec fn spec_matches(&self, actual: C) -> bool {
        ordered_holds(self.requirements, self.elements, actual.spec_items())
    }

    open spec fn spec_explain(&self, actual: C) -> Seq<char> {
        ordered_explanation(self.requirements, self.elements, actual.spec_items())
    }

    fn matches(&self, actual: &C) -> (r: MatcherResult) {
        MatcherResult::from_bool(self.matches_with_iter(actual))
    }

    fn explain_match(&self, actual: &C) -> (explanation: String) {
        self.explain_match_with_iter(actual)
    }
}

} // verus!
