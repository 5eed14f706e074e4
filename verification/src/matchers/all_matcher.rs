//! Lists of matchers, and the matcher of values which all matchers of a list
//! match.

use crate::matcher::{is_match_spec, result_of, Describable, Matcher, MatcherResult};
use crate::matchers::anything_matcher::Anything;
use crate::text::{bullet_list, indent, indent_text, render_bullet_list, spaces, views};
use core::marker::PhantomData;
use vstd::prelude::*;

verus! {

/// A list of matchers against values of type `T`, held as a nested tuple —
/// `()`, `(a,)`, `(a, (b,))`, `(a, (b, (c,)))` and so on — or as a `Vec` of
/// matchers of one type.
pub trait Components<T> {
    /// The number of matchers.
    spec fn spec_count(&self) -> nat;

    /// Whether the matcher at position `i` matches `actual`.
    spec fn spec_matches_at(&self, i: int, actual: T) -> bool;

    /// The description of the matcher at position `i`.
    spec fn spec_describe_at(&self, i: int, matcher_result: MatcherResult) -> Seq<char>;

    /// The explanation by the matcher at position `i` of `actual`.
    spec fn spec_explain_at(&self, i: int, actual: T) -> Seq<char>;

    /// Appends to `out` whether each matcher, in turn, matches `actual`.
    fn push_results(&self, actual: &T, out: &mut Vec<bool>)
        ensures
            final(out)@ == old(out)@ + Seq::new(
                self.spec_count(),
                |i: int| self.spec_matches_at(i, *actual),
            ),
    ;

    /// Appends to `out` the description of each matcher, in turn.
    fn push_descriptions(&self, matcher_result: MatcherResult, out: &mut Vec<String>)
        ensures
            views(final(out)@) == views(old(out)@) + Seq::new(
                self.spec_count(),
                |i: int| self.spec_describe_at(i, matcher_result),
            ),
    ;

    /// Appends to `out` the explanation of `actual` by each matcher, in turn.
    fn push_explanations(&self, actual: &T, out: &mut Vec<String>)
        ensures
            views(final(out)@) == views(old(out)@) + Seq::new(
                self.spec_count(),
                |i: int| self.spec_explain_at(i, *actual),
            ),
    ;
}

impl<T> Components<T> for () {
    open spec fn spec_count(&self) -> nat {
        0
    }

    open spec fn spec_matches_at(&self, i: int, actual: T) -> bool {
        false
    }

    open spec fn spec_describe_at(&self, i: int, matcher_result: MatcherResult) -> Seq<char> {
        seq![]
    }

    open spec fn spec_explain_at(&self, i: int, actual: T) -> Seq<char> {
        seq![]
    }

    fn push_results(&self, actual: &T, out: &mut Vec<bool>) {
        assert(out@ =~= out@ + Seq::<bool>::empty());
    }

    fn push_descriptions(&self, matcher_result: MatcherResult, out: &mut Vec<String>) {
        assert(views(out@) =~= views(out@) + Seq::<Seq<char>>::empty());
    }

    fn push_explanations(&self, actual: &T, out: &mut Vec<String>) {
        assert(views(out@) =~= views(out@) + Seq::<Seq<char>>::empty());
    }
}

impl<T, MatcherT: Matcher<T>> Components<T> for (MatcherT,) {
    open spec fn spec_count(&self) -> nat {
        1
    }

    open spec fn spec_matches_at(&self, i: int, actual: T) -> bool {
        self.0.spec_matches(actual)
    }

    open spec fn spec_describe_at(&self, i: int, matcher_result: MatcherResult) -> Seq<char> {
        self.0.spec_describe(matcher_result)
    }

    open spec fn spec_explain_at(&self, i: int, actual: T) -> Seq<char> {
        self.0.spec_explain(actual)
    }

    fn push_results(&self, actual: &T, out: &mut Vec<bool>) {
        let r = self.0.matches(actual).is_match();
        out.push(r);
        assert(out@ =~= old(out)@ + Seq::new(1, |i: int| self.spec_matches_at(i, *actual)));
    }

    fn push_descriptions(&self, matcher_result: MatcherResult, out: &mut Vec<String>) {
        let d = self.0.describe(matcher_result);
        out.push(d);
        assert(views(out@) =~= views(old(out)@) + Seq::new(
            1,
            |i: int| self.spec_describe_at(i, matcher_result),
        ));
    }

    fn push_explanations(&self, actual: &T, out: &mut Vec<String>) {
        let e = self.0.explain_match(actual);
        out.push(e);
        assert(views(out@) =~= views(old(out)@) + Seq::new(
            1,
            |i: int| self.spec_explain_at(i, *actual),
        ));
    }
}

impl<T, MatcherT: Matcher<T>, RestT: Components<T>> Components<T> for (MatcherT, RestT) {
    open spec fn spec_count(&self) -> nat {
        1 + self.1.spec_count()
    }

    open spec fn spec_matches_at(&self, i: int, actual: T) -> bool {
        if i == 0 {
            self.0.spec_matches(actual)
        } else {
            self.1.spec_matches_at(i - 1, actual)
        }
    }

    open spec fn spec_describe_at(&self, i: int, matcher_result: MatcherResult) -> Seq<char> {
        if i == 0 {
            self.0.spec_describe(matcher_result)
        } else {
            self.1.spec_describe_at(i - 1, matcher_result)
        }
    }

    open spec fn spec_explain_at(&self, i: int, actual: T) -> Seq<char> {
        if i == 0 {
            self.0.spec_explain(actual)
        } else {
            self.1.spec_explain_at(i - 1, actual)
        }
    }

    fn push_results(&self, actual: &T, out: &mut Vec<bool>) {
        let r = self.0.matches(actual).is_match();
        out.push(r);
        let ghost mid = out@;
        self.1.push_results(actual, out);
        assert(out@ =~= old(out)@ + Seq::new(
            self.spec_count(),
            |i: int| self.spec_matches_at(i, *actual),
        ));
    }

    fn push_descriptions(&self, matcher_result: MatcherResult, out: &mut Vec<String>) {
        let d = self.0.describe(matcher_result);
        out.push(d);
        assert(views(out@) =~= views(old(out)@).push(self.0.spec_describe(matcher_result)));
        self.1.push_descriptions(matcher_result, out);
        assert(views(out@) =~= views(old(out)@) + Seq::new(
            self.spec_count(),
            |i: int| self.spec_describe_at(i, matcher_result),
        ));
    }

    fn push_explanations(&self, actual: &T, out: &mut Vec<String>) {
        let e = self.0.explain_match(actual);
        out.push(e);
        assert(views(out@) =~= views(old(out)@).push(self.0.spec_explain(*actual)));
        self.1.push_explanations(actual, out);
        assert(views(out@) =~= views(old(out)@) + Seq::new(
            self.spec_count(),
            |i: int| self.spec_explain_at(i, *actual),
        ));
    }
}

impl<T, MatcherT: Matcher<T>> Components<T> for Vec<MatcherT> {
    open spec fn spec_count(&self) -> nat {
        self@.len()
    }

    open spec fn spec_matches_at(&self, i: int, actual: T) -> bool {
        self@[i].spec_matches(actual)
    }

    open spec fn spec_describe_at(&self, i: int, matcher_result: MatcherResult) -> Seq<char> {
        self@[i].spec_describe(matcher_result)
    }

    open spec fn spec_explain_at(&self, i: int, actual: T) -> Seq<char> {
        self@[i].spec_explain(actual)
    }

    fn push_results(&self, actual: &T, out: &mut Vec<bool>) {
        let ghost start = out@;
        let mut i: usize = 0;
        while i < self.len()
            invariant
                i <= self@.len(),
                out@ == start + Seq::new(i as nat, |k: int| self.spec_matches_at(k, *actual)),
            decreases self@.len() - i,
        {
            let r = self[i].matches(actual).is_match();
            out.push(r);
            i += 1;
            assert(out@ =~= start + Seq::new(i as nat, |k: int| self.spec_matches_at(k, *actual)));
        }
    }

    fn push_descriptions(&self, matcher_result: MatcherResult, out: &mut Vec<String>) {
        let ghost start = views(out@);
        let mut i: usize = 0;
        assert(views(out@) =~= start + Seq::new(
            0,
            |k: int| self.spec_describe_at(k, matcher_result),
        ));
        while i < self.len()
            invariant
                i <= self@.len(),
                views(out@) == start + Seq::new(
                    i as nat,
                    |k: int| self.spec_describe_at(k, matcher_result),
                ),
            decreases self@.len() - i,
        {
            let d = self[i].describe(matcher_result);
            let ghost before = out@;
            out.push(d);
            assert(views(out@) =~= views(before).push(self@[i as int].spec_describe(matcher_result)));
            i += 1;
            assert(views(out@) =~= start + Seq::new(
                i as nat,
                |k: int| self.spec_describe_at(k, matcher_result),
            ));
        }
    }

    fn push_explanations(&self, actual: &T, out: &mut Vec<String>) {
        let ghost start = views(out@);
        let mut i: usize = 0;
        assert(views(out@) =~= start + Seq::new(0, |k: int| self.spec_explain_at(k, *actual)));
        while i < self.len()
            invariant
                i <= self@.len(),
                views(out@) == start + Seq::new(i as nat, |k: int| self.spec_explain_at(k, *actual)),
            decreases self@.len() - i,
        {
            let e = self[i].explain_match(actual);
            let ghost before = out@;
            out.push(e);
            assert(views(out@) =~= views(before).push(self@[i as int].spec_explain(*actual)));
            i += 1;
            assert(views(out@) =~= start + Seq::new(
                i as nat,
                |k: int| self.spec_explain_at(k, *actual),
            ));
        }
    }
}


/// The descriptions of the matchers of `components`, in order.
pub open spec fn descriptions_of<T, C: Components<T>>(
    components: C,
    matcher_result: MatcherResult,
) -> Seq<Seq<char>> {
    Seq::new(components.spec_count(), |i: int| components.spec_describe_at(i, matcher_result))
}

/// The explanations of `actual` by the matchers of `components`, in order.
pub open spec fn explanations_of<T, C: Components<T>>(components: C, actual: T) -> Seq<Seq<char>> {
    Seq::new(components.spec_count(), |i: int| components.spec_explain_at(i, actual))
}

/// Whether the matchers of `components` at positions below `n` match
/// `actual`, in order.
pub open spec fn results_of<T, C: Components<T>>(components: C, actual: T) -> Seq<bool> {
    Seq::new(components.spec_count(), |i: int| components.spec_matches_at(i, actual))
}

/// The explanations of `actual` by those matchers at positions below `n` of
/// `components` which do not match it, in order.
pub open spec fn failures_below<T, C: Components<T>>(components: C, actual: T, n: nat) -> Seq<
    Seq<char>,
>
    decreases n,
{
    if n == 0 {
        seq![]
    } else {
        let prev = failures_below(components, actual, (n - 1) as nat);
        if components.spec_matches_at(n - 1, actual) {
            prev
        } else {
            prev.push(components.spec_explain_at(n - 1, actual))
        }
    }
}

/// The explanations of `actual` by the matchers of `components` which do not
/// match it, in order.
pub open spec fn failures_of<T, C: Components<T>>(components: C, actual: T) -> Seq<Seq<char>> {
    failures_below(components, actual, components.spec_count())
}

/// The descriptions of every matcher of `components`.
pub fn descriptions<T, C: Components<T>>(components: &C, matcher_result: MatcherResult) -> (r: Vec<
    String,
>)
    ensures
        views(r@) == descriptions_of(*components, matcher_result),
{
    let mut out: Vec<String> = Vec::new();
    components.push_descriptions(matcher_result, &mut out);
    assert(views(out@) =~= descriptions_of(*components, matcher_result));
    out
}

/// The explanations of `actual` by every matcher of `components`.
pub fn explanations<T, C: Components<T>>(components: &C, actual: &T) -> (r: Vec<String>)
    ensures
        views(r@) == explanations_of(*components, *actual),
{
    let mut out: Vec<String> = Vec::new();
    components.push_explanations(actual, &mut out);
    assert(views(out@) =~= explanations_of(*components, *actual));
    out
}

/// Whether each matcher of `components` matches `actual`.
pub fn results<T, C: Components<T>>(components: &C, actual: &T) -> (r: Vec<bool>)
    ensures
        r@ == results_of(*components, *actual),
{
    let mut out: Vec<bool> = Vec::new();
    components.push_results(actual, &mut out);
    assert(out@ =~= results_of(*components, *actual));
    out
}

/// The explanations of `actual` by every matcher of `components` which does
/// not match it.
pub fn failure_explanations<T, C: Components<T>>(components: &C, actual: &T) -> (r: Vec<String>)
    ensures
        views(r@) == failures_of(*components, *actual),
{
    let oks = results(components, actual);
    let all = explanations(components, actual);
    assert(all@.len() == views(all@).len());
    let mut out: Vec<String> = Vec::new();
    let mut i: usize = 0;
    while i < oks.len()
        invariant
            oks@ == results_of(*components, *actual),
            views(all@) == explanations_of(*components, *actual),
            all@.len() == oks@.len(),
            i <= oks@.len(),
            views(out@) == failures_below(*components, *actual, i as nat),
        decreases oks@.len() - i,
    {
        if !oks[i] {
            let e = all[i].clone();
            let ghost before = out@;
            out.push(e);
            assert(views(all@)[i as int] == components.spec_explain_at(i as int, *actual));
            assert(views(out@) =~= views(before).push(components.spec_explain_at(i as int, *actual)));
        }
        i += 1;
    }
    out
}

/// Matches a value which every matcher of `components` matches.
pub struct AllMatcher<T, ComponentsT> {
    pub components: ComponentsT,
    pub phantom: PhantomData<T>,
}

impl<T, ComponentsT> AllMatcher<T, ComponentsT> {
    /// Builds the matcher of the values which every matcher of `components`
    /// matches.
    pub fn new(components: ComponentsT) -> (m: Self)
        ensures
            m.components == components,
    {
        AllMatcher { components, phantom: PhantomData }
    }
}

/// The first line of the description of a list of several matchers of
/// which all must match.
pub open spec fn all_header(matcher_result: MatcherResult) -> Seq<char> {
    if is_match_spec(matcher_result) {
        "has all the following properties:"@
    } else {
        "has at least one of the following properties:"@
    }
}

/// A header followed, on the next lines, by the bullet list of `items`,
/// indented by two spaces.
pub open spec fn with_bullets(header: Seq<char>, items: Seq<Seq<char>>) -> Seq<char> {
    header + "\n"@ + indent(bullet_list(items), spaces(2))
}

/// Renders [`with_bullets`] of `header` and `items`.
pub fn render_with_bullets(header: &str, items: &Vec<String>) -> (s: String)
    ensures
        s@ == with_bullets(header@, views(items@)),
{
    let mut s = String::from_str(header);
    s.append("\n");
    let list = render_bullet_list(items);
    let block = indent_text(list.as_str(), "  ");
    proof {
        reveal_strlit("  ");
    }
    assert("  "@ =~= spaces(2));
    s.append(block.as_str());
    s
}

impl<T, ComponentsT: Components<T>> Describable for AllMatcher<T, ComponentsT> {
    open spec fn spec_describe(&self, matcher_result: MatcherResult) -> Seq<char> {
        let n = self.components.spec_count();
        if n == 0 {
            Anything.spec_describe(matcher_result)
        } else if n == 1 {
            self.components.spec_describe_at(0, matcher_result)
        } else {
            with_bullets(
                all_header(matcher_result),
                descriptions_of(self.components, matcher_result),
            )
        }
    }

    fn describe(&self, matcher_result: MatcherResult) -> (description: String) {
        let ds = descriptions(&self.components, matcher_result);
        assert(ds@.len() == views(ds@).len());
        if ds.len() == 0 {
            Anything.describe(matcher_result)
        } else if ds.len() == 1 {
            assert(views(ds@)[0] == ds@[0]@);
            ds[0].clone()
        } else {
            let header = if matcher_result.is_match() {
                "has all the following properties:"
            } else {
                "has at least one of the following properties:"
            };
            render_with_bullets(header, &ds)
        }
    }
}

impl<T, ComponentsT: Components<T>> Matcher<T> for AllMatcher<T, ComponentsT> {
    open spec fn spec_matches(&self, actual: T) -> bool {
        forall|i: int|
            0 <= i < self.components.spec_count() ==> #[trigger] self.components.spec_matches_at(
                i,
                actual,
            )
    }

    open spec fn spec_explain(&self, actual: T) -> Seq<char> {
        let n = self.components.spec_count();
        let failures = failures_of(self.components, actual);
        if n == 0 {
            "which "@ + Anything.spec_describe(MatcherResult::Match)
        } else if n == 1 {
            self.components.spec_explain_at(0, actual)
        } else if failures.len() == 1 {
            failures[0]
        } else {
            bullet_list(failures)
        }
    }

    fn matches(&self, actual: &T) -> (r: MatcherResult) {
        let oks = results(&self.components, actual);
        let mut i: usize = 0;
        while i < oks.len()
            invariant
                oks@ == results_of(self.components, *actual),
                i <= oks@.len(),
                forall|j: int| 0 <= j < i ==> #[trigger] self.components.spec_matches_at(j, *actual),
            decreases oks@.len() - i,
        {
            if !oks[i] {
                return MatcherResult::NoMatch;
            }
            i += 1;
        }
        MatcherResult::Match
    }

    fn explain_match(&self, actual: &T) -> (explanation: String) {
        let all = explanations(&self.components, actual);
        assert(all@.len() == views(all@).len());
        if all.len() == 0 {
            let mut s = String::from_str("which ");
            let d = Anything.describe(MatcherResult::Match);
            s.append(d.as_str());
            s
        } else if all.len() == 1 {
            assert(views(all@)[0] == all@[0]@);
            all[0].clone()
        } else {
            let failures = failure_explanations(&self.components, actual);
            assert(failures@.len() == views(failures@).len());
            if failures.len() == 1 {
                assert(views(failures@)[0] == failures@[0]@);
                failures[0].clone()
            } else {
                render_bullet_list(&failures)
            }
        }
    }
}

/// The matcher of the values which every matcher of `components` matches.
pub open spec fn all_of<T, ComponentsT>(components: ComponentsT) -> AllMatcher<T, ComponentsT> {
    AllMatcher { components, phantom: PhantomData }
}

/// With no matcher, `all` matches every value; with one matcher, it
/// matches, describes and explains as that matcher does.
pub proof fn lemma_all_of_none_or_one<T, MatcherT: Matcher<T>>(matcher: MatcherT, actual: T)
    ensures
        all_of::<T, ()>(()).spec_matches(actual),
        all_of::<T, (MatcherT,)>((matcher,)).spec_matches(actual) == matcher.spec_matches(actual),
        all_of::<T, (MatcherT,)>((matcher,)).spec_explain(actual) == matcher.spec_explain(actual),
        forall|r: MatcherResult|
            #[trigger] all_of::<T, (MatcherT,)>((matcher,)).spec_describe(r) == matcher.spec_describe(r),
{
    let single = all_of::<T, (MatcherT,)>((matcher,));
    if single.spec_matches(actual) {
        assert(single.components.spec_matches_at(0, actual));
    }
}

/// Two matchers all match a value exactly when each of them does.
pub proof fn lemma_all_of_two<T, A: Matcher<T>, B: Matcher<T>>(a: A, b: B, actual: T)
    ensures
        all_of::<T, (A, (B,))>((a, (b,))).spec_matches(actual) == (a.spec_matches(actual)
            && b.spec_matches(actual)),
{
    let both = all_of::<T, (A, (B,))>((a, (b,)));
    if both.spec_matches(actual) {
        assert(both.components.spec_matches_at(0, actual));
        assert(both.components.spec_matches_at(1, actual));
    }
}

} // verus!
