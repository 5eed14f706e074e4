//! The matcher of values which at least one matcher of a list matches.

use crate::matcher::{is_match_spec, Describable, Matcher, MatcherResult};
use crate::matchers::all_matcher::{
    descriptions, descriptions_of, explanations, failure_explanations, failures_of, render_with_bullets,
    results, results_of, with_bullets, Components,
};
use crate::matchers::anything_matcher::Anything;
use crate::text::{bullet_list, render_bullet_list, views};
use core::marker::PhantomData;
use vstd::prelude::*;

verus! {

/// Matches a value which at least one matcher of `components` matches.
pub struct AnyMatcher<T, ComponentsT> {
    pub components: ComponentsT,
    pub phantom: PhantomData<T>,
}

impl<T, ComponentsT> AnyMatcher<T, ComponentsT> {
    /// Builds the matcher of the values which at least one matcher of
    /// `components` matches.
    pub fn new(components: ComponentsT) -> (m: Self)
        ensures
            m.components == components,
    {
        AnyMatcher { components, phantom: PhantomData }
    }
}

/// The first line of the description of a list of several matchers of which
/// one must match.
pub open spec fn any_header(matcher_result: MatcherResult) -> Seq<char> {
    if is_match_spec(matcher_result) {
        "has at least one of the following properties:"@
    } else {
        "has none of the following properties:"@
    }
}

impl<T, ComponentsT: Components<T>> Describable for AnyMatcher<T, ComponentsT> {
    open spec fn spec_describe(&self, matcher_result: MatcherResult) -> Seq<char> {
        let n = self.components.spec_count();
        if n == 0 {
            Anything.spec_describe(matcher_result)
        } else if n == 1 {
            self.components.spec_describe_at(0, matcher_result)
        } else {
            with_bullets(
                any_header(matcher_result),
                descriptions_of(self.components, matcher_result),
            )
        }
    }

    fn describe(&self, matcher_result: MatcherResult) -> (description: String) {
        let ds = descriptions(&self.components, matcher_result);
        assert(ds@.len() == views(ds@).len());
        if ds.len() == 0 {
            Anything.describe(matcher_result)
        } else if ds.len() == 1 {
            assert(views(ds@)[0] == ds@[0]@);
            ds[0].clone()
        } else {
            let header = if matcher_result.is_match() {
                "has at least one of the following properties:"
            } else {
                "has none of the following properties:"
            };
            render_with_bullets(header, &ds)
        }
    }
}

impl<T, ComponentsT: Components<T>> Matcher<T> for AnyMatcher<T, ComponentsT> {
    open spec fn spec_matches(&self, actual: T) -> bool {
        exists|i: int|
            0 <= i < self.components.spec_count() && #[trigger] self.components.spec_matches_at(
                i,
                actual,
            )
    }

    open spec fn spec_explain(&self, actual: T) -> Seq<char> {
        let n = self.components.spec_count();
        let failures = failures_of(self.components, actual);
        if n == 0 {
            "which "@ + Anything.spec_describe(MatcherResult::NoMatch)
        } else if n == 1 {
            self.components.spec_explain_at(0, actual)
        } else if failures.len() == 1 {
            failures[0]
        } else {
            bullet_list(failures)
        }
    }

    fn matches(&self, actual: &T) -> (r: MatcherResult) {
        let oks = results(&self.components, actual);
        let mut i: usize = 0;
        while i < oks.len()
            invariant
                oks@ == results_of(self.components, *actual),
                i <= oks@.len(),
                forall|j: int| 0 <= j < i ==> !#[trigger] self.components.spec_matches_at(j, *actual),
            decreases oks@.len() - i,
        {
            if oks[i] {
                assert(self.components.spec_matches_at(i as int, *actual));
                return MatcherResult::Match;
            }
            i += 1;
        }
        MatcherResult::NoMatch
    }

    fn explain_match(&self, actual: &T) -> (explanation: String) {
        let all = explanations(&self.components, actual);
        assert(all@.len() == views(all@).len());
        if all.len() == 0 {
            let mut s = String::from_str("which ");
            let d = Anything.describe(MatcherResult::NoMatch);
            s.append(d.as_str());
            s
        } else if all.len() == 1 {
            assert(views(all@)[0] == all@[0]@);
            all[0].clone()
        } else {
            let failures = failure_explanations(&self.components, actual);
            assert(failures@.len() == views(failures@).len());
            if failures.len() == 1 {
                assert(views(failures@)[0] == failures@[0]@);
                failures[0].clone()
            } else {
                render_bullet_list(&failures)
            }
        }
    }
}

/// The matcher of the values which at least one matcher of `components`
/// matches.
pub open spec fn any_of<T, ComponentsT>(components: ComponentsT) -> AnyMatcher<T, ComponentsT> {
    AnyMatcher { components, phantom: PhantomData }
}

/// With no matcher, `any` matches no value; with one matcher, it matches,
/// describes and explains as that matcher does.
pub proof fn lemma_any_of_none_or_one<T, MatcherT: Matcher<T>>(matcher: MatcherT, actual: T)
    ensures
        !any_of::<T, ()>(()).spec_matches(actual),
        any_of::<T, (MatcherT,)>((matcher,)).spec_matches(actual) == matcher.spec_matches(actual),
        any_of::<T, (MatcherT,)>((matcher,)).spec_explain(actual) == matcher.spec_explain(actual),
        forall|r: MatcherResult|
            #[trigger] any_of::<T, (MatcherT,)>((matcher,)).spec_describe(r) == matcher.spec_describe(r),
{
    let single = any_of::<T, (MatcherT,)>((matcher,));
    if matcher.spec_matches(actual) {
        assert(single.components.spec_matches_at(0, actual));
    }
}

/// At least one of two matchers matches a value exactly when one of them
/// does.
pub proof fn lemma_any_of_two<T, A: Matcher<T>, B: Matcher<T>>(a: A, b: B, actual: T)
    ensures
        any_of::<T, (A, (B,))>((a, (b,))).spec_matches(actual) == (a.spec_matches(actual)
            || b.spec_matches(actual)),
{
    let either = any_of::<T, (A, (B,))>((a, (b,)));
    if a.spec_matches(actual) {
        assert(either.components.spec_matches_at(0, actual));
    }
    if b.spec_matches(actual) {
        assert(either.components.spec_matches_at(1, actual));
    }
}

} // verus!
