//! Matching maps, given as lists of key-value pairs, by the value of a key.

use crate::collection::Container;
use crate::matcher::{result_of, Describable, Matcher, MatcherResult};
use crate::value::{Debuggable, EqualTo};
use vstd::prelude::*;

verus! {

/// The position of the first entry of `entries` whose key is equal to `key`.
pub open spec fn first_key_position<K: EqualTo<KeyT>, V, KeyT>(
    entries: Seq<(K, V)>,
    key: KeyT,
) -> Option<int>
    decreases entries.len(),
{
    if entries.len() == 0 {
        None
    } else {
        match first_key_position(entries.drop_last(), key) {
            Some(i) => Some(i),
            None => if entries.last().0.spec_equal_to(key) {
                Some(entries.len() - 1)
            } else {
                None
            },
        }
    }
}

/// The value of the first entry of `entries` whose key is equal to `key`.
pub open spec fn lookup<K: EqualTo<KeyT>, V, KeyT>(entries: Seq<(K, V)>, key: KeyT) -> Option<V> {
    match first_key_position(entries, key) {
        Some(i) => Some(entries[i].1),
        None => None,
    }
}

/// The first position holds the key, and no earlier position does.
pub proof fn lemma_first_key_position<K: EqualTo<KeyT>, V, KeyT>(entries: Seq<(K, V)>, key: KeyT)
    ensures
        match first_key_position(entries, key) {
            Some(i) => 0 <= i < entries.len() && entries[i].0.spec_equal_to(key) && forall|j: int|
                0 <= j < i ==> !(#[trigger] entries[j]).0.spec_equal_to(key),
            None => forall|j: int| 0 <= j < entries.len() ==> !(#[trigger] entries[j]).0.spec_equal_to(key),
        },
    decreases entries.len(),
{
    if entries.len() > 0 {
        let init = entries.drop_last();
        lemma_first_key_position(init, key);
        assert forall|j: int| 0 <= j < init.len() implies init[j] == entries[j] by {}
    }
}

/// Matches a map, given as its list of entries, which holds the key `key`
/// with a value which `inner` matches.
pub fn has_entry<KeyT, MatcherT>(key: KeyT, inner: MatcherT) -> (m: HasEntryMatcher<KeyT, MatcherT>)
    ensures
        m.key == key,
        m.inner == inner,
{
    HasEntryMatcher { key, inner }
}

/// A matcher of maps by the value of a key.
pub struct HasEntryMatcher<KeyT, MatcherT> {
    pub key: KeyT,
    pub inner: MatcherT,
}

/// The value of the first entry of `map` whose key is equal to `key`.
pub fn find_value<'a, K: EqualTo<KeyT> + 'a, V: 'a, KeyT, C: Container<Item = (K, V)>>(
    map: &'a C,
    key: &KeyT,
) -> (r: Option<&'a V>)
    ensures
        r == match lookup(map.spec_items(), *key) {
            Some(v) => Some(&v),
            None => None::<&V>,
        },
{
    let ghost entries = map.spec_items();
    let n = map.count();
    let mut i: usize = 0;
    proof {
        lemma_first_key_position(entries, *key);
    }
    while i < n
        invariant
            n == entries.len(),
            entries == map.spec_items(),
            i <= n,
            forall|j: int| 0 <= j < i ==> !(#[trigger] entries[j]).0.spec_equal_to(*key),
            match first_key_position(entries, *key) {
                Some(p) => 0 <= p < entries.len() && entries[p].0.spec_equal_to(*key) && forall|j: int|
                    0 <= j < p ==> !(#[trigger] entries[j]).0.spec_equal_to(*key),
                None => forall|j: int|
                    0 <= j < entries.len() ==> !(#[trigger] entries[j]).0.spec_equal_to(*key),
            },
        decreases n - i,
    {
        let entry = map.item(i);
        if entry.0.equal_to(key) {
            proof {
                match first_key_position(entries, *key) {
                    Some(p) => {
                        if p < i {
                            assert(!entries[p].0.spec_equal_to(*key));
                        }
                        if p > i {
                            assert(!entries[i as int].0.spec_equal_to(*key));
                        }
                    },
                    None => {
                        assert(!entries[i as int].0.spec_equal_to(*key));
                    },
                }
            }
            return Some(&entry.1);
        }
        i += 1;
    }
    proof {
        match first_key_position(entries, *key) {
            Some(p) => {
                assert(!entries[p].0.spec_equal_to(*key));
            },
            None => {},
        }
    }
    None
}

impl<KeyT: Debuggable, MatcherT: Describable> Describable for HasEntryMatcher<KeyT, MatcherT> {
    open spec fn spec_describe(&self, matcher_result: MatcherResult) -> Seq<char> {
        let k = self.key.spec_debug();
        match matcher_result {
            MatcherResult::Match => "contains key "@ + k + ", which value "@ + self.inner.spec_describe(
                MatcherResult::Match,
            ),
            MatcherResult::NoMatch => "doesn't contain key "@ + k + " or contains key "@ + k
                + ", which value "@ + self.inner.spec_describe(MatcherResult::NoMatch),
        }
    }

    fn describe(&self, matcher_result: MatcherResult) -> (description: String) {
        let k = self.key.debug();
        match matcher_result {
            MatcherResult::Match => {
                let mut s = String::from_str("contains key ");
                s.append(k.as_str());
                s.append(", which value ");
                let d = self.inner.describe(MatcherResult::Match);
                s.append(d.as_str());
                s
            },
            MatcherResult::NoMatch => {
                let mut s = String::from_str("doesn't contain key ");
                s.append(k.as_str());
                s.append(" or contains key ");
                s.append(k.as_str());
                s.append(", which value ");
                let d = self.inner.describe(MatcherResult::NoMatch);
                s.append(d.as_str());
                s
            },
        }
    }
}

impl<
    K: EqualTo<KeyT>,
    V: Debuggable,
    KeyT: Debuggable,
    MatcherT: Matcher<V>,
    C: Container<Item = (K, V)>,
> Matcher<C> for HasEntryMatcher<KeyT, MatcherT> {
    open spec fn spec_matches(&self, actual: C) -> bool {
        match lookup(actual.spec_items(), self.key) {
            Some(v) => self.inner.spec_matches(v),
            None => false,
        }
    }

    open spec fn spec_explain(&self, actual: C) -> Seq<char> {
        let k = self.key.spec_debug();
        match lookup(actual.spec_items(), self.key) {
            Some(v) => "which contains key "@ + k + ", but is mapped to value "@ + v.spec_pretty()
                + ", "@ + self.inner.spec_explain(v),
            None => "which doesn't contain key "@ + k,
        }
    }

    fn matches(&self, actual: &C) -> (r: MatcherResult) {
        match find_value(actual, &self.key) {
            Some(v) => self.inner.matches(v),
            None => MatcherResult::NoMatch,
        }
    }

    fn explain_match(&self, actual: &C) -> (explanation: String) {
        let k = self.key.debug();
        match find_value(actual, &self.key) {
            Some(v) => {
                let mut s = String::from_str("which contains key ");
                s.append(k.as_str());
                s.append(", but is mapped to value ");
                let p = v.pretty();
                s.append(p.as_str());
                s.append(", ");
                let e = self.inner.explain_match(v);
                s.append(e.as_str());
                s
            },
            None => {
                let mut s = String::from_str("which doesn't contain key ");
                s.append(k.as_str());
                s
            },
        }
    }
}

} // verus!
