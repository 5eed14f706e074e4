//! The shapes of actual values which container matchers inspect.

use vstd::prelude::*;
use std::collections::{BTreeMap, BTreeSet, HashMap, HashSet, VecDeque};
use vstd::std_specs::btree::{spec_btree_map_len, spec_btree_set_len};
use vstd::std_specs::hash::{spec_hash_map_len, spec_hash_set_len};
use vstd::std_specs::vecdeque::spec_vec_dequeue_len;

verus! {

/// A value made of a number of elements.
pub trait Collection {
    /// The number of elements.
    spec fn spec_size(&self) -> nat;

    /// Counts the elements.
    fn size(&self) -> (n: usize)
        ensures
            n == self.spec_size(),
    ;
}

/// A sequence of items which can be visited by position.
pub trait Container {
    /// The type of the items.
    type Item;

    /// The items, in the order in which the container lists them.
    spec fn spec_items(&self) -> Seq<Self::Item>;

    /// The number of items.
    fn count(&self) -> (n: usize)
        ensures
            n == self.spec_items().len(),
    ;

    /// The item at position `i`.
    fn item(&self, i: usize) -> (r: &Self::Item)
        requires
            i < self.spec_items().len(),
        ensures
            *r == self.spec_items()[i as int],
    ;
}

impl<C: Container> Collection for C {
    open spec fn spec_size(&self) -> nat {
        self.spec_items().len()
    }

    fn size(&self) -> (n: usize) {
        self.count()
    }
}

impl<T> Container for Vec<T> {
    type Item = T;

    open spec fn spec_items(&self) -> Seq<T> {
        self@
    }

    fn count(&self) -> (n: usize) {
        self.len()
    }

    fn item(&self, i: usize) -> (r: &T) {
        &self[i]
    }
}

impl<T, const N: usize> Container for [T; N] {
    type Item = T;

    open spec fn spec_items(&self) -> Seq<T> {
        self@
    }

    fn count(&self) -> (n: usize) {
        N
    }

    fn item(&self, i: usize) -> (r: &T) {
        &self[i]
    }
}

impl<'a, T> Container for &'a [T] {
    type Item = T;

    open spec fn spec_items(&self) -> Seq<T> {
        self@
    }

    fn count(&self) -> (n: usize) {
        self.len()
    }

    fn item(&self, i: usize) -> (r: &T) {
        &self[i]
    }
}

impl<K, V> Collection for BTreeMap<K, V> {
    open spec fn spec_size(&self) -> nat {
        spec_btree_map_len(self) as nat
    }

    fn size(&self) -> (n: usize) {
        self.len()
    }
}

impl<K> Collection for BTreeSet<K> {
    open spec fn spec_size(&self) -> nat {
        spec_btree_set_len(self) as nat
    }

    fn size(&self) -> (n: usize) {
        self.len()
    }
}

impl<K, V> Collection for HashMap<K, V> {
    open spec fn spec_size(&self) -> nat {
        spec_hash_map_len(self) as nat
    }

    fn size(&self) -> (n: usize) {
        self.len()
    }
}

impl<K> Collection for HashSet<K> {
    open spec fn spec_size(&self) -> nat {
        spec_hash_set_len(self) as nat
    }

    fn size(&self) -> (n: usize) {
        self.len()
    }
}

impl<T> Collection for VecDeque<T> {
    open spec fn spec_size(&self) -> nat {
        spec_vec_dequeue_len(self) as nat
    }

    fn size(&self) -> (n: usize) {
        self.len()
    }
}

} // verus!
