//! The names under which earlier releases offered some container matchers.

use crate::matchers::containers::container_contains::ordered_matcher::ContainerContainsOrderedMatcher;
use crate::matchers::containers::container_contains::unordered_matcher::{
    contains_exactly, ContainerContainsUnorderedMatcher,
};
use crate::matchers::containers::container_contains::Requirements;
use vstd::prelude::*;

verus! {

/// Matches a container whose items correspond one to one, in order, to the
/// matchers `elements`: `contains_exactly(elements).in_order()`.
pub fn elements_are<T, ComponentsT>(elements: ComponentsT) -> (m: ContainerContainsOrderedMatcher<
    T,
    ComponentsT,
>)
    ensures
        m.elements == elements,
        m.requirements == Requirements::PerfectMatch,
{
    contains_exactly(elements).in_order()
}

/// Matches a container whose items correspond one to one, in any order, to
/// the matchers `elements`: `contains_exactly(elements)`.
pub fn unordered_elements_are<T, ComponentsT>(elements: ComponentsT) -> (m:
    ContainerContainsUnorderedMatcher<T, ComponentsT>)
    ensures
        m.elements == elements,
        m.requirements == Requirements::PerfectMatch,
{
    contains_exactly(elements)
}

} // verus!
