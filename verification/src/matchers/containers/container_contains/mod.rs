//! Matching containers against a list of matchers, one matcher per item,
//! either in order or in any order.

pub mod ordered_matcher;
pub mod properties;
pub mod unordered_matcher;

use crate::collection::Collection;
use crate::text::{decimal_usize, nat_decimal};
use vstd::prelude::*;

verus! {

/// How the items of a container must correspond to the matchers of a list.
#[derive(Clone, Copy, PartialEq, Eq, Structural)]
pub enum Requirements {
    /// Each item corresponds to exactly one matcher, and each matcher to
    /// exactly one item.
    PerfectMatch,
    /// Each matcher corresponds to its own item; items may be left over.
    Superset,
    /// Each item corresponds to its own matcher; matchers may be left over.
    Subset,
}

/// Whether a container of `actual_size` items is, by its size alone, unable
/// to meet `requirements` against `expected_size` matchers.
pub open spec fn size_mismatch(requirements: Requirements, actual_size: nat, expected_size: nat) -> bool {
    match requirements {
        Requirements::PerfectMatch => actual_size != expected_size,
        Requirements::Superset => actual_size < expected_size,
        Requirements::Subset => actual_size > expected_size,
    }
}

/// The explanation of a size which cannot meet `requirements`.
pub open spec fn size_mismatch_text(
    requirements: Requirements,
    actual_size: nat,
    expected_size: nat,
) -> Seq<char> {
    let expected = match requirements {
        Requirements::PerfectMatch => " (expected "@,
        Requirements::Superset => " (expected at least "@,
        Requirements::Subset => " (expected at most "@,
    };
    "which has size "@ + nat_decimal(actual_size) + expected + nat_decimal(expected_size) + ")"@
}

impl Requirements {
    /// The name of these requirements: `perfect`, `superset` or `subset`.
    pub open spec fn spec_name(&self) -> Seq<char> {
        match *self {
            Requirements::PerfectMatch => "perfect"@,
            Requirements::Superset => "superset"@,
            Requirements::Subset => "subset"@,
        }
    }

    /// Renders [`Requirements::spec_name`].
    pub fn name(&self) -> (s: String)
        ensures
            s@ == self.spec_name(),
    {
        match self {
            Requirements::PerfectMatch => String::from_str("perfect"),
            Requirements::Superset => String::from_str("superset"),
            Requirements::Subset => String::from_str("subset"),
        }
    }

    /// Explains why `actual` has the wrong size to meet these requirements
    /// against `expected_size` matchers, or `None` when its size is fine.
    pub fn explain_size_mismatch<C: Collection>(&self, actual: &C, expected_size: usize) -> (r: Option<
        String,
    >)
        ensures
            r.is_some() == size_mismatch(*self, actual.spec_size(), expected_size as nat),
            r matches Some(s) ==> s@ == size_mismatch_text(
                *self,
                actual.spec_size(),
                expected_size as nat,
            ),
    {
        let actual_size = actual.size();
        let mismatch = match self {
            Requirements::PerfectMatch => actual_size != expected_size,
            Requirements::Superset => actual_size < expected_size,
            Requirements::Subset => actual_size > expected_size,
        };
        if !mismatch {
            return None;
        }
        let mut s = String::from_str("which has size ");
        let a = decimal_usize(actual_size);
        s.append(a.as_str());
        match self {
            Requirements::PerfectMatch => s.append(" (expected "),
            Requirements::Superset => s.append(" (expected at least "),
            Requirements::Subset => s.append(" (expected at most "),
        }
        let e = decimal_usize(expected_size);
        s.append(e.as_str());
        s.append(")");
        Some(s)
    }
}

} // verus!
