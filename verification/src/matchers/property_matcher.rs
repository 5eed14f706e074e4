//! Matching a property of the actual value: what one of its methods returns.

use crate::matcher::{Describable, Matcher, MatcherResult};
use crate::matchers::result_of_matcher::{applied, pure_function};
use crate::value::Debuggable;
use core::marker::PhantomData;
use vstd::prelude::*;

verus! {

/// Builds the matcher of values whose property `property` (the text of the
/// method call which reads it), read by `read`, `inner` matches.
///
/// The method must be pure: defined on every value, with one result for
/// each.
pub fn property_matcher<OuterT, PropertyT, InnerMatcherT, ReadFn: Fn(&OuterT) -> PropertyT>(
    property: &str,
    inner: InnerMatcherT,
    read: ReadFn,
) -> (m: PropertyMatcher<OuterT, PropertyT, InnerMatcherT, ReadFn>)
    requires
        pure_function(read),
    ensures
        m.spec_property() == property@,
        m.spec_inner() == inner,
        m.spec_read() == read,
{
    PropertyMatcher { property: String::from_str(property), inner, read, phantom: PhantomData }
}

/// A matcher of values by one of their properties.
#[verifier::reject_recursive_types(OuterT)]
#[verifier::reject_recursive_types(PropertyT)]
pub struct PropertyMatcher<OuterT, PropertyT, InnerMatcherT, ReadFn: Fn(&OuterT) -> PropertyT> {
    property: String,
    inner: InnerMatcherT,
    read: ReadFn,
    phantom: PhantomData<(OuterT, PropertyT)>,
}

impl<OuterT, PropertyT, InnerMatcherT, ReadFn: Fn(&OuterT) -> PropertyT> PropertyMatcher<
    OuterT,
    PropertyT,
    InnerMatcherT,
    ReadFn,
> {
    /// The method reading the property is pure.
    #[verifier::type_invariant]
    spec fn pure(self) -> bool {
        pure_function(self.read)
    }

    /// The text of the method call which reads the property.
    pub closed spec fn spec_property(self) -> Seq<char> {
        self.property@
    }

    /// The matcher of the property.
    pub closed spec fn spec_inner(self) -> InnerMatcherT {
        self.inner
    }

    /// The function which reads the property.
    pub closed spec fn spec_read(self) -> ReadFn {
        self.read
    }

    /// Reads the property of `actual`.
    fn read_property(&self, actual: &OuterT) -> (property: PropertyT)
        ensures
            property == applied(self.spec_read(), *actual),
    {
        proof {
            use_type_invariant(self);
        }
        (self.read)(actual)
    }
}

impl<OuterT, PropertyT, InnerMatcherT: Describable, ReadFn: Fn(&OuterT) -> PropertyT> Describable for
    PropertyMatcher<OuterT, PropertyT, InnerMatcherT, ReadFn> {
    open spec fn spec_describe(&self, matcher_result: MatcherResult) -> Seq<char> {
        "has property `"@ + self.spec_property() + "`, which "@ + self.spec_inner().spec_describe(
            matcher_result,
        )
    }

    fn describe(&self, matcher_result: MatcherResult) -> (description: String) {
        let mut s = String::from_str("has property `");
        s.append(self.property.as_str());
        s.append("`, which ");
        let d = self.inner.describe(matcher_result);
        s.append(d.as_str());
        s
    }
}

impl<
    OuterT,
    PropertyT: Debuggable,
    InnerMatcherT: Matcher<PropertyT>,
    ReadFn: Fn(&OuterT) -> PropertyT,
> Matcher<OuterT> for PropertyMatcher<OuterT, PropertyT, InnerMatcherT, ReadFn> {
    open spec fn spec_matches(&self, actual: OuterT) -> bool {
        self.spec_inner().spec_matches(applied(self.spec_read(), actual))
    }

    open spec fn spec_explain(&self, actual: OuterT) -> Seq<char> {
        let property = applied(self.spec_read(), actual);
        "whose property `"@ + self.spec_property() + "` is `"@ + property.spec_pretty() + "`, "@
            + self.spec_inner().spec_explain(property)
    }

    fn matches(&self, actual: &OuterT) -> (r: MatcherResult) {
        let property = self.read_property(actual);
        self.inner.matches(&property)
    }

    fn explain_match(&self, actual: &OuterT) -> (explanation: String) {
        let property = self.read_property(actual);
        let mut s = String::from_str("whose property `");
        s.append(self.property.as_str());
        s.append("` is `");
        let shown = property.pretty();
        s.append(shown.as_str());
        s.append("`, ");
        let inner = self.inner.explain_match(&property);
        s.append(inner.as_str());
        s
    }
}

} // verus!
