//! Matching a field of a struct, or of one variant of an enum.

use crate::matcher::{Describable, Matcher, MatcherResult};
use crate::value::Debuggable;
use core::marker::PhantomData;
use vstd::prelude::*;

verus! {

/// Whether `accessor` may be applied to every value and gives, for each
/// value, one result only: the field of the value, or `None` when the value
/// is a variant without that field.
pub open spec fn pure_accessor<OuterT, InnerT, AccessorT: Fn(&OuterT) -> Option<&InnerT>>(
    accessor: AccessorT,
) -> bool {
    &&& forall|outer: &OuterT| call_requires(accessor, (outer,))
    &&& forall|outer: &OuterT, a: Option<&InnerT>, b: Option<&InnerT>|
        call_ensures(accessor, (outer,), a) && call_ensures(accessor, (outer,), b) ==> a == b
}

/// The field which `accessor` reads from `outer`.
pub open spec fn accessed<OuterT, InnerT, AccessorT: Fn(&OuterT) -> Option<&InnerT>>(
    accessor: AccessorT,
    outer: OuterT,
) -> Option<InnerT> {
    match choose|field: Option<&InnerT>| call_ensures(accessor, (&outer,), field) {
        Some(field) => Some(*field),
        None => None,
    }
}

/// Whether `c` is a white space character, as Unicode's `White_Space`
/// property (and `char::is_whitespace`) defines them.
pub open spec fn white_space(c: char) -> bool {
    let u = c as u32;
    ||| 0x9 <= u <= 0xd
    ||| u == 0x20
    ||| u == 0x85
    ||| u == 0xa0
    ||| u == 0x1680
    ||| 0x2000 <= u <= 0x200a
    ||| u == 0x2028
    ||| u == 0x2029
    ||| u == 0x202f
    ||| u == 0x205f
    ||| u == 0x3000
}

/// The part of `text` before the first occurrence of `c`, or all of `text`
/// when `c` does not occur in it.
pub open spec fn before_char(text: Seq<char>, c: char) -> Seq<char>
    decreases text.len(),
{
    if text.len() == 0 {
        text
    } else if text[0] == c {
        seq![]
    } else {
        seq![text[0]] + before_char(text.drop_first(), c)
    }
}

/// `text` without its trailing white space.
pub open spec fn trim_end(text: Seq<char>) -> Seq<char>
    decreases text.len(),
{
    if text.len() > 0 && white_space(text.last()) {
        trim_end(text.drop_last())
    } else {
        text
    }
}

/// The name of the enum variant in the debugging rendering `debug` of a
/// value: what comes before its fields, whether they are in round or curly
/// brackets.
pub open spec fn variant_name(debug: Seq<char>) -> Seq<char> {
    trim_end(before_char(before_char(debug, '('), '{'))
}

/// Whether the character `c` is white space, as [`white_space`] defines it.
fn is_white_space(c: char) -> (r: bool)
    ensures
        r == white_space(c),
{
    let u = c as u32;
    (0x9 <= u && u <= 0xd) || u == 0x20 || u == 0x85 || u == 0xa0 || u == 0x1680 || (0x2000 <= u
        && u <= 0x200a) || u == 0x2028 || u == 0x2029 || u == 0x202f || u == 0x205f || u == 0x3000
}

/// The length of [`before_char`] of `text` and `c`.
fn position_of(text: &str, c: char) -> (n: usize)
    ensures
        n <= text@.len(),
        text@.take(n as int) == before_char(text@, c),
{
    let len = text.unicode_len();
    let mut i: usize = 0;
    assert(text@.skip(0) =~= text@);
    assert(text@.take(0) + before_char(text@, c) =~= before_char(text@, c));
    while i < len
        invariant
            len == text@.len(),
            i <= len,
            before_char(text@, c) == text@.take(i as int) + before_char(text@.skip(i as int), c),
        decreases len - i,
    {
        let d = text.get_char(i);
        let ghost rest = text@.skip(i as int);
        assert(rest[0] == d);
        if d == c {
            assert(text@.take(i as int) + seq![] =~= text@.take(i as int));
            return i;
        }
        assert(rest.drop_first() =~= text@.skip(i + 1));
        assert(text@.take(i as int) + seq![d] =~= text@.take(i + 1));
        i += 1;
    }
    assert(text@.skip(len as int) =~= seq![]);
    assert(text@.take(len as int) + seq![] =~= text@.take(len as int));
    len
}

/// Renders [`variant_name`] of `debug`.
fn render_variant_name(debug: &str) -> (s: String)
    ensures
        s@ == variant_name(debug@),
{
    let round = position_of(debug, '(');
    let head = debug.substring_char(0, round);
    assert(head@ =~= before_char(debug@, '('));
    let curly = position_of(head, '{');
    let mut end = curly;
    assert(head@.take(end as int) =~= head@.take(curly as int));
    while end > 0 && is_white_space(head.get_char(end - 1))
        invariant
            end <= curly <= head@.len(),
            trim_end(head@.take(curly as int)) == trim_end(head@.take(end as int)),
        decreases end,
    {
        assert(head@.take(end as int).drop_last() =~= head@.take(end - 1));
        end -= 1;
    }
    let name = head.substring_char(0, end);
    assert(name@ =~= head@.take(end as int));
    proof {
        if end > 0 {
            assert(head@.take(end as int).last() == head@[end - 1]);
        }
    }
    name.to_string()
}

/// Builds the first stage of a matcher of a field: `field_accessor` reads
/// the field, giving `None` when the value is a variant without it, and
/// `field_path` names it in descriptions. The matcher of the field itself
/// comes with [`FieldMatcherStage::with`].
///
/// The accessor must be pure: defined on every value, with one result for
/// each.
pub fn field_matcher<OuterT, InnerT, AccessorT: Fn(&OuterT) -> Option<&InnerT>>(
    field_accessor: AccessorT,
    field_path: &str,
) -> (stage: FieldMatcherStage<OuterT, InnerT, AccessorT>)
    requires
        pure_accessor(field_accessor),
    ensures
        stage.spec_accessor() == field_accessor,
        stage.spec_field_path() == field_path@,
{
    FieldMatcherStage {
        field_accessor,
        field_path: String::from_str(field_path),
        phantom: PhantomData,
    }
}

/// A matcher of a field waiting for the matcher of the field itself.
#[verifier::reject_recursive_types(OuterT)]
#[verifier::reject_recursive_types(InnerT)]
pub struct FieldMatcherStage<OuterT, InnerT, AccessorT: Fn(&OuterT) -> Option<&InnerT>> {
    field_accessor: AccessorT,
    field_path: String,
    phantom: PhantomData<(OuterT, InnerT)>,
}

impl<OuterT, InnerT, AccessorT: Fn(&OuterT) -> Option<&InnerT>> FieldMatcherStage<
    OuterT,
    InnerT,
    AccessorT,
> {
    /// The accessor is pure.
    #[verifier::type_invariant]
    spec fn pure(self) -> bool {
        pure_accessor(self.field_accessor)
    }

    /// The function reading the field.
    pub closed spec fn spec_accessor(self) -> AccessorT {
        self.field_accessor
    }

    /// The name of the field in descriptions.
    pub closed spec fn spec_field_path(self) -> Seq<char> {
        self.field_path@
    }

    /// The matcher of values whose field `inner` matches.
    pub fn with<InnerMatcher>(self, inner: InnerMatcher) -> (m: FieldMatcher<
        OuterT,
        InnerT,
        AccessorT,
        InnerMatcher,
    >)
        ensures
            m.spec_accessor() == self.spec_accessor(),
            m.spec_field_path() == self.spec_field_path(),
            m.spec_inner() == inner,
    {
        proof {
            use_type_invariant(&self);
        }
        FieldMatcher {
            field_accessor: self.field_accessor,
            field_path: self.field_path,
            inner,
            phantom: PhantomData,
        }
    }
}

/// A matcher of values by one of their fields.
#[verifier::reject_recursive_types(OuterT)]
#[verifier::reject_recursive_types(InnerT)]
pub struct FieldMatcher<OuterT, InnerT, AccessorT: Fn(&OuterT) -> Option<&InnerT>, InnerMatcher> {
    field_accessor: AccessorT,
    field_path: String,
    inner: InnerMatcher,
    phantom: PhantomData<(OuterT, InnerT)>,
}

impl<OuterT, InnerT, AccessorT: Fn(&OuterT) -> Option<&InnerT>, InnerMatcher> FieldMatcher<
    OuterT,
    InnerT,
    AccessorT,
    InnerMatcher,
> {
    /// The accessor is pure.
    #[verifier::type_invariant]
    spec fn pure(self) -> bool {
        pure_accessor(self.field_accessor)
    }

    /// The function reading the field.
    pub closed spec fn spec_accessor(self) -> AccessorT {
        self.field_accessor
    }

    /// The name of the field in descriptions.
    pub closed spec fn spec_field_path(self) -> Seq<char> {
        self.field_path@
    }

    /// The matcher of the field.
    pub closed spec fn spec_inner(self) -> InnerMatcher {
        self.inner
    }

    /// Reads the field of `actual`, if it has it.
    fn access<'a>(&self, actual: &'a OuterT) -> (field: Option<&'a InnerT>)
        ensures
            match field {
                Some(f) => accessed(self.spec_accessor(), *actual) == Some(*f),
                None => accessed(self.spec_accessor(), *actual) is None,
            },
    {
        proof {
            use_type_invariant(self);
        }
        (self.field_accessor)(actual)
    }
}

impl<OuterT, InnerT, AccessorT: Fn(&OuterT) -> Option<&InnerT>, InnerMatcher: Describable> Describable for
    FieldMatcher<OuterT, InnerT, AccessorT, InnerMatcher> {
    open spec fn spec_describe(&self, matcher_result: MatcherResult) -> Seq<char> {
        "has field `"@ + self.spec_field_path() + "`, which "@ + self.spec_inner().spec_describe(
            matcher_result,
        )
    }

    fn describe(&self, matcher_result: MatcherResult) -> (description: String) {
        let mut s = String::from_str("has field `");
        s.append(self.field_path.as_str());
        s.append("`, which ");
        let d = self.inner.describe(matcher_result);
        s.append(d.as_str());
        s
    }
}

impl<
    OuterT: Debuggable,
    InnerT,
    AccessorT: Fn(&OuterT) -> Option<&InnerT>,
    InnerMatcher: Matcher<InnerT>,
> Matcher<OuterT> for FieldMatcher<OuterT, InnerT, AccessorT, InnerMatcher> {
    open spec fn spec_matches(&self, actual: OuterT) -> bool {
        match accessed(self.spec_accessor(), actual) {
            Some(field) => self.spec_inner().spec_matches(field),
            None => false,
        }
    }

    open spec fn spec_explain(&self, actual: OuterT) -> Seq<char> {
        match accessed(self.spec_accessor(), actual) {
            Some(field) => "which has field `"@ + self.spec_field_path() + "`, "@
                + self.spec_inner().spec_explain(field),
            None => "which has the wrong enum variant `"@ + variant_name(actual.spec_debug())
                + "`"@,
        }
    }

    fn matches(&self, actual: &OuterT) -> (r: MatcherResult) {
        match self.access(actual) {
            Some(field) => self.inner.matches(field),
            None => MatcherResult::NoMatch,
        }
    }

    fn explain_match(&self, actual: &OuterT) -> (explanation: String) {
        match self.access(actual) {
            Some(field) => {
                let mut s = String::from_str("which has field `");
                s.append(self.field_path.as_str());
                s.append("`, ");
                let inner = self.inner.explain_match(field);
                s.append(inner.as_str());
                s
            },
            None => {
                let debug = actual.debug();
                let name = render_variant_name(debug.as_str());
                let mut s = String::from_str("which has the wrong enum variant `");
                s.append(name.as_str());
                s.append("`");
                s
            },
        }
    }
}

} // verus!
