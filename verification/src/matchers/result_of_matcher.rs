//! Matching the result of applying a function to the actual value.

use crate::matcher::{Describable, Matcher, MatcherResult};
use crate::value::Debuggable;
use core::marker::PhantomData;
use vstd::prelude::*;

verus! {

/// Whether `function` may be applied to every input and gives, for each
/// input, one result only: the pure, deterministic function which the
/// matcher applies.
pub open spec fn pure_function<Input, Output, F: Fn(&Input) -> Output>(function: F) -> bool {
    &&& forall|input: &Input| call_requires(function, (input,))
    &&& forall|input: &Input, a: Output, b: Output|
        call_ensures(function, (input,), a) && call_ensures(function, (input,), b) ==> a == b
}

/// The result of applying `function` to `input`.
pub open spec fn applied<Input, Output, F: Fn(&Input) -> Output>(function: F, input: Input) -> Output {
    choose|output: Output| call_ensures(function, (&input,), output)
}

/// A matcher which applies a function to the actual value and matches the
/// result with an inner matcher.
#[verifier::reject_recursive_types(Input)]
#[verifier::reject_recursive_types(Output)]
pub struct ResultOfMatcher<Input, Output, InnerMatcher, F: Fn(&Input) -> Output> {
    definition: String,
    matcher: InnerMatcher,
    function: F,
    phantom: PhantomData<(Input, Output)>,
}

impl<Input, Output, InnerMatcher, F: Fn(&Input) -> Output> ResultOfMatcher<
    Input,
    Output,
    InnerMatcher,
    F,
> {
    /// The function is pure: it may be applied to every input, with one
    /// result for each.
    #[verifier::type_invariant]
    spec fn pure(self) -> bool {
        pure_function(self.function)
    }

    /// How the function is shown in descriptions and explanations.
    pub closed spec fn spec_definition(self) -> Seq<char> {
        self.definition@
    }

    /// The matcher of the function's result.
    pub closed spec fn spec_matcher(self) -> InnerMatcher {
        self.matcher
    }

    /// The function applied to the actual value.
    pub closed spec fn spec_function(self) -> F {
        self.function
    }

    /// Builds the matcher which applies `function`, shown as `definition`,
    /// to the actual value, and matches the result with `matcher`.
    ///
    /// The function must be pure: defined on every input, with one result
    /// for each.
    pub fn new(definition: &str, matcher: InnerMatcher, function: F) -> (m: Self)
        requires
            pure_function(function),
        ensures
            m.spec_definition() == definition@,
            m.spec_matcher() == matcher,
            m.spec_function() == function,
    {
        ResultOfMatcher {
            definition: String::from_str(definition),
            matcher,
            function,
            phantom: PhantomData,
        }
    }

    /// The same matcher, with the function shown as `definition` in
    /// descriptions and explanations.
    pub fn with_custom_definition(self, definition: &str) -> (m: Self)
        ensures
            m.spec_definition() == definition@,
            m.spec_matcher() == self.spec_matcher(),
            m.spec_function() == self.spec_function(),
    {
        proof {
            use_type_invariant(&self);
        }
        ResultOfMatcher {
            definition: String::from_str(definition),
            matcher: self.matcher,
            function: self.function,
            phantom: PhantomData,
        }
    }

    /// Applies the function to `input`.
    fn apply(&self, input: &Input) -> (output: Output)
        ensures
            output == applied(self.spec_function(), *input),
    {
        proof {
            use_type_invariant(self);
        }
        let output = (self.function)(input);
        output
    }
}

impl<Input, Output, InnerMatcher: Describable, F: Fn(&Input) -> Output> Describable for
    ResultOfMatcher<Input, Output, InnerMatcher, F> {
    open spec fn spec_describe(&self, matcher_result: MatcherResult) -> Seq<char> {
        "result of applying `"@ + self.spec_definition() + "` "@
            + self.spec_matcher().spec_describe(matcher_result)
    }

    fn describe(&self, matcher_result: MatcherResult) -> (description: String) {
        let mut s = String::from_str("result of applying `");
        s.append(self.definition.as_str());
        s.append("` ");
        let d = self.matcher.describe(matcher_result);
        s.append(d.as_str());
        s
    }
}

impl<
    Input,
    Output: Debuggable,
    InnerMatcher: Matcher<Output>,
    F: Fn(&Input) -> Output,
> Matcher<Input> for ResultOfMatcher<Input, Output, InnerMatcher, F> {
    open spec fn spec_matches(&self, actual: Input) -> bool {
        self.spec_matcher().spec_matches(applied(self.spec_function(), actual))
    }

    open spec fn spec_explain(&self, actual: Input) -> Seq<char> {
        let output = applied(self.spec_function(), actual);
        "which after applying `"@ + self.spec_definition() + "` results in `"@
            + output.spec_pretty() + "`, "@ + self.spec_matcher().spec_explain(output)
    }

    fn matches(&self, actual: &Input) -> (r: MatcherResult) {
        let output = self.apply(actual);
        self.matcher.matches(&output)
    }

    fn explain_match(&self, actual: &Input) -> (explanation: String) {
        let output = self.apply(actual);
        let mut s = String::from_str("which after applying `");
        s.append(self.definition.as_str());
        s.append("` results in `");
        let shown = output.pretty();
        s.append(shown.as_str());
        s.append("`, ");
        let inner = self.matcher.explain_match(&output);
        s.append(inner.as_str());
        s
    }
}

/// Two result-of matchers with the same function and the same inner matcher
/// match alike, whatever definition each shows: renaming the function with
/// `with_custom_definition` changes only descriptions and explanations.
pub proof fn lemma_definition_does_not_affect_matching<
    Input,
    Output: Debuggable,
    InnerMatcher: Matcher<Output>,
    F: Fn(&Input) -> Output,
>(
    first: ResultOfMatcher<Input, Output, InnerMatcher, F>,
    second: ResultOfMatcher<Input, Output, InnerMatcher, F>,
    actual: Input,
)
    requires
        first.spec_function() == second.spec_function(),
        first.spec_matcher() == second.spec_matcher(),
    ensures
        first.spec_matches(actual) == second.spec_matches(actual),
{
}

} // verus!
