//! Checking an actual value against a matcher, with the failure message that
//! reports a mismatch.

use crate::matcher::{Matcher, MatcherResult};
use crate::text::{indent, indent_text};
use crate::value::Debuggable;
use vstd::prelude::*;

verus! {

/// The message reporting that `actual`, written in the test as
/// `expression`, does not match `matcher`:
///
/// ```text
/// Value of: <expression>
/// Expected: <description of what matches>
/// Actual: <actual, as {:?} renders it>,
///   <explanation, indented by two spaces>
/// ```
pub open spec fn failure_message<T: Debuggable, M: Matcher<T>>(
    actual: T,
    expression: Seq<char>,
    matcher: M,
) -> Seq<char> {
    "Value of: "@ + expression + "\nExpected: "@ + matcher.spec_describe(MatcherResult::Match)
        + "\nActual: "@ + actual.spec_debug() + ",\n"@ + indent(matcher.spec_explain(actual), "  "@)
        + "\n"@
}

/// Checks `actual`, written in the test as `expression`, against `matcher`.
///
/// Returns `Ok(())` when it matches, and otherwise the
/// [`failure_message`] which reports the mismatch.
pub fn verify_that<T: Debuggable, M: Matcher<T>>(actual: &T, expression: &str, matcher: &M) -> (r:
    Result<(), String>)
    ensures
        r is Ok <==> matcher.spec_matches(*actual),
        r matches Err(message) ==> message@ == failure_message(*actual, expression@, *matcher),
{
    let outcome = matcher.matches(actual);
    if outcome.is_match() {
        return Ok(());
    }
    let mut message = String::from_str("Value of: ");
    message.append(expression);
    message.append("\nExpected: ");
    let description = matcher.describe(MatcherResult::Match);
    message.append(description.as_str());
    message.append("\nActual: ");
    let rendered = actual.debug();
    message.append(rendered.as_str());
    message.append(",\n");
    let explanation = matcher.explain_match(actual);
    let indented = indent_text(explanation.as_str(), "  ");
    message.append(indented.as_str());
    message.append("\n");
    proof {
        reveal_strlit("  ");
    }
    Err(message)
}

} // verus!
