//! Errors built with `anyhow`, read as the chain of their messages: the
//! error's own message first, then the message of its source, and so on.

use crate::text::{join, join_texts, views};
use crate::value::Displayable;
use vstd::prelude::*;

verus! {

/// The messages of an error and of its chain of sources, outermost first.
pub struct ErrorChain {
    pub messages: Vec<String>,
}

impl ErrorChain {
    /// The messages, as texts.
    pub open spec fn texts(&self) -> Seq<Seq<char>> {
        views(self.messages@)
    }

    /// The source of this error: the chain without its first message, if
    /// anything remains of it.
    pub fn source(&self) -> (source: Option<ErrorChain>)
        ensures
            self.texts().len() <= 1 ==> source is None,
            self.texts().len() > 1 ==> (source matches Some(s) && s.texts() == self.texts().drop_first()),
    {
        let n = self.messages.len();
        assert(n == self.texts().len());
        if n <= 1 {
            return None;
        }
        let mut rest: Vec<String> = Vec::new();
        let mut i: usize = 1;
        while i < n
            invariant
                n == self.messages@.len(),
                1 <= i <= n,
                views(rest@) == self.texts().subrange(1, i as int),
            decreases n - i,
        {
            let message = self.messages[i].clone();
            let ghost before = rest@;
            rest.push(message);
            assert(views(rest@) =~= views(before).push(message@));
            assert(self.texts().subrange(1, i + 1) =~= self.texts().subrange(1, i as int).push(
                self.messages@[i as int]@,
            ));
            i += 1;
        }
        assert(self.texts().subrange(1, n as int) =~= self.texts().drop_first());
        Some(ErrorChain { messages: rest })
    }
}

/// An error chain is displayed as `anyhow::Error` is: `{}` shows the
/// outermost message only, and `{:#}` shows every message of the chain,
/// outermost first, separated by `": "`.
impl Displayable for ErrorChain {
    open spec fn spec_display(&self, alternate: bool) -> Seq<char> {
        if alternate {
            join(self.texts(), ": "@)
        } else if self.texts().len() == 0 {
            seq![]
        } else {
            self.texts()[0]
        }
    }

    fn display(&self, alternate: bool) -> (s: String) {
        assert(self.messages@.len() == self.texts().len());
        if alternate {
            join_texts(&self.messages, ": ")
        } else if self.messages.len() == 0 {
            String::new()
        } else {
            self.messages[0].clone()
        }
    }
}

/// The chain of messages of the error which `anyhow::Error::msg` builds from
/// `message`.
///
/// Calls `anyhow::Error::msg`, then renders each error of its `chain` with
/// `to_string`. Such an error displays as its message and has no source, so
/// the chain is the message alone.
#[verifier::external_body]
fn message_chain(message: &str) -> (chain: Vec<String>)
    ensures
        views(chain@) == seq![message@],
{
    let error = anyhow::Error::msg(message.to_string());
    error.chain().map(|cause| cause.to_string()).collect()
}

/// The chain of messages of the error which `anyhow::Error::msg` builds from
/// `message`, wrapped by `anyhow::Error::context` with `context`.
///
/// Calls the two, then renders each error of the `chain` with `to_string`.
/// The context error displays as the context and has the wrapped error as
/// its source, so the chain is the context, then the message.
#[verifier::external_body]
fn context_chain(message: &str, context: &str) -> (chain: Vec<String>)
    ensures
        views(chain@) == seq![context@, message@],
{
    let error = anyhow::Error::msg(message.to_string()).context(context.to_string());
    error.chain().map(|cause| cause.to_string()).collect()
}

/// Fails with the error "Anyhow error".
pub fn returns_anyhow_error() -> (r: Result<(), ErrorChain>)
    ensures
        r matches Err(e) && e.texts() == seq!["Anyhow error"@],
{
    Err(ErrorChain { messages: message_chain("Anyhow error") })
}

/// Fails with the error of [`returns_anyhow_error`], wrapped with the
/// context "Wrapping context".
pub fn returns_wrapping_anyhow_error() -> (r: Result<(), ErrorChain>)
    ensures
        r matches Err(e) && e.texts() == seq!["Wrapping context"@, "Anyhow error"@],
{
    match returns_anyhow_error() {
        Ok(()) => Ok(()),
        Err(error) => {
            assert(error.messages@.len() == error.texts().len());
            let message = error.messages[0].as_str();
            assert(error.texts()[0] == error.messages@[0]@);
            Err(ErrorChain { messages: context_chain(message, "Wrapping context") })
        },
    }
}

} // verus!
