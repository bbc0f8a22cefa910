//! Error reports: an error chain written one cause per line, and selector
//! parse errors turned into `anyhow` errors.

use vstd::prelude::*;
use crate::tasks::texts;
use crate::text::{nat_decimal, push_str, usize_to_string};

verus! {

#[verifier::external_type_specification]
#[verifier::external_body]
pub struct ExAnyhowError(anyhow::Error);

#[verifier::external_type_specification]
#[verifier::external_body]
pub struct ExSelectorErrorKind(scraper::error::SelectorErrorKind);

/// The report of an error chain: for each cause, in order, its index, `: `,
/// its message and a line break.
pub open spec fn chain_text(messages: Seq<Seq<char>>) -> Seq<char>
    decreases messages.len(),
{
    if messages.len() == 0 {
        Seq::empty()
    } else {
        chain_text(messages.drop_last()) + nat_decimal((messages.len() - 1) as nat) + ": "@
            + messages.last() + "\n"@
    }
}

/// Writes the messages of an error chain one per line, each after its index.
pub fn format_error_chain(messages: &Vec<String>) -> (r: String)
    ensures
        r@ == chain_text(texts(messages@)),
{
    let mut out = String::new();
    let mut i: usize = 0;
    assert(texts(messages@.take(0)) =~= Seq::<Seq<char>>::empty());
    while i < messages.len()
        invariant
            i <= messages@.len(),
            out@ == chain_text(texts(messages@.take(i as int))),
        decreases messages@.len() - i,
    {
        push_str(&mut out, usize_to_string(i).as_str());
        push_str(&mut out, ": ");
        push_str(&mut out, messages[i].as_str());
        push_str(&mut out, "\n");
        i = i + 1;
        assert(texts(messages@.take(i as int)).drop_last() =~= texts(messages@.take(i - 1)));
        assert(texts(messages@.take(i as int)).last() == messages@[i - 1]@);
    }
    assert(messages@.take(i as int) =~= messages@);
    out
}

/// How many errors `anyhow::Error::chain` yields for `err`: the error
/// itself and each of its sources, a function of the error alone.
pub uninterp spec fn error_chain_len(err: anyhow::Error) -> nat;

/// The messages of `anyhow::Error::chain`: the error itself, then each of
/// its sources, each written with `Display`, one message per error of the
/// chain, so at least one. What they say is not stated: the `Display` text
/// of a cause may depend on the machine (an operating-system error is
/// written from the platform's message table), so it is no function of the
/// error value alone and gets no name.
#[verifier::external_body]
fn error_chain_messages(err: &anyhow::Error) -> (r: Vec<String>)
    ensures
        r@.len() == error_chain_len(*err),
        r@.len() >= 1,
{
    err.chain().map(|cause| cause.to_string()).collect()
}

/// Writing an error with all its causes.
pub trait AnyhowErrorToStringChain {
    /// The error and its causes, one per line, each after its index.
    fn to_string_chain(&self) -> String;
}

impl AnyhowErrorToStringChain for anyhow::Error {
    /// The chain's messages as `error_chain_messages` gives them, one per
    /// error of the chain, written by `format_error_chain`.
    fn to_string_chain(&self) -> (r: String)
        ensures
            exists|messages: Seq<Seq<char>>|
                messages.len() == error_chain_len(*self) && messages.len() >= 1 && r@ == chain_text(
                    messages,
                ),
    {
        let messages = error_chain_messages(self);
        format_error_chain(&messages)
    }
}

/// `anyhow::Error::msg` of the selector error's `Display` text; nothing is
/// stated of the error that comes back.
#[verifier::external_body]
fn selector_error_to_anyhow(err: scraper::error::SelectorErrorKind) -> anyhow::Error {
    anyhow::Error::msg(err.to_string())
}

/// Turning a selector parse result into an `anyhow` result.
pub trait ToAnyhow<T>: Sized {
    /// The same result, with the error as an `anyhow::Error`.
    fn to_anyhow(self) -> Result<T, anyhow::Error>;
}

impl<T> ToAnyhow<T> for Result<T, scraper::error::SelectorErrorKind> {
    fn to_anyhow(self) -> (r: Result<T, anyhow::Error>)
        ensures
            match self {
                Ok(t) => r == Ok::<T, anyhow::Error>(t),
                Err(_) => r is Err,
            },
    {
        match self {
            Ok(t) => Ok(t),
            Err(e) => Err(selector_error_to_anyhow(e)),
        }
    }
}

} // verus!
