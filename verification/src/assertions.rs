//! Runtime checks for use inside a procedure under test. A check that holds
//! does nothing; one that fails hands back the failure signal that ends the
//! procedure abnormally.

use vstd::prelude::*;
use crate::outcome::Signal;
use crate::text::{substitute, substituted};
use crate::value::{format_all, formatted, formatted_all, Value, ValueView};

verus! {

/// The message of a failed [`assert_true`] that was given none.
pub open spec fn default_message() -> Seq<char> {
    "assertion failed: condition is false"@
}

/// The part of a failed comparison's message that shows both values.
pub open spec fn mismatch(actual: ValueView, expected: ValueView) -> Seq<char> {
    "expected "@ + formatted(expected) + ", got "@ + formatted(actual)
}

/// `body` behind `prefix` and a colon, or alone where there is no prefix.
pub open spec fn prefixed(prefix: Option<Seq<char>>, body: Seq<char>) -> Seq<char> {
    match prefix {
        Some(p) => p + ": "@ + body,
        None => body,
    }
}

/// The view of an optional string slice.
pub open spec fn text_of(message: Option<&str>) -> Option<Seq<char>> {
    match message {
        Some(m) => Some(m@),
        None => None,
    }
}

/// Checks that `condition` holds. A failed check raises a signal that carries
/// `message`, or the default message where none is given.
pub fn assert_true(condition: bool, message: Option<&str>) -> (result: Result<(), Signal>)
    ensures
        condition <==> result is Ok,
        !condition ==> result->Err_0@ == Some(
            match message {
                Some(m) => m@,
                None => default_message(),
            },
        ),
{
    if condition {
        Ok(())
    } else {
        let text = match message {
            Some(m) => String::from_str(m),
            None => String::from_str("assertion failed: condition is false"),
        };
        Err(Signal { message: Some(text) })
    }
}

fn mismatch_text(actual: &Value, expected: &Value) -> (text: String)
    ensures
        text@ == mismatch(actual@, expected@),
{
    let mut text = String::from_str("expected ");
    text.append(expected.format().as_str());
    text.append(", got ");
    text.append(actual.format().as_str());
    text
}

fn raise_mismatch(prefix: Option<String>, actual: &Value, expected: &Value) -> (signal: Signal)
    ensures
        signal@ == Some(
            prefixed(
                match prefix {
                    Some(p) => Some(p@),
                    None => None,
                },
                mismatch(actual@, expected@),
            ),
        ),
{
    let body = mismatch_text(actual, expected);
    let text = match prefix {
        Some(p) => {
            let mut text = p;
            text.append(": ");
            text.append(body.as_str());
            text
        },
        None => body,
    };
    Signal { message: Some(text) }
}

/// Checks that `actual` and `expected` are the same value. A failed check
/// raises a signal whose message shows both values, behind `message` where
/// one is given.
pub fn assert_equal(actual: &Value, expected: &Value, message: Option<&str>) -> (result: Result<
    (),
    Signal,
>)
    ensures
        actual@ == expected@ <==> result is Ok,
        actual@ != expected@ ==> result->Err_0@ == Some(
            prefixed(text_of(message), mismatch(actual@, expected@)),
        ),
{
    if actual.same(expected) {
        Ok(())
    } else {
        let prefix = match message {
            Some(m) => Some(String::from_str(m)),
            None => None,
        };
        Err(raise_mismatch(prefix, actual, expected))
    }
}

/// Checks that `actual` and `expected` are the same value. A failed check
/// raises a signal whose message shows both values behind `template`, in
/// which each slot `{}` has been replaced by the next of `args`.
pub fn assert_equal_formatted(
    actual: &Value,
    expected: &Value,
    template: &str,
    args: &Vec<Value>,
) -> (result: Result<(), Signal>)
    ensures
        actual@ == expected@ <==> result is Ok,
        actual@ != expected@ ==> result->Err_0@ == Some(
            prefixed(
                Some(substituted(template@, formatted_all(args@))),
                mismatch(actual@, expected@),
            ),
        ),
{
    if actual.same(expected) {
        Ok(())
    } else {
        let texts = format_all(args);
        let prefix = substitute(template, &texts);
        Err(raise_mismatch(Some(prefix), actual, expected))
    }
}

} // verus!
