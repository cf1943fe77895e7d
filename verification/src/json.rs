//! Laying out the answer of the API for reading.
//!
//! The API answers in JSON on one line. For a reader the answer is parsed and
//! written out again with one member per line and indentation. Parsing and
//! writing are the work of `serde_json`; what this module adds is what to
//! show when no answer came.

use vstd::prelude::*;

verus! {

/// The error with which `serde_json` refuses a text.
#[verifier::external_type_specification]
#[verifier::external_body]
pub struct ExJsonError(serde_json::Error);

/// The text that is laid out when the request brought no answer: an object
/// without members.
pub const NO_ANSWER: &'static str = "{}";

/// What `serde_json` makes of `text`: the text that `to_string_pretty` writes
/// for the value that `from_str` reads from it, and nothing where `from_str`
/// refuses the text.
pub uninterp spec fn pretty_json(text: Seq<char>) -> Option<Seq<char>>;

/// Calls `serde_json::from_str` to read `text` as a `serde_json::Value`, then
/// `serde_json::to_string_pretty` to write that value out.
///
/// The contract claims that the outcome depends on the text alone, and gives
/// it the name [`pretty_json`]: the call succeeds where the name has a value,
/// and then returns that value. Nothing is claimed of which texts are
/// accepted or of how the result looks.
#[verifier::external_body]
fn lay_out(text: &str) -> (outcome: Result<String, serde_json::Error>)
    ensures
        outcome is Ok <==> pretty_json(text@) is Some,
        outcome matches Ok(laid_out) ==> pretty_json(text@) == Some(laid_out@),
{
    let value: serde_json::Value = serde_json::from_str(text)?;
    serde_json::to_string_pretty(&value)
}

/// An answer that is not JSON.
#[derive(Clone, Copy, Debug, PartialEq, Eq, Structural)]
pub struct InvalidJson;

/// The text of an answer: the body that the request brought, or
/// [`NO_ANSWER`] where it brought none.
pub open spec fn answer_text(body: Option<String>) -> Seq<char> {
    match body {
        Some(text) => text@,
        None => NO_ANSWER@,
    }
}

/// The body that the request brought, or [`NO_ANSWER`] where it failed.
pub fn answer_or_default(body: Option<String>) -> (text: String)
    ensures
        text@ == answer_text(body),
{
    match body {
        Some(text) => text,
        None => NO_ANSWER.to_owned(),
    }
}

/// Lays a JSON text out for reading. A text that is not JSON is refused.
pub fn pretty(text: &str) -> (outcome: Result<String, InvalidJson>)
    ensures
        outcome is Ok <==> pretty_json(text@) is Some,
        outcome matches Ok(laid_out) ==> pretty_json(text@) == Some(laid_out@),
{
    match lay_out(text) {
        Ok(laid_out) => Ok(laid_out),
        Err(_) => Err(InvalidJson),
    }
}

/// What to show for the answer of a request: the body laid out for reading,
/// or an empty object laid out where the request failed.
pub fn show_answer(body: Option<String>) -> (outcome: Result<String, InvalidJson>)
    ensures
        outcome is Ok <==> pretty_json(answer_text(body)) is Some,
        outcome matches Ok(laid_out) ==> pretty_json(answer_text(body)) == Some(laid_out@),
{
    let text = answer_or_default(body);
    pretty(text.as_str())
}

} // verus!
