//! Reading the JSON bodies posted to the control and AI endpoints.
use vstd::prelude::*;

use crate::ai::opt_text;
use crate::commands::{api_command, parse_api_command, Command};
use crate::text::owned;

verus! {

/// The text field `key` of the JSON object in `body`, as
/// `serde_json::from_slice` and `Value::get(key)` then `as_str` give it:
/// `None` when the body is not JSON, `Some(None)` when it has no text
/// field with that key.
pub uninterp spec fn json_text_field(body: Seq<u8>, key: Seq<char>) -> Option<Option<Seq<char>>>;

/// Parses `body` with `serde_json::from_slice::<Value>` and reads its text
/// field `key` with `Value::get` and `as_str`. What it reads is only named
/// (`json_text_field`); what is stated is that whether the body parses
/// does not depend on the key.
#[verifier::external_body]
fn body_text_field(body: &[u8], key: &str) -> (r: Option<Option<String>>)
    ensures
        match r {
            None => forall|k: Seq<char>| #[trigger] json_text_field(body@, k) is None,
            Some(f) => json_text_field(body@, key@) == Some(opt_text(f)) && forall|k: Seq<char>|
                #[trigger] json_text_field(body@, k) is Some,
        },
{
    match serde_json::from_slice::<serde_json::Value>(body) {
        Ok(v) => Some(v.get(key).and_then(|c| c.as_str()).map(|c| c.to_string())),
        Err(_) => None,
    }
}

/// Why a request body was refused.
pub enum BodyError {
    /// The body is not JSON.
    InvalidJson,
    /// The field the request needs is missing or empty.
    MissingField,
}

/// The answer for a refused body: "Invalid JSON body", or
/// "Missing \"{field}\" field".
pub open spec fn body_error_spec(e: BodyError, field: Seq<char>) -> Seq<char> {
    match e {
        BodyError::InvalidJson => "Invalid JSON body"@,
        BodyError::MissingField => "Missing \""@ + field + "\" field"@,
    }
}

/// The error text for a refused body.
pub fn body_error_text(e: &BodyError, field: &str) -> (r: String)
    ensures
        r@ == body_error_spec(*e, field@),
{
    match e {
        BodyError::InvalidJson => owned("Invalid JSON body"),
        BodyError::MissingField => crate::text::concat3("Missing \"", field, "\" field"),
    }
}

/// The command a control API body asks for: refused when the body is not
/// JSON, or has no `cmd` text, or its `cmd` is blank; else the command
/// read from its `cmd` text.
pub fn api_command_of_body(body: &[u8]) -> (r: Result<Command, BodyError>)
    ensures
        match json_text_field(body@, "cmd"@) {
            None => r matches Err(BodyError::InvalidJson),
            Some(None) => r matches Err(BodyError::MissingField),
            Some(Some(c)) => if api_command(c) is Empty {
                r matches Err(BodyError::MissingField)
            } else {
                r matches Ok(cmd) && cmd@ == api_command(c)
            },
        },
{
    match body_text_field(body, "cmd") {
        None => Err(BodyError::InvalidJson),
        Some(None) => Err(BodyError::MissingField),
        Some(Some(c)) => {
            let cmd = parse_api_command(c.as_str());
            match cmd {
                Command::Empty => Err(BodyError::MissingField),
                _ => Ok(cmd),
            }
        },
    }
}

/// A field's text, or nothing when the body is not JSON or has no such
/// text field.
pub open spec fn field_or_empty(f: Option<Option<Seq<char>>>) -> Seq<char> {
    match f {
        Some(Some(t)) => t,
        _ => seq![],
    }
}

/// A field's text, or empty when the body is not JSON or has no such text
/// field (the report's extra context, logcat's filter).
pub fn optional_field(body: &[u8], key: &str) -> (r: String)
    ensures
        r@ == field_or_empty(json_text_field(body@, key@)),
{
    match body_text_field(body, key) {
        Some(Some(t)) => t,
        _ => String::new(),
    }
}

/// The filter a logcat start asks for: refused when the body is not JSON;
/// else its `filter` text, or empty when it has none.
pub fn logcat_filter_of_body(body: &[u8]) -> (r: Result<String, BodyError>)
    ensures
        match json_text_field(body@, "filter"@) {
            None => r matches Err(BodyError::InvalidJson),
            Some(f) => r matches Ok(t) && t@ == field_or_empty(Some(f)),
        },
{
    match body_text_field(body, "filter") {
        None => Err(BodyError::InvalidJson),
        Some(Some(t)) => Ok(t),
        Some(None) => Ok(String::new()),
    }
}

/// A question to the assistant: refused when the body is not JSON or its
/// `question` is missing or empty; else the question and the `context`
/// text, if the body has one.
pub fn question_of_body(body: &[u8]) -> (r: Result<(String, Option<String>), BodyError>)
    ensures
        match json_text_field(body@, "question"@) {
            None => r matches Err(BodyError::InvalidJson),
            Some(q) => {
                let question = match q {
                    Some(t) => t,
                    None => seq![],
                };
                if question.len() == 0 {
                    r matches Err(BodyError::MissingField)
                } else {
                    r matches Ok((t, c)) && t@ == question && (json_text_field(body@, "context"@)
                        matches Some(cf) && opt_text(c) == cf)
                }
            },
        },
{
    let q = match body_text_field(body, "question") {
        None => return Err(BodyError::InvalidJson),
        Some(q) => q,
    };
    let question = match q {
        Some(t) => t,
        None => String::new(),
    };
    if question.as_str().is_empty() {
        return Err(BodyError::MissingField);
    }
    let context = match body_text_field(body, "context") {
        Some(c) => c,
        None => None,
    };
    Ok((question, context))
}

/// An observation to forward: refused when the body is not JSON or its
/// `message` is missing or empty; else the message and the `urgency`
/// ("medium" when not given).
pub fn observation_of_body(body: &[u8]) -> (r: Result<(String, String), BodyError>)
    ensures
        match json_text_field(body@, "message"@) {
            None => r matches Err(BodyError::InvalidJson),
            Some(m) => {
                let message = match m {
                    Some(t) => t,
                    None => seq![],
                };
                if message.len() == 0 {
                    r matches Err(BodyError::MissingField)
                } else {
                    r matches Ok((t, u)) && t@ == message && (json_text_field(body@, "urgency"@)
                        matches Some(uf) && u@ == match uf {
                        Some(x) => x,
                        None => "medium"@,
                    })
                }
            },
        },
{
    let m = match body_text_field(body, "message") {
        None => return Err(BodyError::InvalidJson),
        Some(m) => m,
    };
    let message = match m {
        Some(t) => t,
        None => String::new(),
    };
    if message.as_str().is_empty() {
        return Err(BodyError::MissingField);
    }
    let urgency = match body_text_field(body, "urgency") {
        Some(Some(u)) => u,
        _ => owned("medium"),
    };
    Ok((message, urgency))
}

} // verus!
