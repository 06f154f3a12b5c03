//! The library's own model of a JSON document, and the trusted boundary to
//! serde_json for parsing and serializing text.
//!
//! Numbers are carried as their literal token text: the engine never computes
//! with them, it only moves them between a tool's output and the model's
//! input. Objects are ordered lists of fields, as parsed.

use vstd::prelude::*;

verus! {

/// A JSON document. Object fields keep the order in which they were parsed
/// or built; the engine treats field order as significant only for display.
#[derive(Debug, PartialEq, Eq)]
pub enum JsonValue {
    Null,
    Bool(bool),
    /// The number's literal token text, e.g. `1`, `-2.5e3`.
    Number(String),
    Str(String),
    Array(Vec<JsonValue>),
    Object(Vec<(String, JsonValue)>),
}

/// The sentinel a finished call with nothing to report is replaced by.
pub open spec fn is_done_sentinel(v: JsonValue) -> bool {
    v matches JsonValue::Str(s) && s@ == "DONE"@
}

/// Output that carries no information for the model: JSON null or the
/// `"DONE"` sentinel.
pub open spec fn is_null_or_done(v: JsonValue) -> bool {
    v is Null || is_done_sentinel(v)
}

/// `v` is `{"error": true, "message": <msg>}`.
pub open spec fn is_error_message_object(v: JsonValue, msg: Seq<char>) -> bool {
    &&& v matches JsonValue::Object(fields)
    &&& fields@.len() == 2
    &&& fields@[0].0@ == "error"@
    &&& fields@[0].1 == JsonValue::Bool(true)
    &&& fields@[1].0@ == "message"@
    &&& fields@[1].1 matches JsonValue::Str(s) && s@ == msg
}

/// `v` is `{"error": true, "stdout": <out>, "stderr": <err>}`.
pub open spec fn is_process_failure_object(v: JsonValue, out: Seq<char>, err: Seq<char>) -> bool {
    &&& v matches JsonValue::Object(fields)
    &&& fields@.len() == 3
    &&& fields@[0].0@ == "error"@
    &&& fields@[0].1 == JsonValue::Bool(true)
    &&& fields@[1].0@ == "stdout"@
    &&& fields@[1].1 matches JsonValue::Str(s) && s@ == out
    &&& fields@[2].0@ == "stderr"@
    &&& fields@[2].1 matches JsonValue::Str(s) && s@ == err
}

/// `v` is `{"output": <text>}`: the wrapper for tool output that is not
/// itself valid JSON.
pub open spec fn is_output_wrapper(v: JsonValue, text: Seq<char>) -> bool {
    &&& v matches JsonValue::Object(fields)
    &&& fields@.len() == 1
    &&& fields@[0].0@ == "output"@
    &&& fields@[0].1 matches JsonValue::Str(s) && s@ == text
}

impl JsonValue {
    pub fn is_null(&self) -> (b: bool)
        ensures
            b == (*self is Null),
    {
        match self {
            JsonValue::Null => true,
            _ => false,
        }
    }

    pub fn is_null_or_done(&self) -> (b: bool)
        ensures
            b == is_null_or_done(*self),
    {
        match self {
            JsonValue::Null => true,
            JsonValue::Str(s) => {
                let done: String = "DONE".to_owned();
                *s == done
            },
            _ => false,
        }
    }
}

/// Builds `{"error": true, "message": <message>}`.
pub fn error_message_object(message: String) -> (r: JsonValue)
    ensures
        is_error_message_object(r, message@),
{
    let mut fields: Vec<(String, JsonValue)> = Vec::new();
    fields.push(("error".to_owned(), JsonValue::Bool(true)));
    fields.push(("message".to_owned(), JsonValue::Str(message)));
    JsonValue::Object(fields)
}

/// Builds `{"error": true, "stdout": <stdout>, "stderr": <stderr>}`.
pub fn process_failure_object(stdout: String, stderr: String) -> (r: JsonValue)
    ensures
        is_process_failure_object(r, stdout@, stderr@),
{
    let mut fields: Vec<(String, JsonValue)> = Vec::new();
    fields.push(("error".to_owned(), JsonValue::Bool(true)));
    fields.push(("stdout".to_owned(), JsonValue::Str(stdout)));
    fields.push(("stderr".to_owned(), JsonValue::Str(stderr)));
    JsonValue::Object(fields)
}

/// Builds `{"output": <text>}`.
pub fn output_wrapper_object(text: String) -> (r: JsonValue)
    ensures
        is_output_wrapper(r, text@),
{
    let mut fields: Vec<(String, JsonValue)> = Vec::new();
    fields.push(("output".to_owned(), JsonValue::Str(text)));
    JsonValue::Object(fields)
}

/// What serde_json parses the given text to: `None` when the text is not a
/// valid JSON document, otherwise the document. A function of the text alone.
pub uninterp spec fn parsed_json(text: Seq<char>) -> Option<JsonValue>;

/// The compact serde_json rendering of the given document. A function of the
/// document alone.
pub uninterp spec fn json_text(v: JsonValue) -> Seq<char>;

#[verifier::external_type_specification]
#[verifier::external_body]
pub struct ExValue(serde_json::Value);

/// Relies on serde_json::from_str for `serde_json::Value`: returns the parsed
/// document, or `None` when the text is not valid JSON.
#[verifier::external_body]
pub fn parse_json(text: &str) -> (r: Option<JsonValue>)
    ensures
        r == parsed_json(text@),
{
    serde_json::from_str::<serde_json::Value>(text).ok().map(decode_value)
}

/// Relies on serde_json's compact `Display` rendering of `serde_json::Value`.
#[verifier::external_body]
pub fn to_json_string(v: &JsonValue) -> (r: String)
    ensures
        r@ == json_text(*v),
{
    encode_value(v).to_string()
}

/// Rebuilds a tree that serde_json parsed as a `JsonValue`, variant by
/// variant; only called from the body of `parse_json`.
#[verifier::external_body]
fn decode_value(v: serde_json::Value) -> JsonValue {
    match v {
        serde_json::Value::Null => JsonValue::Null,
        serde_json::Value::Bool(b) => JsonValue::Bool(b),
        serde_json::Value::Number(n) => JsonValue::Number(n.to_string()),
        serde_json::Value::String(s) => JsonValue::Str(s),
        serde_json::Value::Array(a) => JsonValue::Array(a.into_iter().map(decode_value).collect()),
        serde_json::Value::Object(m) => JsonValue::Object(
            m.into_iter().map(|(k, w)| (k, decode_value(w))).collect(),
        ),
    }
}

/// Rebuilds a `JsonValue` as a serde_json tree, variant by variant; a number
/// token that serde_json does not accept is carried as a string. Only called
/// from the body of `to_json_string`.
#[verifier::external_body]
fn encode_value(v: &JsonValue) -> serde_json::Value {
    match v {
        JsonValue::Null => serde_json::Value::Null,
        JsonValue::Bool(b) => serde_json::Value::Bool(*b),
        JsonValue::Number(n) => match n.parse::<serde_json::Number>() {
            Ok(num) => serde_json::Value::Number(num),
            Err(_) => serde_json::Value::String(n.clone()),
        },
        JsonValue::Str(s) => serde_json::Value::String(s.clone()),
        JsonValue::Array(a) => serde_json::Value::Array(a.iter().map(encode_value).collect()),
        JsonValue::Object(f) => serde_json::Value::Object(
            f.iter().map(|(k, w)| (k.clone(), encode_value(w))).collect(),
        ),
    }
}

} // verus!
