//! The tools the model can call: their names and schemas, how their arguments are read, the
//! requests they make, and how their responses and failures become results.
pub mod fetch_url_tool;
pub mod get_crypto_price_tool;
pub mod get_weather_tool;
pub mod search_web_tool;
pub mod tool_registry;

use vstd::prelude::*;
use vstd::utf8::encode_utf8;
use crate::json::{
    field_views, json_array, json_object, json_quote, json_quote_spec, json_str_field, write_json_array,
    write_json_object,
};
use crate::text::push_str;
use crate::types::{ToolError, ToolErrorView};

verus! {

/// The status line of an HTTP response: its code and its text, such as `404 Not Found`.
#[derive(Debug)]
pub struct HttpStatus {
    pub code: u16,
    pub text: String,
}

/// A request that failed before any response: whether it timed out, whether connecting
/// failed, and the error's text.
#[derive(Debug)]
pub struct SendFailure {
    pub timeout: bool,
    pub connect: bool,
    pub message: String,
}

/// A degraded failure of `url`.
pub open spec fn degraded(url: Seq<char>, reason: Seq<char>) -> ToolErrorView {
    ToolErrorView::Degraded { url, reason }
}

/// A 2xx status.
pub open spec fn is_success_code(code: u16) -> bool {
    200 <= code <= 299
}

/// The error for a required argument that is missing or not a string.
pub open spec fn missing_parameter(name: Seq<char>) -> ToolErrorView {
    ToolErrorView::NonRetryable("missing required parameter: "@ + name)
}

/// Reads the required string argument `name` from the arguments `args`.
pub fn required_str_argument(args: &str, name: &str) -> (res: Result<String, ToolError>)
    ensures
        match json_str_field(args@, name@) {
            Some(v) => res matches Ok(s) && s@ == v,
            None => res matches Err(e) && e@ == missing_parameter(name@),
        },
{
    match crate::json::json_str_field_of(args, name) {
        Some(v) => Ok(v),
        None => {
            let mut m = "missing required parameter: ".to_string();
            push_str(&mut m, name);
            Err(ToolError::NonRetryable(m))
        },
    }
}

// ---------------------------------------------------------------------------
// Percent-encoding
// ---------------------------------------------------------------------------

/// Bytes that percent-encoding keeps: ASCII letters, digits, `-`, `.`, `_` and `~`.
pub open spec fn unreserved(b: u8) -> bool {
    (48 <= b <= 57) || (65 <= b <= 90) || (97 <= b <= 122) || b == 45 || b == 46 || b == 95
        || b == 126
}

/// An upper-case hexadecimal digit.
pub open spec fn hex_digit(d: u8) -> char {
    if d < 10 {
        (48 + d) as char
    } else {
        (55 + d) as char
    }
}

pub open spec fn encode_byte(b: u8) -> Seq<char> {
    if unreserved(b) {
        seq![b as char]
    } else {
        seq!['%', hex_digit(b / 16), hex_digit(b % 16)]
    }
}

pub open spec fn percent_encode(bytes: Seq<u8>) -> Seq<char>
    decreases bytes.len(),
{
    if bytes.len() == 0 {
        Seq::empty()
    } else {
        percent_encode(bytes.drop_last()) + encode_byte(bytes.last())
    }
}

/// `s` percent-encoded: every UTF-8 byte but the unreserved ones becomes `%XX`.
pub open spec fn url_encoded(s: Seq<char>) -> Seq<char> {
    percent_encode(encode_utf8(s))
}

/// Percent-encodes `s` with `urlencoding::encode`, which encodes every UTF-8 byte except
/// ASCII alphanumerics and `-`, `_`, `.`, `~` as `%` and two upper-case hex digits.
#[verifier::external_body]
pub(crate) fn url_encode(s: &str) -> (res: String)
    ensures
        res@ == url_encoded(s@),
{
    urlencoding::encode(s).into_owned()
}


// ---------------------------------------------------------------------------
// Tool schemas
// ---------------------------------------------------------------------------

/// The schema of one parameter: its JSON type and its description.
pub open spec fn schema_property(ty: Seq<char>, description: Seq<char>) -> Seq<char> {
    json_object(seq![("type"@, json_quote_spec(ty)), ("description"@, json_quote_spec(description))])
}

/// The schema of a tool's parameters: an object with these properties, of which one is
/// required.
pub open spec fn schema_parameters(
    properties: Seq<(Seq<char>, Seq<char>)>,
    required: Seq<char>,
) -> Seq<char> {
    json_object(
        seq![
            ("type"@, json_quote_spec("object"@)),
            ("properties"@, json_object(properties)),
            ("required"@, json_array(seq![json_quote_spec(required)])),
        ],
    )
}

/// A function's schema: its name, its description and its parameters.
pub open spec fn function_schema(name: Seq<char>, description: Seq<char>, parameters: Seq<char>) -> Seq<
    char,
> {
    json_object(
        seq![
            ("name"@, json_quote_spec(name)),
            ("description"@, json_quote_spec(description)),
            ("parameters"@, parameters),
        ],
    )
}

/// A function's schema inside a `{"type": "function", "function": …}` envelope.
pub open spec fn typed_function_schema(
    name: Seq<char>,
    description: Seq<char>,
    parameters: Seq<char>,
) -> Seq<char> {
    json_object(
        seq![
            ("type"@, json_quote_spec("function"@)),
            ("function"@, function_schema(name, description, parameters)),
        ],
    )
}

pub fn write_schema_property(ty: &str, description: &str) -> (res: String)
    ensures
        res@ == schema_property(ty@, description@),
{
    let mut fields: Vec<(String, String)> = Vec::new();
    fields.push(("type".to_string(), json_quote(ty)));
    fields.push(("description".to_string(), json_quote(description)));
    let res = write_json_object(&fields);
    assert(field_views(fields@) =~= seq![
        ("type"@, json_quote_spec(ty@)),
        ("description"@, json_quote_spec(description@)),
    ]);
    res
}

pub fn write_schema_parameters(properties: &Vec<(String, String)>, required: &str) -> (res: String)
    ensures
        res@ == schema_parameters(field_views(properties@), required@),
{
    let mut req: Vec<String> = Vec::new();
    req.push(json_quote(required));
    let req_text = write_json_array(&req);
    assert(req.deep_view() =~= seq![json_quote_spec(required@)]);
    let mut fields: Vec<(String, String)> = Vec::new();
    fields.push(("type".to_string(), json_quote("object")));
    fields.push(("properties".to_string(), write_json_object(properties)));
    fields.push(("required".to_string(), req_text));
    let res = write_json_object(&fields);
    assert(field_views(fields@) =~= seq![
        ("type"@, json_quote_spec("object"@)),
        ("properties"@, json_object(field_views(properties@))),
        ("required"@, json_array(seq![json_quote_spec(required@)])),
    ]);
    res
}

pub fn write_function_schema(name: &str, description: &str, parameters: String) -> (res: String)
    ensures
        res@ == function_schema(name@, description@, parameters@),
{
    let ghost p = parameters@;
    let mut fields: Vec<(String, String)> = Vec::new();
    fields.push(("name".to_string(), json_quote(name)));
    fields.push(("description".to_string(), json_quote(description)));
    fields.push(("parameters".to_string(), parameters));
    let res = write_json_object(&fields);
    assert(field_views(fields@) =~= seq![
        ("name"@, json_quote_spec(name@)),
        ("description"@, json_quote_spec(description@)),
        ("parameters"@, p),
    ]);
    res
}

pub fn write_typed_function_schema(name: &str, description: &str, parameters: String) -> (res:
    String)
    ensures
        res@ == typed_function_schema(name@, description@, parameters@),
{
    let mut fields: Vec<(String, String)> = Vec::new();
    fields.push(("type".to_string(), json_quote("function")));
    let ghost p = parameters@;
    fields.push(("function".to_string(), write_function_schema(name, description, parameters)));
    let res = write_json_object(&fields);
    assert(field_views(fields@) =~= seq![
        ("type"@, json_quote_spec("function"@)),
        ("function"@, function_schema(name@, description@, p)),
    ]);
    res
}


/// A retryable error whose message is `prefix` followed by `detail`.
pub fn retryable_error(prefix: &str, detail: &str) -> (res: ToolError)
    ensures
        res@ == ToolErrorView::Retryable(prefix@ + detail@),
{
    let mut m = prefix.to_string();
    push_str(&mut m, detail);
    ToolError::Retryable(m)
}

/// A non-retryable error whose message is `prefix` followed by `detail`.
pub fn non_retryable_error(prefix: &str, detail: &str) -> (res: ToolError)
    ensures
        res@ == ToolErrorView::NonRetryable(prefix@ + detail@),
{
    let mut m = prefix.to_string();
    push_str(&mut m, detail);
    ToolError::NonRetryable(m)
}

} // verus!
