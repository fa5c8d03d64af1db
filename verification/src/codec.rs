//! The wire protocol: typed requests and responses, decoding one line of
//! text into a request, and encoding a response as one line of JSON.
//!
//! Success lines have the shape `{"id":...,"type":"response","result":...}`,
//! error lines `{"id":...,"type":"error","error":{"code":...,"message":...}}`
//! with an optional `data` member. Encoding never fails: serde_json cannot
//! fail to quote a string or serialize a `Value`, and behind those
//! impossible branches a hand-built minimal -32603 error line stands as a
//! defensive last resort.

use vstd::prelude::*;
use vstd::string::*;
use crate::json::{
    json_quote, json_quoted, json_value_to_text, parse_request_members, req_decodes, req_fn_of,
    req_id_of,
};
use crate::text::{i64_to_string, spec_int_str};

verus! {

/// The request line was not valid JSON or lacked a required field.
pub const PARSE_ERROR_CODE: i32 = -32700;

/// The requested tool is not present in the registry.
pub const NOT_FOUND_CODE: i32 = -32601;

/// Internal failure while encoding a response.
pub const INTERNAL_ERROR_CODE: i32 = -32603;

/// The resolved handler itself failed.
pub const HANDLER_ERROR_CODE: i32 = -32000;

/// One decoded request: a correlation id, the tool to invoke, and its
/// arguments.
pub struct McpRequest {
    /// Client-supplied correlation id, echoed in the response.
    pub id: String,
    /// Name of the tool to invoke.
    pub function: String,
    /// Arbitrary argument value handed to the tool's handler.
    pub arguments: serde_json::Value,
}

/// The error half of a response.
pub struct ErrorPayload {
    /// One of the fixed protocol error codes.
    pub code: i32,
    /// Human-readable description.
    pub message: String,
    /// Optional structured detail.
    pub data: Option<serde_json::Value>,
}

/// What a response carries: a result value or an error.
pub enum ResponseBody {
    /// The handler succeeded with this result value.
    Success { result: serde_json::Value },
    /// Decoding, dispatch or the handler failed.
    Failure { error: ErrorPayload },
}

/// One response, before encoding: the id it answers and its body.
pub struct WireResponse {
    /// The id of the request this answers.
    pub id: String,
    /// Result value or error.
    pub body: ResponseBody,
}

/// The placeholder id used when the true request id cannot be recovered
/// from unparsable input.
pub open spec fn spec_invalid_request_id() -> Seq<char> {
    "invalid-request"@
}

/// Message of a -32700 response.
pub open spec fn spec_parse_error_message() -> Seq<char> {
    "invalid request"@
}

/// Message prefix of a -32601 response; the tool name follows verbatim.
pub open spec fn spec_not_found_prefix() -> Seq<char> {
    "tool not found: "@
}

/// Message prefix of a -32000 response; the handler's failure text follows
/// verbatim.
pub open spec fn spec_handler_error_prefix() -> Seq<char> {
    "error executing tool: "@
}

/// The encoded form of an error response.
pub open spec fn spec_error_line(
    id: Seq<char>,
    code: int,
    message: Seq<char>,
    data_text: Option<Seq<char>>,
) -> Seq<char> {
    "{\"id\":"@ + json_quoted(id) + ",\"type\":\"error\",\"error\":{\"code\":"@ + spec_int_str(
        code,
    ) + ",\"message\":"@ + json_quoted(message) + (match data_text {
        Option::Some(t) => ",\"data\":"@ + t,
        Option::None => Seq::<char>::empty(),
    }) + "}}"@
}

/// The encoded form of a success response, given the JSON text of its result
/// value.
pub open spec fn spec_success_line(id: Seq<char>, result_text: Seq<char>) -> Seq<char> {
    "{\"id\":"@ + json_quoted(id) + ",\"type\":\"response\",\"result\":"@ + result_text + "}"@
}

/// The hand-built minimal error line used when serde_json would not quote a
/// string: the id is embedded raw.
pub open spec fn spec_fallback_line(id: Seq<char>) -> Seq<char> {
    "{\"id\":\""@ + id
        + "\",\"type\":\"error\",\"error\":{\"code\":-32603,\"message\":\"internal error while building error response\"}}"@
}

/// Decode one line of text, without its terminating newline, into a
/// request. `None` exactly when the line does not decode: it is not valid
/// JSON, or is not an object carrying a string `id`, a string `function` and
/// an `arguments` member. On success the id and function fields are the
/// decoded members of the text.
pub fn decode_request(line: &str) -> (r: Option<McpRequest>)
    ensures
        r is Some <==> req_decodes(line@),
        r matches Some(req) ==> req.id@ == req_id_of(line@) && req.function@ == req_fn_of(line@),
{
    match parse_request_members(line) {
        Option::None => Option::None,
        Option::Some((id, function, arguments)) => Option::Some(
            McpRequest { id, function, arguments },
        ),
    }
}

/// The hand-built minimal error line with code -32603.
fn fallback_error_line(id: &str) -> (r: String)
    ensures
        r@ == spec_fallback_line(id@),
{
    let mut out = String::new();
    out.append("{\"id\":\"");
    out.append(id);
    out.append(
        "\",\"type\":\"error\",\"error\":{\"code\":-32603,\"message\":\"internal error while building error response\"}}",
    );
    proof {
        assert(out@ =~= spec_fallback_line(id@));
    }
    out
}

/// Encode an error response as one line of JSON. The line is always the
/// error line itself: quoting the id and the message cannot fail, so the
/// hand-built fallback branch below is never taken.
pub fn encode_error_line(
    id: &str,
    code: i32,
    message: &str,
    data: Option<&serde_json::Value>,
) -> (r: String)
    ensures
        data is None ==> r@ == spec_error_line(id@, code as int, message@, Option::None),
        data is Some ==> (exists|t: Seq<char>|
            r@ == spec_error_line(id@, code as int, message@, Option::Some(t))),
{
    let qid = match json_quote(id) {
        Option::Some(q) => q,
        Option::None => {
            return fallback_error_line(id);
        },
    };
    let qmsg = match json_quote(message) {
        Option::Some(q) => q,
        Option::None => {
            return fallback_error_line(id);
        },
    };
    let mut out = String::new();
    out.append("{\"id\":");
    out.append(qid.as_str());
    out.append(",\"type\":\"error\",\"error\":{\"code\":");
    let code_text = i64_to_string(code as i64);
    out.append(code_text.as_str());
    out.append(",\"message\":");
    out.append(qmsg.as_str());
    match data {
        Option::Some(d) => {
            let data_text = match json_value_to_text(d) {
                Option::Some(t) => t,
                Option::None => {
                    return fallback_error_line(id);
                },
            };
            out.append(",\"data\":");
            out.append(data_text.as_str());
            out.append("}}");
            proof {
                assert(out@ =~= spec_error_line(
                    id@,
                    code as int,
                    message@,
                    Option::Some(data_text@),
                ));
            }
            out
        },
        Option::None => {
            out.append("}}");
            proof {
                assert(out@ =~= spec_error_line(id@, code as int, message@, Option::None));
            }
            out
        },
    }
}

/// Encode a success response as one line of JSON, given the already-encoded
/// text of the result value.
pub fn encode_success_line(id: &str, result_text: &str) -> (r: String)
    ensures
        r@ == spec_success_line(id@, result_text@),
{
    let qid = match json_quote(id) {
        Option::Some(q) => q,
        Option::None => {
            return fallback_error_line(id);
        },
    };
    let mut out = String::new();
    out.append("{\"id\":");
    out.append(qid.as_str());
    out.append(",\"type\":\"response\",\"result\":");
    out.append(result_text);
    out.append("}");
    proof {
        assert(out@ =~= spec_success_line(id@, result_text@));
    }
    out
}

/// The response for a line that could not be decoded: error -32700 under the
/// placeholder id.
pub fn parse_failure_response() -> (r: WireResponse)
    ensures
        r.id@ == spec_invalid_request_id(),
        r.body matches ResponseBody::Failure { error } && error.code == PARSE_ERROR_CODE
            && error.message@ == spec_parse_error_message() && error.data is None,
{
    WireResponse {
        id: String::from_str("invalid-request"),
        body: ResponseBody::Failure {
            error: ErrorPayload {
                code: PARSE_ERROR_CODE,
                message: String::from_str("invalid request"),
                data: Option::None,
            },
        },
    }
}

/// The response for a request naming a tool absent from the registry: error
/// -32601, message carrying the requested name verbatim.
pub fn not_found_response(id: &str, function: &str) -> (r: WireResponse)
    ensures
        r.id@ == id@,
        r.body matches ResponseBody::Failure { error } && error.code == NOT_FOUND_CODE
            && error.message@ == spec_not_found_prefix() + function@ && error.data is None,
{
    let mut message = String::from_str("tool not found: ");
    message.append(function);
    WireResponse {
        id: id.to_owned(),
        body: ResponseBody::Failure {
            error: ErrorPayload { code: NOT_FOUND_CODE, message, data: Option::None },
        },
    }
}

/// The response for a handler's outcome: its result value on success, error
/// -32000 carrying its failure text otherwise. The id always echoes the
/// request id.
pub fn outcome_response(id: &str, outcome: Result<serde_json::Value, String>) -> (r: WireResponse)
    ensures
        r.id@ == id@,
        outcome matches Ok(v) ==> r.body matches ResponseBody::Success { result } && result == v,
        outcome matches Err(m) ==> r.body matches ResponseBody::Failure { error } && error.code
            == HANDLER_ERROR_CODE && error.message@ == spec_handler_error_prefix() + m@
            && error.data is None,
{
    match outcome {
        Result::Ok(v) => WireResponse {
            id: id.to_owned(),
            body: ResponseBody::Success { result: v },
        },
        Result::Err(m) => {
            let mut message = String::from_str("error executing tool: ");
            message.append(m.as_str());
            WireResponse {
                id: id.to_owned(),
                body: ResponseBody::Failure {
                    error: ErrorPayload { code: HANDLER_ERROR_CODE, message, data: Option::None },
                },
            }
        },
    }
}

/// Law: an error message built as a fixed prefix followed by a given text —
/// the tool name in a -32601 response, the handler's failure text in a
/// -32000 response — carries that text verbatim: it stands unchanged at the
/// message's end.
pub proof fn lemma_prefixed_message_carries_text(prefix: Seq<char>, text: Seq<char>)
    ensures
        (prefix + text).subrange(prefix.len() as int, (prefix + text).len() as int) == text,
        (prefix + text).len() >= text.len(),
{
    assert((prefix + text).subrange(prefix.len() as int, (prefix + text).len() as int) =~= text);
}

/// Encode a response as one line of JSON: an error response yields its
/// error line, a success response a success line carrying its result's JSON
/// text. Serializing a `Value` cannot fail, so the defensive -32603 branch
/// below is never taken.
pub fn encode_response(resp: &WireResponse) -> (r: String)
    ensures
        resp.body matches ResponseBody::Failure { error } ==> ((error.data is None ==> r@
            == spec_error_line(resp.id@, error.code as int, error.message@, Option::None)) && (
        error.data is Some ==> (exists|t: Seq<char>|
            r@ == spec_error_line(resp.id@, error.code as int, error.message@, Option::Some(t))))),
        resp.body is Success ==> (exists|t: Seq<char>| r@ == spec_success_line(resp.id@, t)),
{
    match &resp.body {
        ResponseBody::Success { result } => {
            match json_value_to_text(result) {
                Option::Some(t) => {
                    let line = encode_success_line(resp.id.as_str(), t.as_str());
                    proof {
                        assert(exists|tt: Seq<char>| line@ == spec_success_line(resp.id@, tt)) by {
                            assert(line@ == spec_success_line(resp.id@, t@));
                        }
                    }
                    line
                },
                Option::None => encode_error_line(
                    resp.id.as_str(),
                    INTERNAL_ERROR_CODE,
                    "internal error while encoding response",
                    Option::None,
                ),
            }
        },
        ResponseBody::Failure { error } => {
            match &error.data {
                Option::Some(d) => encode_error_line(
                    resp.id.as_str(),
                    error.code,
                    error.message.as_str(),
                    Option::Some(d),
                ),
                Option::None => encode_error_line(
                    resp.id.as_str(),
                    error.code,
                    error.message.as_str(),
                    Option::None,
                ),
            }
        },
    }
}

} // verus!
