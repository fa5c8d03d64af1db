//! The boundary to serde_json. JSON argument and result values flow through
//! the dispatch logic as opaque `serde_json::Value`s; the few serde_json
//! calls the logic needs stand here behind trusted declarations.

use vstd::prelude::*;

verus! {

/// Declares serde_json::Value so that it can stand in signatures and
/// fields: an arbitrary JSON value, opaque to the verifier, carried through
/// the dispatch logic untouched.
#[verifier::external_type_specification]
#[verifier::external_body]
pub struct ExValue(serde_json::Value);

/// Whether serde_json accepts a piece of text as one complete JSON value.
pub uninterp spec fn json_parses(s: Seq<char>) -> bool;

/// Whether a line of text decodes as a request: it parses as one JSON value
/// that carries a string member `id`, a string member `function`, and a
/// member `arguments`. Text that `json_parses` rejects never decodes.
pub uninterp spec fn req_decodes(s: Seq<char>) -> bool;

/// The `id` member of a line that decodes.
pub uninterp spec fn req_id_of(s: Seq<char>) -> Seq<char>;

/// The `function` member of a line that decodes.
pub uninterp spec fn req_fn_of(s: Seq<char>) -> Seq<char>;

/// The JSON rendering of a string value: the text quoted and escaped as
/// serde_json serializes a Rust string.
pub uninterp spec fn json_quoted(s: Seq<char>) -> Seq<char>;

/// Relies on serde_json::from_str::<Value>: parses text as one JSON value;
/// whether it succeeds is a function of the text alone.
#[verifier::external_body]
pub fn parse_json(s: &str) -> (r: Option<serde_json::Value>)
    ensures
        r is Some <==> json_parses(s@),
{
    serde_json::from_str::<serde_json::Value>(s).ok()
}

/// Relies on serde_json::from_str::<Value>, Value::get, Value::as_str and
/// Value::clone: parse one line and take its three request members. Whether
/// this succeeds, and which two strings it yields, are functions of the text
/// alone.
#[verifier::external_body]
pub(crate) fn parse_request_members(line: &str) -> (r: Option<(String, String, serde_json::Value)>)
    ensures
        r is Some <==> req_decodes(line@),
        r matches Some(t) ==> t.0@ == req_id_of(line@) && t.1@ == req_fn_of(line@),
{
    let v: serde_json::Value = serde_json::from_str(line).ok()?;
    let id = v.get("id")?.as_str()?.to_string();
    let function = v.get("function")?.as_str()?.to_string();
    let arguments = v.get("arguments")?.clone();
    Some((id, function, arguments))
}

/// Relies on serde_json::to_string::<Value>: the single-line JSON text of
/// the value. Serialization of a `Value` has no failure path — it holds only
/// units, booleans, numbers, strings, arrays and string-keyed maps.
#[verifier::external_body]
pub fn json_value_to_text(v: &serde_json::Value) -> (r: Option<String>)
    ensures
        r is Some,
{
    serde_json::to_string(v).ok()
}

/// Relies on serde_json::to_string::<str>: serializing a string produces its
/// quoted, escaped JSON form, a function of the characters alone. It cannot
/// fail: to_string errs only when a Serialize impl fails or a map has
/// non-string keys, and a string has neither.
#[verifier::external_body]
pub fn json_quote(s: &str) -> (r: Option<String>)
    ensures
        r is Some,
        r matches Some(q) ==> q@ == json_quoted(s@),
{
    serde_json::to_string(s).ok()
}

} // verus!
