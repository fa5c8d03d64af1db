//! Tests of the wire codec: decoding request lines, encoding responses, and
//! the per-line bookkeeping.

use iterm_mcp::codec::{
    decode_request, encode_response, not_found_response, outcome_response, parse_failure_response,
    ResponseBody,
};
use iterm_mcp::router::{LineOutcome, Router, ToolHandler};
use iterm_mcp::stats::ServerStats;
use iterm_mcp::tools::tool_definitions;

struct IdentityHandler;

impl ToolHandler for IdentityHandler {
    fn invoke(&self, arguments: serde_json::Value) -> Result<serde_json::Value, String> {
        Ok(arguments)
    }
}

#[test]
fn decode_request_reads_the_three_fields() {
    let req = decode_request(r#"{"id":"r","function":"f","arguments":[1,2]}"#).unwrap();
    assert_eq!(req.id, "r");
    assert_eq!(req.function, "f");
    assert_eq!(req.arguments, serde_json::from_str::<serde_json::Value>("[1,2]").unwrap());
}

#[test]
fn decode_request_rejects_bad_lines() {
    assert!(decode_request("not json at all").is_none());
    assert!(decode_request(r#"{"id":"r","function":"f"}"#).is_none());
    assert!(decode_request(r#"{"id":7,"function":"f","arguments":{}}"#).is_none());
    assert!(decode_request(r#"{"function":"f","arguments":{}}"#).is_none());
}

#[test]
fn parse_failure_encodes_with_placeholder_id() {
    let line = encode_response(&parse_failure_response());
    let json: serde_json::Value = serde_json::from_str(&line).unwrap();
    assert_eq!(json["id"], "invalid-request");
    assert_eq!(json["type"], "error");
    assert_eq!(json["error"]["code"], -32700);
}

#[test]
fn not_found_message_carries_the_name_verbatim() {
    let resp = not_found_response("id-9", "ns:odd name");
    assert_eq!(resp.id, "id-9");
    match resp.body {
        ResponseBody::Failure { error } => {
            assert_eq!(error.code, -32601);
            assert_eq!(error.message, "tool not found: ns:odd name");
            assert!(error.data.is_none());
        }
        ResponseBody::Success { .. } => panic!("expected a failure"),
    }
}

#[test]
fn outcome_response_maps_both_outcomes() {
    let ok = outcome_response("a", Ok(serde_json::Value::Bool(true)));
    assert_eq!(ok.id, "a");
    match ok.body {
        ResponseBody::Success { result } => assert_eq!(result, serde_json::Value::Bool(true)),
        ResponseBody::Failure { .. } => panic!("expected success"),
    }

    let err = outcome_response("b", Err("device busy".to_string()));
    assert_eq!(err.id, "b");
    match err.body {
        ResponseBody::Failure { error } => {
            assert_eq!(error.code, -32000);
            assert_eq!(error.message, "error executing tool: device busy");
        }
        ResponseBody::Success { .. } => panic!("expected failure"),
    }
}

#[test]
fn success_line_embeds_the_result_value() {
    let resp = outcome_response(
        "s",
        Ok(serde_json::from_str(r#"{"k":"v","n":3}"#).unwrap()),
    );
    let line = encode_response(&resp);
    let json: serde_json::Value = serde_json::from_str(&line).unwrap();
    assert_eq!(json["id"], "s");
    assert_eq!(json["type"], "response");
    assert_eq!(json["result"]["k"], "v");
    assert_eq!(json["result"]["n"], 3);
}

#[test]
fn handle_line_counts_messages_and_skips_invalid_utf8() {
    let router: Router<IdentityHandler> = Router::new();
    let mut stats = ServerStats::new();

    let bad = vec![0xffu8, 0xfe, b'x'];
    match router.handle_line(&bad, &mut stats) {
        LineOutcome::SkippedInvalidUtf8 => {}
        LineOutcome::Reply(r) => panic!("expected a skip, got reply {:?}", r),
    }
    assert_eq!(stats.total_errors, 1);
    assert_eq!(stats.total_messages, 0);

    let good = br#"{"id":"1","function":"gone","arguments":{}}"#.to_vec();
    match router.handle_line(&good, &mut stats) {
        LineOutcome::Reply(reply) => {
            let json: serde_json::Value = serde_json::from_str(&reply).unwrap();
            assert_eq!(json["error"]["code"], -32601);
        }
        LineOutcome::SkippedInvalidUtf8 => panic!("expected a reply"),
    }
    assert_eq!(stats.total_errors, 1);
    assert_eq!(stats.total_messages, 1);
}

#[test]
fn tool_definitions_expose_expected_names_and_schemas() {
    let defs = tool_definitions();
    assert_eq!(defs.len(), 3);

    let expected = [
        ("iterm-mcp:write_to_terminal", "command"),
        ("iterm-mcp:read_terminal_output", "linesOfOutput"),
        ("iterm-mcp:send_control_character", "letter"),
    ];
    for (def, (name, required_key)) in defs.iter().zip(expected.iter()) {
        assert_eq!(&def.name, name);
        let properties = def
            .parameters
            .get("properties")
            .unwrap_or_else(|| panic!("tool '{}' should have 'properties'", name));
        match properties {
            serde_json::Value::Object(map) => {
                assert!(
                    map.contains_key(*required_key),
                    "tool '{}' properties should include key '{}'",
                    name,
                    required_key
                );
            }
            other => panic!("'{}' properties must be an object, got: {:?}", name, other),
        }
        assert_eq!(def.parameters.get("type").unwrap(), "object");
    }
}
