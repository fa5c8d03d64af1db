//! Tests of the router: message processing over registered tools, the fixed
//! error codes, and error response encoding.

use std::collections::HashMap;

use iterm_mcp::codec::{McpRequest, ResponseBody, WireResponse};
use iterm_mcp::router::{Router, ToolHandler};
use iterm_mcp::types::ToolDefinition;

/// Test handlers: echo wraps its input, identity returns it unchanged,
/// failing always errors.
enum TestHandler {
    Echo,
    Identity,
    Failing,
}

impl ToolHandler for TestHandler {
    fn invoke(&self, arguments: serde_json::Value) -> Result<serde_json::Value, String> {
        match self {
            TestHandler::Echo => {
                let mut wrapped = serde_json::Map::new();
                wrapped.insert("received".to_string(), arguments);
                Ok(serde_json::Value::Object(wrapped))
            }
            TestHandler::Identity => Ok(arguments),
            TestHandler::Failing => Err("Erro simulado para teste".to_string()),
        }
    }
}

fn definition(name: &str) -> ToolDefinition {
    ToolDefinition {
        name: name.to_string(),
        description: "a tool for tests".to_string(),
        parameters: HashMap::new(),
    }
}

#[test]
fn test_router_process_message() {
    let mut router: Router<TestHandler> = Router::new();
    router.register_tool(
        "test:echo".to_string(),
        definition("test:echo"),
        TestHandler::Echo,
    );

    let message = r#"{"id":"test-1","function":"test:echo","arguments":{"param1":"value1"}}"#;
    let response = router.process_message(message).unwrap();

    let response_json: serde_json::Value = serde_json::from_str(&response).unwrap();
    assert_eq!(response_json["id"], "test-1");
    assert_eq!(response_json["type"], "response");
    assert_eq!(response_json["result"]["received"]["param1"], "value1");
}

#[test]
fn test_router_invalid_json() {
    let router: Router<TestHandler> = Router::new();

    let message = r#"{"id":"test-1","function":invalid json}"#;
    let response = router.process_message(message).unwrap();

    let response_json: serde_json::Value = serde_json::from_str(&response).unwrap();
    assert_eq!(response_json["type"], "error");
    assert_eq!(response_json["error"]["code"], -32700);
}

#[test]
fn test_router_unknown_function() {
    let router: Router<TestHandler> = Router::new();

    let message = r#"{"id":"test-1","function":"unknown:function","arguments":{}}"#;
    let response = router.process_message(message).unwrap();

    let response_json: serde_json::Value = serde_json::from_str(&response).unwrap();
    assert_eq!(response_json["type"], "error");
    assert_eq!(response_json["error"]["code"], -32601);
    assert!(response_json["error"]["message"]
        .as_str()
        .unwrap()
        .contains("unknown:function"));
}

#[test]
fn test_router_handler_error() {
    let mut router: Router<TestHandler> = Router::new();
    router.register_tool(
        "test:error".to_string(),
        definition("test:error"),
        TestHandler::Failing,
    );

    let message = r#"{"id":"test-1","function":"test:error","arguments":{}}"#;
    let response = router.process_message(message).unwrap();

    let response_json: serde_json::Value = serde_json::from_str(&response).unwrap();
    assert_eq!(response_json["type"], "error");
    assert_eq!(response_json["error"]["code"], -32000);
    assert!(response_json["error"]["message"]
        .as_str()
        .unwrap()
        .contains("Erro simulado"));
}

#[test]
fn test_multiple_tools() {
    let mut router: Router<TestHandler> = Router::new();
    router.register_tool(
        "test:echo".to_string(),
        definition("test:echo"),
        TestHandler::Echo,
    );
    router.register_tool(
        "test:error".to_string(),
        definition("test:error"),
        TestHandler::Failing,
    );

    let echo_message = r#"{"id":"echo-1","function":"test:echo","arguments":{"test":"value"}}"#;
    let echo_response = router.process_message(echo_message).unwrap();
    let echo_json: serde_json::Value = serde_json::from_str(&echo_response).unwrap();
    assert_eq!(echo_json["type"], "response");

    let error_message = r#"{"id":"error-1","function":"test:error","arguments":{}}"#;
    let error_response = router.process_message(error_message).unwrap();
    let error_json: serde_json::Value = serde_json::from_str(&error_response).unwrap();
    assert_eq!(error_json["type"], "error");
}

#[test]
fn router_tests_test_create_error_response() {
    let router: Router<TestHandler> = Router::new();

    let data: serde_json::Value =
        serde_json::from_str(r#"{"detail": "Informação adicional"}"#).unwrap();
    let error_response =
        router.create_error_response("test-id", -32000, "Mensagem de teste", Some(data));

    let response_json: serde_json::Value = serde_json::from_str(&error_response).unwrap();
    assert_eq!(response_json["id"], "test-id");
    assert_eq!(response_json["type"], "error");
    assert_eq!(response_json["error"]["code"], -32000);
    assert_eq!(response_json["error"]["message"], "Mensagem de teste");
    assert_eq!(
        response_json["error"]["data"]["detail"],
        "Informação adicional"
    );
}

#[test]
fn router_test_create_error_response() {
    let router: Router<TestHandler> = Router::new();
    let error_response = router.create_error_response("test-id", -32700, "Mensagem de teste", None);

    let parsed: serde_json::Value = serde_json::from_str(&error_response).unwrap();

    assert_eq!(parsed["id"], "test-id");
    assert_eq!(parsed["type"], "error");
    assert_eq!(parsed["error"]["code"], -32700);
    assert_eq!(parsed["error"]["message"], "Mensagem de teste");
}

#[test]
fn last_registration_for_a_name_wins() {
    let mut router: Router<TestHandler> = Router::new();
    router.register_tool(
        "test:tool".to_string(),
        definition("test:tool"),
        TestHandler::Failing,
    );
    router.register_tool(
        "test:tool".to_string(),
        definition("test:tool"),
        TestHandler::Identity,
    );

    // Only the second handler is reachable: the call succeeds instead of
    // failing.
    let message = r#"{"id":"1","function":"test:tool","arguments":{"x":1}}"#;
    let response = router.process_message(message).unwrap();
    let json: serde_json::Value = serde_json::from_str(&response).unwrap();
    assert_eq!(json["type"], "response");
    assert_eq!(json["result"]["x"], 1);
}

#[test]
fn echo_scenario_roundtrip() {
    let mut router: Router<TestHandler> = Router::new();
    router.register_tool("echo".to_string(), definition("echo"), TestHandler::Identity);

    let message = r#"{"id":"1","function":"echo","arguments":{"x":1}}"#;
    let response = router.process_message(message).unwrap();
    let json: serde_json::Value = serde_json::from_str(&response).unwrap();
    assert_eq!(json["id"], "1");
    assert_eq!(json["type"], "response");
    assert_eq!(json["result"]["x"], 1);
}

#[test]
fn missing_tool_scenario() {
    let router: Router<TestHandler> = Router::new();

    let message = r#"{"id":"1","function":"missing","arguments":{}}"#;
    let response = router.process_message(message).unwrap();
    let json: serde_json::Value = serde_json::from_str(&response).unwrap();
    assert_eq!(json["id"], "1");
    assert_eq!(json["type"], "error");
    assert_eq!(json["error"]["code"], -32601);
}

#[test]
fn response_id_echoes_request_id_on_every_path() {
    let mut router: Router<TestHandler> = Router::new();
    router.register_tool("ok".to_string(), definition("ok"), TestHandler::Identity);
    router.register_tool("bad".to_string(), definition("bad"), TestHandler::Failing);

    for (msg, id) in [
        (r#"{"id":"id-a","function":"ok","arguments":null}"#, "id-a"),
        (r#"{"id":"id-b","function":"bad","arguments":null}"#, "id-b"),
        (r#"{"id":"id-c","function":"gone","arguments":null}"#, "id-c"),
    ] {
        let response = router.process_message(msg).unwrap();
        let json: serde_json::Value = serde_json::from_str(&response).unwrap();
        assert_eq!(json["id"], id);
    }
}

#[test]
fn error_response_quotes_awkward_strings() {
    let router: Router<TestHandler> = Router::new();
    let line = router.create_error_response("a\"b\\c", -32000, "newline\nand \"quote\"", None);
    let json: serde_json::Value = serde_json::from_str(&line).unwrap();
    assert_eq!(json["id"], "a\"b\\c");
    assert_eq!(json["error"]["message"], "newline\nand \"quote\"");
}

#[test]
fn dispatch_builds_structured_responses() {
    let mut router: Router<TestHandler> = Router::new();
    router.register_tool("ok".to_string(), definition("ok"), TestHandler::Identity);

    let request = McpRequest {
        id: "r-1".to_string(),
        function: "ok".to_string(),
        arguments: serde_json::Value::Null,
    };
    let response: WireResponse = router.dispatch(request);
    assert_eq!(response.id, "r-1");
    assert!(matches!(response.body, ResponseBody::Success { .. }));

    let request = McpRequest {
        id: "r-2".to_string(),
        function: "gone".to_string(),
        arguments: serde_json::Value::Null,
    };
    let response = router.dispatch(request);
    assert_eq!(response.id, "r-2");
    match response.body {
        ResponseBody::Failure { error } => {
            assert_eq!(error.code, -32601);
            assert!(error.message.contains("gone"));
        }
        ResponseBody::Success { .. } => panic!("expected a failure"),
    }
}

#[test]
fn register_tools_wires_each_handler_to_its_name() {
    let mut router: Router<TestHandler> = Router::new();
    iterm_mcp::tools::register_tools(
        &mut router,
        TestHandler::Echo,
        TestHandler::Identity,
        TestHandler::Failing,
    );

    // The write tool got the wrapping handler...
    let response = router
        .process_message(
            r#"{"id":"w","function":"iterm-mcp:write_to_terminal","arguments":{"x":1}}"#,
        )
        .unwrap();
    let json: serde_json::Value = serde_json::from_str(&response).unwrap();
    assert_eq!(json["result"]["received"]["x"], 1);

    // ...the read tool the identity handler...
    let response = router
        .process_message(
            r#"{"id":"r","function":"iterm-mcp:read_terminal_output","arguments":{"y":2}}"#,
        )
        .unwrap();
    let json: serde_json::Value = serde_json::from_str(&response).unwrap();
    assert_eq!(json["result"]["y"], 2);

    // ...and the send tool the failing one.
    let response = router
        .process_message(
            r#"{"id":"s","function":"iterm-mcp:send_control_character","arguments":{}}"#,
        )
        .unwrap();
    let json: serde_json::Value = serde_json::from_str(&response).unwrap();
    assert_eq!(json["error"]["code"], -32000);
}
