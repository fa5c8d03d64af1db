//! The tool set this server exposes: the definitions of the three terminal
//! tools, and their registration into a router with the handlers the caller
//! supplies.

use vstd::prelude::*;
use vstd::string::*;
use std::collections::HashMap;
use crate::json::parse_json;
use crate::router::{Router, ToolHandler};
use crate::types::ToolDefinition;

verus! {

/// The name of the tool that writes text into the terminal.
pub open spec fn spec_write_tool_name() -> Seq<char> {
    "iterm-mcp:write_to_terminal"@
}

/// The name of the tool that reads terminal output.
pub open spec fn spec_read_tool_name() -> Seq<char> {
    "iterm-mcp:read_terminal_output"@
}

/// The name of the tool that sends a control character.
pub open spec fn spec_send_tool_name() -> Seq<char> {
    "iterm-mcp:send_control_character"@
}

/// A parameter schema with the given `properties`, `required` and `type`
/// members, each given as JSON text.
fn schema_map(properties: &str, required: &str) -> HashMap<String, serde_json::Value> {
    let mut m: HashMap<String, serde_json::Value> = HashMap::new();
    if let Option::Some(v) = parse_json(properties) {
        m.insert(String::from_str("properties"), v);
    }
    if let Option::Some(v) = parse_json(required) {
        m.insert(String::from_str("required"), v);
    }
    if let Option::Some(v) = parse_json("\"object\"") {
        m.insert(String::from_str("type"), v);
    }
    m
}

/// The definition of the write-to-terminal tool.
fn write_to_terminal_definition() -> (r: ToolDefinition)
    ensures
        r.name@ == spec_write_tool_name(),
{
    ToolDefinition {
        name: String::from_str("iterm-mcp:write_to_terminal"),
        description: String::from_str(
            "Writes text into the active terminal session - often used to run a command in the terminal",
        ),
        parameters: schema_map(
            "{\"command\":{\"type\":\"string\",\"description\":\"The command to run or text to write into the terminal\"}}",
            "[\"command\"]",
        ),
    }
}

/// The definition of the read-terminal-output tool.
fn read_terminal_output_definition() -> (r: ToolDefinition)
    ensures
        r.name@ == spec_read_tool_name(),
{
    ToolDefinition {
        name: String::from_str("iterm-mcp:read_terminal_output"),
        description: String::from_str("Reads the output of the active terminal session"),
        parameters: schema_map(
            "{\"linesOfOutput\":{\"type\":\"integer\",\"description\":\"How many lines of output to read\"}}",
            "[\"linesOfOutput\"]",
        ),
    }
}

/// The definition of the send-control-character tool.
fn send_control_character_definition() -> (r: ToolDefinition)
    ensures
        r.name@ == spec_send_tool_name(),
{
    ToolDefinition {
        name: String::from_str("iterm-mcp:send_control_character"),
        description: String::from_str(
            "Sends a control character to the active terminal session (e.g. Control-C, or ] for the telnet escape)",
        ),
        parameters: schema_map(
            "{\"letter\":{\"type\":\"string\",\"description\":\"The letter naming the control character (e.g. C for Control-C, ] for telnet escape)\"}}",
            "[\"letter\"]",
        ),
    }
}

/// The definitions of the three terminal tools, in registration order.
pub fn tool_definitions() -> (r: Vec<ToolDefinition>)
    ensures
        r@.len() == 3,
        r@[0].name@ == spec_write_tool_name(),
        r@[1].name@ == spec_read_tool_name(),
        r@[2].name@ == spec_send_tool_name(),
{
    let mut defs: Vec<ToolDefinition> = Vec::new();
    defs.push(write_to_terminal_definition());
    defs.push(read_terminal_output_definition());
    defs.push(send_control_character_definition());
    defs
}

/// Register the three terminal tools, each with the handler the caller
/// supplies for it. Afterwards all three names resolve, each to its own
/// definition and to the handler supplied for it.
pub fn register_tools<H: ToolHandler>(
    router: &mut Router<H>,
    write_handler: H,
    read_handler: H,
    send_handler: H,
)
    requires
        old(router).wf(),
    ensures
        final(router).wf(),
        final(router).has_tool(spec_write_tool_name()),
        final(router).entry_for(spec_write_tool_name()).definition.name@ == spec_write_tool_name(),
        final(router).entry_for(spec_write_tool_name()).handler == write_handler,
        final(router).has_tool(spec_read_tool_name()),
        final(router).entry_for(spec_read_tool_name()).definition.name@ == spec_read_tool_name(),
        final(router).entry_for(spec_read_tool_name()).handler == read_handler,
        final(router).has_tool(spec_send_tool_name()),
        final(router).entry_for(spec_send_tool_name()).definition.name@ == spec_send_tool_name(),
        final(router).entry_for(spec_send_tool_name()).handler == send_handler,
{
    proof {
        assert(spec_write_tool_name() != spec_read_tool_name() && spec_write_tool_name()
            != spec_send_tool_name() && spec_read_tool_name() != spec_send_tool_name()) by {
            reveal_strlit("iterm-mcp:write_to_terminal");
            reveal_strlit("iterm-mcp:read_terminal_output");
            reveal_strlit("iterm-mcp:send_control_character");
            assert(spec_write_tool_name().len() == 27);
            assert(spec_read_tool_name().len() == 30);
            assert(spec_send_tool_name().len() == 32);
        }
    }
    let write_def = write_to_terminal_definition();
    let mut name = String::from_str("iterm-mcp:write_to_terminal");
    router.register_tool(name, write_def, write_handler);
    let read_def = read_terminal_output_definition();
    name = String::from_str("iterm-mcp:read_terminal_output");
    router.register_tool(name, read_def, read_handler);
    let send_def = send_control_character_definition();
    name = String::from_str("iterm-mcp:send_control_character");
    router.register_tool(name, send_def, send_handler);
}

} // verus!
