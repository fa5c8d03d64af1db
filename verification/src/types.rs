//! Plain data types of the protocol: tool metadata, per-tool parameter and
//! response shapes, and the server configuration.

use vstd::prelude::*;
use std::collections::HashMap;

verus! {

/// Descriptive metadata of a registered tool. Immutable once registered.
pub struct ToolDefinition {
    /// Unique, namespaced identifier, e.g. `"namespace:verb"`.
    pub name: String,
    /// Human-readable description.
    pub description: String,
    /// Parameter schema: a mapping describing accepted arguments, treated
    /// opaquely by the dispatch logic.
    pub parameters: HashMap<String, serde_json::Value>,
}

/// Parameters of the tool that writes to the terminal.
pub struct WriteToTerminalParams {
    /// The command or text to write into the terminal.
    pub command: String,
}

/// Parameters of the tool that reads terminal output.
pub struct ReadTerminalOutputParams {
    /// How many lines of output to read.
    pub lines_of_output: u32,
}

/// Parameters of the tool that sends a control character.
pub struct SendControlCharacterParams {
    /// The letter naming the control character (e.g. `"C"` for Ctrl-C).
    pub letter: String,
}

/// A generic operation response: a success flag, an optional error message,
/// and optional data.
pub struct McpResponse<T> {
    /// Whether the operation succeeded.
    pub success: bool,
    /// The error message, if any.
    pub error: Option<String>,
    /// The response data, if any.
    pub data: Option<T>,
}

/// Response shape of the write-to-terminal tool.
pub type WriteToTerminalResponse = McpResponse<()>;

/// Response shape of the read-terminal-output tool.
pub struct ReadTerminalOutputResponse {
    /// The terminal output as text.
    pub output: String,
}

/// Response shape of the send-control-character tool.
pub type SendControlCharacterResponse = McpResponse<()>;

/// Configuration of the dispatch server.
pub struct ServerConfig {
    /// Address to bind.
    pub address: String,
    /// Port to listen on.
    pub port: u16,
    /// Log level name.
    pub log_level: String,
}

} // verus!
