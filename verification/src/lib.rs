//! A line-delimited JSON dispatch server library for remotely invocable
//! terminal tools: a tool registry, a message codec, byte-stream framing,
//! server statistics with a health verdict, and the pure parts of
//! the terminal helpers (AppleScript escaping, control-character mapping,
//! terminal output post-processing).

pub mod applescript;
pub mod codec;
pub mod framing;
pub mod json;
pub mod router;
pub mod stats;
pub mod terminal;
pub mod text;
pub mod tools;
pub mod types;
pub mod utilities;
