//! The agent: decoding tool calls, running them, and the loop around both.

pub mod loop_;
pub mod tool_calls;
