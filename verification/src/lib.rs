//! The tool-calling core of an LLM agent, and the OAuth callback logic beside it.
//!
//! A model's free-form reply is decoded into tool calls, each call is resolved
//! against a registry of capabilities, every result is rendered back into text
//! and the conversation is driven as a bounded state machine.  Nothing here
//! performs input or output: a caller runs the model and the tools and feeds
//! what they returned back in.

pub mod text;
pub mod value;
pub mod json;
pub mod pattern;
pub mod tools;
pub mod agent;
pub mod number;
pub mod oauth;
