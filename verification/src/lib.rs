//! Verified core of the agent-first command line interface for Coda.
pub mod text;
pub mod json;
pub mod json_text;
pub mod error;
pub mod slug;
pub mod validate;
pub mod cell;
pub mod commands;
pub mod output;
pub mod client;
pub mod schema_cache;
pub mod trace;
pub mod auth;
pub mod cli;
pub mod polish;
pub mod sanitize;
pub mod tool_registry;
