//! A verified kernel for tool-using agents.
//!
//! The kernel holds the conversation context, gates every tool call behind a
//! capability policy, and speaks to providers, tools and frontends through
//! small state machines whose effects the embedding program carries out.

pub mod anthropic;
pub mod context;
pub mod context_store;
pub mod distro;
pub mod driver;
pub mod echo;
pub mod event_log;
pub mod event_loop;
pub mod framing;
pub mod frontend;
pub mod in_process;
pub mod json;
pub mod manifest;
pub mod mcp_server;
pub mod mcp_stdio;
pub mod members;
pub mod paths;
pub mod permission;
pub mod policy;
pub mod prompt;
pub mod protocol;
pub mod provider;
pub mod proxy_frontend;
pub mod proxy_tool;
pub mod repl;
pub mod router;
pub mod session;
pub mod session_events;
pub mod settings;
pub mod sse;
pub mod testutil;
pub mod text;
pub mod tool;
pub mod tool_display;
pub mod toolset_pool;
pub mod tui;
pub mod turn_loop;
pub mod types;
pub mod workspace_local;
