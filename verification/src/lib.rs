//! Decisions behind a Model Context Protocol (MCP) client runtime, verified.
//!
//! Nothing here waits, reads or writes. Starting a server ([`spawn`]) and keeping project
//! rules up to date ([`project_rules`]) are state machines: what came of the last action
//! goes in, and what is to be done next comes out. The functions named `law_..` state and
//! prove what holds across functions and along whole courses of events.

pub mod capabilities;
pub mod child;
pub mod client;
pub mod error;
pub mod headers;
pub mod message_log;
pub mod project_rules;
pub mod rule_files;
pub mod server_info;
pub mod spawn;
pub mod spawn_laws;
pub mod text;
pub mod transport;
