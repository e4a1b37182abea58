//! Connections to servers of the Model Context Protocol (MCP).

pub mod call;
pub mod config;
pub mod connect;
pub mod headers;
pub mod manager;
pub mod resilience;
pub mod server;
