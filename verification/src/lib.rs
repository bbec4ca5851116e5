//! Scrawler: applications declare their capabilities in an XML manifest that
//! becomes a typed semantic tree, readable by humans through a native window
//! and by agents through MCP.

pub mod json;
pub mod literal;
pub mod xml;
pub mod manifest;
pub mod collections;
pub mod storage;
pub mod runtime;
pub mod tree;
pub mod mcp;
pub mod mcp_tools;
pub mod ui;
pub mod shortcut;
pub mod config;
pub mod bundle;
pub mod icons;
pub mod font;
pub mod http;
pub mod connect;
