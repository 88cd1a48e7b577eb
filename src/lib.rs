//! A security gateway for Model Context Protocol tool calls: requests are put into words for a
//! content-safety Guard, its replies are read into decisions, and decisions become JSON-RPC
//! answers under a fail-open or fail-closed policy.

pub mod batch;
pub mod cache;
pub mod canonical;
pub mod client;
pub mod compact;
pub mod config;
pub mod config_utils;
pub mod error_utils;
pub mod forward;
pub mod guard;
pub mod json;
pub mod licensing;
pub mod mcp;
pub mod order;
pub mod performance;
pub mod proxy_flow;
pub mod service;
pub mod settings;
pub mod stamp;
pub mod text;
pub mod utf8;
