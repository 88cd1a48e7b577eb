use vstd::prelude::*;
use std::collections::HashMap;

verus! {

/// Timeouts, in seconds, for talking to an MCP server.
#[derive(Debug, Clone)]
pub struct MCPConfig {
    pub timeout: u64,
    pub http_timeout: u64,
    pub auth_headers: Option<HashMap<String, String>>,
}

/// An argument that an MCP prompt takes.
#[derive(Debug, Clone)]
pub struct MCPPromptArgument {
    pub name: String,
    pub description: Option<String>,
    pub required: Option<bool>,
}

/// A security risk that a mock MCP server can be made to show.
#[derive(Debug, Clone, Copy, PartialEq, Eq)]
pub enum Risk {
    ToolPoisoning,
    RugPull,
    CrossOriginEscalation,
    DataExfiltration,
    PrivilegeEscalation,
    PathTraversal,
    CommandInjection,
    SqlInjection,
}

pub const DEFAULT_TIMEOUT_SECONDS: u64 = 60;

pub const DEFAULT_HTTP_TIMEOUT_SECONDS: u64 = 30;

pub const MCP_PROTOCOL_VERSION: &'static str = "2024-11-05";

pub const MCP_JSONRPC_VERSION: &'static str = "2.0";

impl Default for MCPConfig {
    fn default() -> (r: MCPConfig)
        ensures
            r.timeout == DEFAULT_TIMEOUT_SECONDS,
            r.http_timeout == DEFAULT_HTTP_TIMEOUT_SECONDS,
            r.auth_headers is None,
    {
        MCPConfig {
            timeout: DEFAULT_TIMEOUT_SECONDS,
            http_timeout: DEFAULT_HTTP_TIMEOUT_SECONDS,
            auth_headers: None,
        }
    }
}

/// Why an MCP configuration is refused.
#[derive(Debug, Clone, Copy, PartialEq, Eq)]
pub enum McpConfigError {
    ZeroTimeout,
    ZeroHttpTimeout,
    TimeoutBelowHttpTimeout,
}

impl McpConfigError {
    /// The message that reports the error.
    pub open spec fn text(&self) -> Seq<char> {
        match self {
            McpConfigError::ZeroTimeout => "Timeout must be greater than 0"@,
            McpConfigError::ZeroHttpTimeout => "HTTP timeout must be greater than 0"@,
            McpConfigError::TimeoutBelowHttpTimeout => "Total timeout must be greater than or equal to HTTP timeout"@,
        }
    }

    pub fn message(&self) -> (r: &'static str)
        ensures
            r@ == self.text(),
    {
        match self {
            McpConfigError::ZeroTimeout => "Timeout must be greater than 0",
            McpConfigError::ZeroHttpTimeout => "HTTP timeout must be greater than 0",
            McpConfigError::TimeoutBelowHttpTimeout => "Total timeout must be greater than or equal to HTTP timeout",
        }
    }
}

/// The first rule that `c` breaks: both timeouts positive, the total one at least the HTTP one.
pub open spec fn mcp_config_problem(c: MCPConfig) -> Option<McpConfigError> {
    if c.timeout == 0 {
        Some(McpConfigError::ZeroTimeout)
    } else if c.http_timeout == 0 {
        Some(McpConfigError::ZeroHttpTimeout)
    } else if c.timeout < c.http_timeout {
        Some(McpConfigError::TimeoutBelowHttpTimeout)
    } else {
        None
    }
}

/// Checks an MCP configuration.
pub fn validate_mcp_config(config: &MCPConfig) -> (r: Result<(), McpConfigError>)
    ensures
        r is Ok <==> mcp_config_problem(*config) is None,
        r matches Err(e) ==> mcp_config_problem(*config) == Some(e),
{
    if config.timeout == 0 {
        return Err(McpConfigError::ZeroTimeout);
    }
    if config.http_timeout == 0 {
        return Err(McpConfigError::ZeroHttpTimeout);
    }
    if config.timeout < config.http_timeout {
        return Err(McpConfigError::TimeoutBelowHttpTimeout);
    }
    Ok(())
}

} // verus!
