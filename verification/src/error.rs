//! Error types for the MCP proxy.
use crate::model::{clone_opt, opt_view};
use crate::text::{concat2, concat3, signed_decimal, signed_decimal_text};
use vstd::prelude::*;
use vstd::string::*;

verus! {

/// JSON-RPC error code for invalid method parameters.
pub const INVALID_PARAMS: i32 = -32602;

/// JSON-RPC error code for an internal error.
pub const INTERNAL_ERROR: i32 = -32603;

/// An MCP (JSON-RPC) error: a code, a message and optional data as JSON text.
pub struct McpError {
    pub code: i32,
    pub message: String,
    pub data: Option<String>,
}

/// The mathematical value of an [`McpError`].
pub struct McpErrorView {
    pub code: i32,
    pub message: Seq<char>,
    pub data: Option<Seq<char>>,
}

impl View for McpError {
    type V = McpErrorView;

    open spec fn view(&self) -> McpErrorView {
        McpErrorView { code: self.code, message: self.message@, data: opt_view(self.data) }
    }
}

impl Clone for McpError {
    fn clone(&self) -> (r: Self)
        ensures
            r@ == self@,
    {
        McpError { code: self.code, message: self.message.clone(), data: clone_opt(&self.data) }
    }
}

/// How an MCP error reads: its code, `": "`, its message, and its data in
/// parentheses when there is any.
pub open spec fn mcp_error_text(e: McpErrorView) -> Seq<char> {
    let base = signed_decimal(e.code as int) + ": "@ + e.message;
    match e.data {
        Some(d) => base + "("@ + d + ")"@,
        None => base,
    }
}

impl McpError {
    /// An "invalid parameters" error.
    pub fn invalid_params(message: String, data: Option<String>) -> (r: McpError)
        ensures
            r@ == (McpErrorView { code: INVALID_PARAMS, message: message@, data: opt_view(data) }),
    {
        McpError { code: INVALID_PARAMS, message, data }
    }

    /// An "internal error" error.
    pub fn internal_error(message: String, data: Option<String>) -> (r: McpError)
        ensures
            r@ == (McpErrorView { code: INTERNAL_ERROR, message: message@, data: opt_view(data) }),
    {
        McpError { code: INTERNAL_ERROR, message, data }
    }

    /// The text of the error, as it is displayed.
    pub fn to_string(&self) -> (r: String)
        ensures
            r@ == mcp_error_text(self@),
    {
        let code = signed_decimal_text(self.code as i64);
        let mut r = concat3(code.as_str(), ": ", self.message.as_str());
        match &self.data {
            Some(d) => {
                r.append("(");
                r.append(d.as_str());
                r.append(")");
            },
            None => {},
        }
        r
    }
}

/// Main error type for the proxy server.
pub enum ProxyError {
    /// Configuration-related errors.
    Config(String),
    /// Connection failures to MCP servers.
    Connection { server: String, message: String },
    /// MCP protocol errors.
    Mcp(McpError),
    /// IO errors, by their text.
    Io(String),
    /// JSON serialization/deserialization errors, by their text.
    Json(String),
    /// Server not found errors.
    ServerNotFound(String),
    /// Invalid format errors.
    InvalidFormat(String),
    /// Process spawn errors.
    ProcessSpawn(String),
    /// HTTP server errors.
    HttpServer(String),
}

/// How a proxy error reads.
pub open spec fn proxy_error_text(e: &ProxyError) -> Seq<char> {
    match e {
        ProxyError::Config(m) => "Configuration error: "@ + m@,
        ProxyError::Connection { server, message } => "Connection failed for server '"@ + server@
            + "': "@ + message@,
        ProxyError::Mcp(m) => "MCP error: "@ + mcp_error_text(m@),
        ProxyError::Io(m) => "IO error: "@ + m@,
        ProxyError::Json(m) => "JSON error: "@ + m@,
        ProxyError::ServerNotFound(s) => "Server '"@ + s@ + "' not found"@,
        ProxyError::InvalidFormat(m) => "Invalid format: "@ + m@,
        ProxyError::ProcessSpawn(m) => "Failed to spawn process: "@ + m@,
        ProxyError::HttpServer(m) => "HTTP server error: "@ + m@,
    }
}

/// The MCP error that a proxy error becomes at the protocol boundary.
pub open spec fn proxy_error_to_mcp(e: &ProxyError) -> McpErrorView {
    match e {
        ProxyError::Mcp(m) => m@,
        ProxyError::ServerNotFound(s) => McpErrorView {
            code: INVALID_PARAMS,
            message: "Server not found: "@ + s@,
            data: None,
        },
        ProxyError::InvalidFormat(m) => McpErrorView { code: INVALID_PARAMS, message: m@, data: None },
        _ => McpErrorView { code: INTERNAL_ERROR, message: proxy_error_text(e), data: None },
    }
}

/// Whether a proxy error is a configuration error with the given message.
pub open spec fn is_config_error(e: &ProxyError, message: Seq<char>) -> bool {
    match e {
        ProxyError::Config(m) => m@ == message,
        _ => false,
    }
}

impl ProxyError {
    /// Create a configuration error.
    pub fn config(message: String) -> (r: Self)
        ensures
            r == ProxyError::Config(message),
    {
        ProxyError::Config(message)
    }

    /// Create a connection error.
    pub fn connection(server: String, message: String) -> (r: Self)
        ensures
            r == (ProxyError::Connection { server, message }),
    {
        ProxyError::Connection { server, message }
    }

    /// Create a server not found error.
    pub fn server_not_found(server: String) -> (r: Self)
        ensures
            r == ProxyError::ServerNotFound(server),
    {
        ProxyError::ServerNotFound(server)
    }

    /// Create an invalid format error.
    pub fn invalid_format(message: String) -> (r: Self)
        ensures
            r == ProxyError::InvalidFormat(message),
    {
        ProxyError::InvalidFormat(message)
    }

    /// Create a process spawn error.
    pub fn process_spawn(message: String) -> (r: Self)
        ensures
            r == ProxyError::ProcessSpawn(message),
    {
        ProxyError::ProcessSpawn(message)
    }

    /// Create an HTTP server error.
    pub fn http_server(message: String) -> (r: Self)
        ensures
            r == ProxyError::HttpServer(message),
    {
        ProxyError::HttpServer(message)
    }

    /// The text of the error, as it is displayed.
    pub fn to_string(&self) -> (r: String)
        ensures
            r@ == proxy_error_text(self),
    {
        match self {
            ProxyError::Config(m) => concat2("Configuration error: ", m.as_str()),
            ProxyError::Connection { server, message } => {
                let mut r = concat3("Connection failed for server '", server.as_str(), "': ");
                r.append(message.as_str());
                r
            },
            ProxyError::Mcp(m) => {
                let t = m.to_string();
                concat2("MCP error: ", t.as_str())
            },
            ProxyError::Io(m) => concat2("IO error: ", m.as_str()),
            ProxyError::Json(m) => concat2("JSON error: ", m.as_str()),
            ProxyError::ServerNotFound(s) => concat3("Server '", s.as_str(), "' not found"),
            ProxyError::InvalidFormat(m) => concat2("Invalid format: ", m.as_str()),
            ProxyError::ProcessSpawn(m) => concat2("Failed to spawn process: ", m.as_str()),
            ProxyError::HttpServer(m) => concat2("HTTP server error: ", m.as_str()),
        }
    }

    /// Convert the error to an MCP error for protocol compatibility.
    pub fn into_mcp_error(self) -> (r: McpError)
        ensures
            r@ == proxy_error_to_mcp(&self),
    {
        let text = self.to_string();
        match self {
            ProxyError::Mcp(m) => m,
            ProxyError::ServerNotFound(s) => McpError::invalid_params(
                concat2("Server not found: ", s.as_str()),
                None,
            ),
            ProxyError::InvalidFormat(m) => McpError::invalid_params(m, None),
            _ => McpError::internal_error(text, None),
        }
    }
}

} // verus!
