//! Configuration of the proxy: the MCP servers to aggregate, the HTTP server
//! that exposes them, and the middleware to apply.
use crate::middleware::client_middleware::security::{rules_view, SecurityConfig, SecurityRuleView};
use crate::middleware::client_middleware::tool_filter::ToolFilterConfig;
use crate::middleware::proxy_middleware::tool_search::ToolSearchMiddlewareConfig;
use crate::model::{opt_view, strings_view};
use crate::text::{concat2, owned, text_eq};
use vstd::prelude::*;
use vstd::string::*;

verus! {

/// The whole configuration file.
pub struct McpConfig {
    /// The MCP servers, by name; each name occurs once.
    pub mcp_servers: Vec<(String, ServerConfig)>,
    /// The HTTP server that exposes the aggregated servers.
    pub http_server: Option<HttpServerConfig>,
}

/// No name occurs twice among the named entries.
pub open spec fn names_distinct<V>(s: Seq<(String, V)>) -> bool {
    forall|i: int, j: int| 0 <= i < j < s.len() ==> (#[trigger] s[i]).0@ != (#[trigger] s[j]).0@
}

impl McpConfig {
    /// The invariant of a configuration, which the objects of the
    /// configuration file give it: each server, and each server's own
    /// client middleware list, is held under one name only.
    pub open spec fn well_formed(&self) -> bool {
        &&& names_distinct(self.mcp_servers@)
        &&& match self.http_server {
            Some(h) => names_distinct(h.middleware.client.servers@),
            None => true,
        }
    }
}

/// How to reach one MCP server.
pub enum ServerConfig {
    /// A server run as a local child process.
    Stdio(StdioConfig),
    /// A server reached over HTTP.
    Http(HttpConfig),
}

/// A server run as a local child process.
pub struct StdioConfig {
    /// The executable to run.
    pub command: String,
    /// Its command-line arguments.
    pub args: Vec<String>,
    /// Environment variables to set for the process, by name.
    pub env: Vec<(String, String)>,
}

/// A server reached over HTTP.
pub struct HttpConfig {
    /// The base URL of the MCP server.
    pub url: String,
    /// A bearer token for the `Authorization` header; empty when there is none.
    pub authorization_token: String,
    /// HTTP headers, by name, as the configuration gives them; the requests
    /// carry only the `Authorization` header of the token.
    pub headers: Vec<(String, String)>,
}

impl ServerConfig {
    /// The configuration of a stdio server.
    pub fn as_stdio(&self) -> (r: Option<&StdioConfig>)
        ensures
            match self {
                ServerConfig::Stdio(c) => r == Some(c),
                ServerConfig::Http(_) => r is None,
            },
    {
        match self {
            ServerConfig::Stdio(c) => Some(c),
            ServerConfig::Http(_) => None,
        }
    }

    /// The configuration of an HTTP server.
    pub fn as_http(&self) -> (r: Option<&HttpConfig>)
        ensures
            match self {
                ServerConfig::Http(c) => r == Some(c),
                ServerConfig::Stdio(_) => r is None,
            },
    {
        match self {
            ServerConfig::Http(c) => Some(c),
            ServerConfig::Stdio(_) => None,
        }
    }
}

/// The value of a list of named strings (headers, environment variables).
pub open spec fn pairs_view(s: Seq<(String, String)>) -> Seq<(Seq<char>, Seq<char>)> {
    s.map_values(|p: (String, String)| (p.0@, p.1@))
}

/// The value of the `Authorization` header for a token: the token itself
/// where it already names the `Bearer` scheme, else the token as a bearer token.
pub open spec fn authorization_value(token: Seq<char>) -> Seq<char> {
    if token.len() >= 7 && token.take(7) == "Bearer "@ {
        token
    } else {
        "Bearer "@ + token
    }
}

/// The headers sent to an HTTP server: the `Authorization` header with the
/// authorization token, where there is one; none otherwise.
pub open spec fn request_headers(token: Seq<char>) -> Seq<(Seq<char>, Seq<char>)> {
    if token.len() == 0 {
        Seq::empty()
    } else {
        seq![("Authorization"@, authorization_value(token))]
    }
}

impl HttpConfig {
    /// The headers to send with every request to this server.
    pub fn request_headers(&self) -> (r: Vec<(String, String)>)
        ensures
            pairs_view(r@) == request_headers(self.authorization_token@),
    {
        let token = self.authorization_token.as_str();
        let len = token.unicode_len();
        let mut out: Vec<(String, String)> = Vec::new();
        if len == 0 {
            proof {
                assert(pairs_view(out@) =~= Seq::<(Seq<char>, Seq<char>)>::empty());
            }
            return out;
        }
        let prefixed = len >= 7 && text_eq(token.substring_char(0, 7), "Bearer ");
        let value = if prefixed {
            owned(token)
        } else {
            concat2("Bearer ", token)
        };
        proof {
            if len >= 7 {
                assert(token@.subrange(0, 7) =~= token@.take(7));
            }
        }
        out.push((owned("Authorization"), value));
        proof {
            assert(pairs_view(out@) =~= seq![("Authorization"@, authorization_value(token@))]);
        }
        out
    }
}

/// The configuration of a middleware as each built-in middleware reads it:
/// whether it is JSON `null`, and what reading it as each configuration type
/// gives (the configuration, or the text of the error).
pub struct MiddlewareSettings {
    /// The configuration is JSON `null` (or absent).
    pub is_null: bool,
    /// The configuration read as a tool filter configuration.
    pub as_tool_filter: Result<ToolFilterConfig, String>,
    /// The configuration read as a security configuration.
    pub as_security: Result<SecurityConfig, String>,
    /// The configuration read as a tool search configuration.
    pub as_tool_search: Result<ToolSearchMiddlewareConfig, String>,
}

/// The mathematical value of a tool filter configuration: allow and disallow patterns.
pub open spec fn tool_filter_config_view(c: ToolFilterConfig) -> (Option<Seq<char>>, Option<Seq<char>>) {
    (opt_view(c.allow), opt_view(c.disallow))
}

/// The mathematical value of a security configuration: rules and whether blocked calls are logged.
pub open spec fn security_config_view(c: SecurityConfig) -> (Seq<SecurityRuleView>, bool) {
    (rules_view(c.rules@), c.log_blocked)
}

/// The mathematical value of a tool search configuration: enabled, limit,
/// threshold and selection criteria.
pub open spec fn tool_search_config_view(c: ToolSearchMiddlewareConfig) -> (bool, nat, int, Seq<Seq<char>>) {
    (
        c.enabled,
        c.max_tools_limit as nat,
        c.search_min_score as int,
        strings_view(c.tool_selection_order@),
    )
}

/// The value of a reading, with the error as text.
pub open spec fn reading_view<T, V>(r: Result<T, String>, f: spec_fn(T) -> V) -> Result<V, Seq<char>> {
    match r {
        Ok(c) => Ok(f(c)),
        Err(e) => Err(e@),
    }
}

/// The mathematical value of [`MiddlewareSettings`].
pub struct MiddlewareSettingsView {
    pub is_null: bool,
    pub as_tool_filter: Result<(Option<Seq<char>>, Option<Seq<char>>), Seq<char>>,
    pub as_security: Result<(Seq<SecurityRuleView>, bool), Seq<char>>,
    pub as_tool_search: Result<(bool, nat, int, Seq<Seq<char>>), Seq<char>>,
}

impl View for MiddlewareSettings {
    type V = MiddlewareSettingsView;

    open spec fn view(&self) -> MiddlewareSettingsView {
        MiddlewareSettingsView {
            is_null: self.is_null,
            as_tool_filter: reading_view(
                self.as_tool_filter,
                |c: ToolFilterConfig| tool_filter_config_view(c),
            ),
            as_security: reading_view(self.as_security, |c: SecurityConfig| security_config_view(c)),
            as_tool_search: reading_view(
                self.as_tool_search,
                |c: ToolSearchMiddlewareConfig| tool_search_config_view(c),
            ),
        }
    }
}

impl MiddlewareSettings {
    /// The settings of a JSON `null` configuration, which no middleware reads further.
    pub fn null() -> (r: Self)
        ensures
            r.is_null,
            r.as_tool_filter is Err,
            r.as_security is Err,
            r.as_tool_search is Err,
    {
        MiddlewareSettings {
            is_null: true,
            as_tool_filter: Err(owned("null")),
            as_security: Err(owned("null")),
            as_tool_search: Err(owned("null")),
        }
    }
}

/// One middleware entry of the configuration.
pub struct MiddlewareSpec {
    /// The middleware type name.
    pub middleware_type: String,
    /// Whether this middleware is enabled.
    pub enabled: bool,
    /// Middleware-specific configuration.
    pub config: MiddlewareSettings,
}

/// The mathematical value of a [`MiddlewareSpec`].
pub struct MiddlewareSpecView {
    pub middleware_type: Seq<char>,
    pub enabled: bool,
    pub config: MiddlewareSettingsView,
}

impl View for MiddlewareSpec {
    type V = MiddlewareSpecView;

    open spec fn view(&self) -> MiddlewareSpecView {
        MiddlewareSpecView {
            middleware_type: self.middleware_type@,
            enabled: self.enabled,
            config: self.config@,
        }
    }
}

/// The values of a sequence of middleware entries.
pub open spec fn specs_view(s: Seq<MiddlewareSpec>) -> Seq<MiddlewareSpecView> {
    s.map_values(|x: MiddlewareSpec| x@)
}

/// Client middleware: a default list, and lists for particular servers.
pub struct ClientMiddlewareConfig {
    /// Applied to every server without a list of its own.
    pub default: Vec<MiddlewareSpec>,
    /// Server-specific lists, by server name; each name occurs once.
    pub servers: Vec<(String, Vec<MiddlewareSpec>)>,
}

impl Default for ClientMiddlewareConfig {
    fn default() -> (r: Self)
        ensures
            r.default@.len() == 0,
            r.servers@.len() == 0,
    {
        ClientMiddlewareConfig { default: Vec::new(), servers: Vec::new() }
    }
}

/// The middleware configuration.
pub struct MiddlewareConfig {
    /// Proxy middleware, applied in order to the aggregated lists.
    pub proxy: Vec<MiddlewareSpec>,
    /// Client middleware, applied around each server's calls.
    pub client: ClientMiddlewareConfig,
}

impl Default for MiddlewareConfig {
    fn default() -> (r: Self)
        ensures
            r.proxy@.len() == 0,
            r.client.default@.len() == 0,
            r.client.servers@.len() == 0,
    {
        MiddlewareConfig { proxy: Vec::new(), client: ClientMiddlewareConfig::default() }
    }
}

/// The HTTP server that exposes the proxy.
pub struct HttpServerConfig {
    /// The host to bind to.
    pub host: String,
    /// The port to bind to.
    pub port: u16,
    /// Whether CORS headers are sent.
    pub cors_enabled: bool,
    /// The allowed CORS origins.
    pub cors_origins: Vec<String>,
    /// Seconds to wait for a graceful shutdown.
    pub shutdown_timeout: u64,
    /// The middleware to apply.
    pub middleware: MiddlewareConfig,
}

impl Default for HttpServerConfig {
    /// `127.0.0.1:8080`, CORS enabled for every origin, a five-second
    /// shutdown timeout and no middleware.
    fn default() -> (r: Self)
        ensures
            r.host@ == "127.0.0.1"@,
            r.port == 8080,
            r.cors_enabled,
            strings_view(r.cors_origins@) == seq!["*"@],
            r.shutdown_timeout == 5,
            r.middleware.proxy@.len() == 0,
            r.middleware.client.default@.len() == 0,
            r.middleware.client.servers@.len() == 0,
    {
        let mut cors_origins: Vec<String> = Vec::new();
        cors_origins.push(owned("*"));
        proof {
            assert(strings_view(cors_origins@) =~= seq!["*"@]);
        }
        HttpServerConfig {
            host: owned("127.0.0.1"),
            port: 8080,
            cors_enabled: true,
            cors_origins,
            shutdown_timeout: 5,
            middleware: MiddlewareConfig::default(),
        }
    }
}

impl Default for McpConfig {
    /// No servers, and the default HTTP server.
    fn default() -> (r: Self)
        ensures
            r.mcp_servers@.len() == 0,
            r.http_server matches Some(h) && h.host@ == "127.0.0.1"@ && h.port == 8080
                && h.cors_enabled && strings_view(h.cors_origins@) == seq!["*"@]
                && h.shutdown_timeout == 5 && h.middleware.proxy@.len() == 0
                && h.middleware.client.default@.len() == 0 && h.middleware.client.servers@.len()
                == 0,
    {
        McpConfig { mcp_servers: Vec::new(), http_server: Some(HttpServerConfig::default()) }
    }
}

} // verus!
