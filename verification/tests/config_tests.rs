use mcproxy::config::{
    ClientMiddlewareConfig, HttpConfig, HttpServerConfig, McpConfig, MiddlewareConfig,
    MiddlewareSettings, ServerConfig, StdioConfig,
};
use mcproxy::error::{McpError, ProxyError, INTERNAL_ERROR, INVALID_PARAMS};

#[test]
fn config_defaults() {
    let http = HttpServerConfig::default();
    assert_eq!(http.host, "127.0.0.1");
    assert_eq!(http.port, 8080);
    assert!(http.cors_enabled);
    assert_eq!(http.cors_origins, vec!["*".to_string()]);
    assert_eq!(http.shutdown_timeout, 5);
    assert!(http.middleware.proxy.is_empty());
    let config = McpConfig::default();
    assert!(config.mcp_servers.is_empty());
    assert!(config.http_server.is_some());
    let middleware = MiddlewareConfig::default();
    assert!(middleware.proxy.is_empty() && middleware.client.default.is_empty());
    let client = ClientMiddlewareConfig::default();
    assert!(client.servers.is_empty());
    assert!(MiddlewareSettings::null().is_null);
}

#[test]
fn server_config_kinds() {
    let stdio = ServerConfig::Stdio(StdioConfig {
        command: "my-command".to_string(),
        args: vec!["arg1".to_string(), "arg2".to_string()],
        env: vec![("VAR1".to_string(), "VALUE1".to_string())],
    });
    assert_eq!(stdio.as_stdio().unwrap().command, "my-command");
    assert!(stdio.as_http().is_none());
    let http = ServerConfig::Http(HttpConfig {
        url: "http://localhost:8080".to_string(),
        authorization_token: "bearer-token".to_string(),
        headers: vec![("Authorization".to_string(), "Bearer test-token".to_string())],
    });
    assert_eq!(http.as_http().unwrap().url, "http://localhost:8080");
    assert!(http.as_stdio().is_none());
}

#[test]
fn proxy_error_texts() {
    assert_eq!(ProxyError::config("bad".to_string()).to_string(), "Configuration error: bad");
    assert_eq!(
        ProxyError::connection("s".to_string(), "down".to_string()).to_string(),
        "Connection failed for server 's': down"
    );
    assert_eq!(ProxyError::server_not_found("s".to_string()).to_string(), "Server 's' not found");
    assert_eq!(ProxyError::invalid_format("f".to_string()).to_string(), "Invalid format: f");
    assert_eq!(ProxyError::process_spawn("p".to_string()).to_string(), "Failed to spawn process: p");
    assert_eq!(ProxyError::http_server("h".to_string()).to_string(), "HTTP server error: h");
    assert_eq!(ProxyError::Io("io".to_string()).to_string(), "IO error: io");
    assert_eq!(ProxyError::Json("j".to_string()).to_string(), "JSON error: j");
    let mcp = McpError::invalid_params("m".to_string(), Some("{}".to_string()));
    assert_eq!(mcp.to_string(), "-32602: m({})");
    assert_eq!(ProxyError::Mcp(mcp).to_string(), "MCP error: -32602: m({})");
}

#[test]
fn proxy_errors_become_mcp_errors() {
    let e = ProxyError::server_not_found("s".to_string()).into_mcp_error();
    assert_eq!((e.code, e.message.as_str()), (INVALID_PARAMS, "Server not found: s"));
    let e = ProxyError::invalid_format("bad name".to_string()).into_mcp_error();
    assert_eq!((e.code, e.message.as_str()), (INVALID_PARAMS, "bad name"));
    let e = ProxyError::config("x".to_string()).into_mcp_error();
    assert_eq!((e.code, e.message.as_str()), (INTERNAL_ERROR, "Configuration error: x"));
    let inner = McpError::internal_error("inner".to_string(), None);
    let e = ProxyError::Mcp(inner).into_mcp_error();
    assert_eq!((e.code, e.message.as_str()), (INTERNAL_ERROR, "inner"));
    assert_eq!(McpError::internal_error("z".to_string(), None).to_string(), "-32603: z");
}

fn http(token: &str, headers: &[(&str, &str)]) -> HttpConfig {
    HttpConfig {
        url: "http://localhost:8080".to_string(),
        authorization_token: token.to_string(),
        headers: headers.iter().map(|(k, v)| (k.to_string(), v.to_string())).collect(),
    }
}

fn pairs(v: &[(&str, &str)]) -> Vec<(String, String)> {
    v.iter().map(|(k, v)| (k.to_string(), v.to_string())).collect()
}

#[test]
fn request_headers_without_token_are_empty() {
    let config = http("", &[("Authorization", "Bearer test-token"), ("X-Custom-Header", "custom-value")]);
    assert_eq!(config.request_headers(), pairs(&[]));
}

#[test]
fn request_headers_token_becomes_bearer_authorization() {
    let config = http("bearer-token", &[("authorization", "Basic x"), ("X-Custom-Header", "custom-value")]);
    assert_eq!(config.request_headers(), pairs(&[("Authorization", "Bearer bearer-token")]));
}

#[test]
fn request_headers_token_with_scheme_is_sent_as_is() {
    let config = http("Bearer GitHUB_PAT_TOKEN", &[]);
    assert_eq!(config.request_headers(), pairs(&[("Authorization", "Bearer GitHUB_PAT_TOKEN")]));
}
