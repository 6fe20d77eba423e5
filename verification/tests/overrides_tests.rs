use mcproxy::config::{HttpServerConfig, McpConfig};
use mcproxy::overrides::{
    apply_env_overrides, parse_cors_switch, parse_origin_list, parse_port, parse_seconds,
    EnvOverrideIssue, EnvOverrides,
};
use mcproxy::text::parse_unsigned_at_most;

fn no_overrides() -> EnvOverrides {
    EnvOverrides { host: None, port: None, cors_enabled: None, cors_origins: None, shutdown_timeout: None }
}

fn some(s: &str) -> Option<String> {
    Some(s.to_string())
}

#[test]
fn overrides_create_default_http_server() {
    let mut config = McpConfig { mcp_servers: vec![], http_server: None };
    let issues = apply_env_overrides(&mut config, &no_overrides());
    assert!(issues.is_empty());
    let http = config.http_server.unwrap();
    assert_eq!(http.host, "127.0.0.1");
    assert_eq!(http.port, 8080);
    assert!(http.cors_enabled);
    assert_eq!(http.cors_origins, vec!["*".to_string()]);
    assert_eq!(http.shutdown_timeout, 5);
}

#[test]
fn overrides_replace_valid_settings() {
    let mut config = McpConfig::default();
    let env = EnvOverrides {
        host: some("0.0.0.0"),
        port: some("9000"),
        cors_enabled: some("OFF"),
        cors_origins: some(" https://a.example , ,https://b.example,"),
        shutdown_timeout: some("+30"),
    };
    let issues = apply_env_overrides(&mut config, &env);
    assert!(issues.is_empty());
    let http = config.http_server.unwrap();
    assert_eq!(http.host, "0.0.0.0");
    assert_eq!(http.port, 9000);
    assert!(!http.cors_enabled);
    assert_eq!(http.cors_origins, vec!["https://a.example".to_string(), "https://b.example".to_string()]);
    assert_eq!(http.shutdown_timeout, 30);
}

#[test]
fn overrides_keep_settings_and_report_invalid_values() {
    let mut config = McpConfig::default();
    let env = EnvOverrides {
        host: None,
        port: some("70000"),
        cors_enabled: some("maybe"),
        cors_origins: some(" , "),
        shutdown_timeout: some("-1"),
    };
    let issues = apply_env_overrides(&mut config, &env);
    assert_eq!(issues.len(), 3);
    assert!(matches!(&issues[0], EnvOverrideIssue::InvalidPort(v) if v == "70000"));
    assert!(matches!(&issues[1], EnvOverrideIssue::InvalidCorsEnabled(v) if v == "maybe"));
    assert!(matches!(&issues[2], EnvOverrideIssue::InvalidShutdownTimeout(v) if v == "-1"));
    let http = config.http_server.unwrap();
    assert_eq!(http.port, 8080);
    assert!(http.cors_enabled);
    assert_eq!(http.cors_origins, vec!["*".to_string()]);
    assert_eq!(http.shutdown_timeout, 5);
}

#[test]
fn overrides_keep_existing_settings_and_servers() {
    let mut http = HttpServerConfig::default();
    http.port = 1234;
    http.host = "example.org".to_string();
    let mut config = McpConfig { mcp_servers: vec![], http_server: Some(http) };
    let env = EnvOverrides { port: some("abc"), ..no_overrides() };
    let issues = apply_env_overrides(&mut config, &env);
    assert_eq!(issues.len(), 1);
    let http = config.http_server.unwrap();
    assert_eq!(http.port, 1234);
    assert_eq!(http.host, "example.org");
    assert!(config.mcp_servers.is_empty());
}

#[test]
fn parse_port_bounds() {
    assert_eq!(parse_port("0"), Some(0));
    assert_eq!(parse_port("65535"), Some(65535));
    assert_eq!(parse_port("65536"), None);
    assert_eq!(parse_port("+80"), Some(80));
    assert_eq!(parse_port("007"), Some(7));
    assert_eq!(parse_port(""), None);
    assert_eq!(parse_port("+"), None);
    assert_eq!(parse_port(" 80"), None);
    assert_eq!(parse_port("8o"), None);
}

#[test]
fn parse_seconds_bounds() {
    assert_eq!(parse_seconds("18446744073709551615"), Some(u64::MAX));
    assert_eq!(parse_seconds("18446744073709551616"), None);
    assert_eq!(parse_seconds("99999999999999999999999"), None);
    assert_eq!(parse_unsigned_at_most("12", 11), None);
    assert_eq!(parse_unsigned_at_most("11", 11), Some(11));
}

#[test]
fn parse_cors_words() {
    for w in ["true", "1", "yes", "on", "TRUE", "Yes", "oN"] {
        assert_eq!(parse_cors_switch(w), Some(true), "{}", w);
    }
    for w in ["false", "0", "no", "off", "False", "NO"] {
        assert_eq!(parse_cors_switch(w), Some(false), "{}", w);
    }
    for w in ["", "enable", " true", "2"] {
        assert_eq!(parse_cors_switch(w), None, "{}", w);
    }
}

#[test]
fn parse_origins() {
    assert_eq!(parse_origin_list("a,b"), vec!["a".to_string(), "b".to_string()]);
    assert_eq!(parse_origin_list(""), Vec::<String>::new());
    assert_eq!(parse_origin_list(",,"), Vec::<String>::new());
    assert_eq!(parse_origin_list("  x\t, y "), vec!["x".to_string(), "y".to_string()]);
}

#[test]
fn parse_origins_with_blank_piece() {
    assert_eq!(
        parse_origin_list(" https://a.com, ,https://b.com"),
        vec!["https://a.com".to_string(), "https://b.com".to_string()]
    );
    assert_eq!(parse_origin_list("\u{3000}x\u{85},\u{2009}y\u{a0}"), vec!["x".to_string(), "y".to_string()]);
    assert_eq!(parse_origin_list("\u{200b}z"), vec!["\u{200b}z".to_string()]);
}
