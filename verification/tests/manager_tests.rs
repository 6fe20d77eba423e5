use mcproxy::config::{
    ClientMiddlewareConfig, McpConfig, MiddlewareConfig, MiddlewareSettings, MiddlewareSpec,
};
use mcproxy::middleware::client_middleware::security::SecurityConfig;
use mcproxy::middleware::client_middleware::tool_filter::ToolFilterConfig;
use mcproxy::middleware::proxy_middleware::tool_search::ToolSearchMiddlewareConfig;
use mcproxy::middleware::MiddlewareManager;
use mcproxy::model::Tool;

fn spec(middleware_type: &str, enabled: bool) -> MiddlewareSpec {
    MiddlewareSpec { middleware_type: middleware_type.to_string(), enabled, config: MiddlewareSettings::null() }
}

/// The settings of a JSON object that every middleware reads with its defaults.
fn object_settings(tool_filter: ToolFilterConfig) -> MiddlewareSettings {
    MiddlewareSettings {
        is_null: false,
        as_tool_filter: Ok(tool_filter),
        as_security: Ok(SecurityConfig::default()),
        as_tool_search: Ok(ToolSearchMiddlewareConfig::default()),
    }
}

fn with_middleware(middleware: MiddlewareConfig) -> McpConfig {
    let mut config = McpConfig::default();
    if let Some(ref mut http_server) = config.http_server {
        http_server.middleware = middleware;
    }
    config
}

fn tool(name: &str, description: &str) -> Tool {
    Tool {
        name: name.to_string(),
        description: Some(description.to_string()),
        input_schema: "{}".to_string(),
        annotations: None,
    }
}

#[test]
fn test_proxy_middleware_description_enrichment() {
    let config = with_middleware(MiddlewareConfig {
        proxy: vec![spec("description_enricher", true)],
        client: ClientMiddlewareConfig::default(),
    });
    let mut manager = MiddlewareManager::from_config(&config).ok().unwrap();
    let mut tools = vec![tool("production_tool", "A production tool"), tool("another_tool", "Another tool")];
    for mw in manager.proxy.iter_mut() {
        mw.on_list_tools(&mut tools);
    }
    for t in &tools {
        if let Some(ref desc) = t.description {
            assert!(desc.contains("(via mcproxy)"));
        }
    }
    assert_eq!(tools.len(), 2);
}

#[test]
fn test_middleware_manager_creation() {
    let config = McpConfig::default();
    let manager = MiddlewareManager::from_config(&config).ok().unwrap();
    assert!(manager.proxy.is_empty());
    let server_middleware = manager.create_client_middleware_for_server("test_server", &config).ok().unwrap();
    assert!(server_middleware.is_empty());
}

#[test]
fn test_config_based_proxy_middleware() {
    let config = with_middleware(MiddlewareConfig {
        proxy: vec![spec("description_enricher", true)],
        client: ClientMiddlewareConfig::default(),
    });
    let manager = MiddlewareManager::from_config(&config).ok().unwrap();
    assert_eq!(manager.proxy.len(), 1);
}

#[test]
fn test_config_based_client_middleware() {
    let config = with_middleware(MiddlewareConfig {
        proxy: vec![],
        client: ClientMiddlewareConfig { default: vec![spec("logging", true)], servers: vec![] },
    });
    let manager = MiddlewareManager::from_config(&config).ok().unwrap();
    let client_middleware = manager.create_client_middleware_for_server("any_server", &config).ok().unwrap();
    assert_eq!(client_middleware.len(), 1);
}

#[test]
fn test_client_middleware_tool_filter() {
    let filter = MiddlewareSpec {
        middleware_type: "tool_filter".to_string(),
        enabled: true,
        config: object_settings(ToolFilterConfig { allow: Some("issue".to_string()), disallow: None }),
    };
    let config = with_middleware(MiddlewareConfig {
        proxy: vec![],
        client: ClientMiddlewareConfig { default: vec![], servers: vec![("github".to_string(), vec![filter])] },
    });
    let manager = MiddlewareManager::from_config(&config).ok().unwrap();
    let client_middleware = manager.create_client_middleware_for_server("github", &config).ok().unwrap();
    assert_eq!(client_middleware.len(), 1);
    let other_middleware = manager.create_client_middleware_for_server("other", &config).ok().unwrap();
    assert_eq!(other_middleware.len(), 0);
}

#[test]
fn test_server_specific_middleware_override() {
    let logging = |_level: &str| MiddlewareSpec {
        middleware_type: "logging".to_string(),
        enabled: true,
        config: object_settings(ToolFilterConfig::default()),
    };
    let config = with_middleware(MiddlewareConfig {
        proxy: vec![],
        client: ClientMiddlewareConfig {
            default: vec![logging("info")],
            servers: vec![("special_server".to_string(), vec![logging("debug")])],
        },
    });
    let manager = MiddlewareManager::from_config(&config).ok().unwrap();
    let default_middleware = manager.create_client_middleware_for_server("regular_server", &config).ok().unwrap();
    assert_eq!(default_middleware.len(), 1);
    let special_middleware = manager.create_client_middleware_for_server("special_server", &config).ok().unwrap();
    assert_eq!(special_middleware.len(), 1);
}

#[test]
fn test_disabled_middleware_not_created() {
    let config = with_middleware(MiddlewareConfig {
        proxy: vec![spec("description_enricher", true), spec("description_enricher", false)],
        client: ClientMiddlewareConfig::default(),
    });
    let manager = MiddlewareManager::from_config(&config).ok().unwrap();
    assert_eq!(manager.proxy.len(), 1);
}

#[test]
fn test_unknown_middleware_type_error() {
    let config = with_middleware(MiddlewareConfig {
        proxy: vec![spec("nonexistent_middleware", true)],
        client: ClientMiddlewareConfig::default(),
    });
    let result = MiddlewareManager::from_config(&config);
    assert!(result.is_err());
    let error = result.err().unwrap();
    assert!(error.to_string().contains("Unknown proxy middleware type"));
}

#[test]
fn manager_unknown_client_middleware_is_named() {
    let config = with_middleware(MiddlewareConfig {
        proxy: vec![],
        client: ClientMiddlewareConfig { default: vec![spec("mystery", true)], servers: vec![] },
    });
    let manager = MiddlewareManager::from_config(&config).ok().unwrap();
    let error = manager.create_client_middleware_for_server("s", &config).err().unwrap();
    assert_eq!(error.to_string(), "Configuration error: Unknown client middleware type: mystery");
}

#[test]
fn manager_disabled_unknown_middleware_is_skipped() {
    let config = with_middleware(MiddlewareConfig {
        proxy: vec![spec("nonexistent_middleware", false)],
        client: ClientMiddlewareConfig::default(),
    });
    let manager = MiddlewareManager::from_config(&config).ok().unwrap();
    assert!(manager.proxy.is_empty());
}

#[test]
fn manager_without_http_server_has_no_middleware() {
    let config = McpConfig { mcp_servers: vec![], http_server: None };
    let manager = MiddlewareManager::from_config(&config).ok().unwrap();
    assert!(manager.proxy.is_empty());
    assert!(manager.create_client_middleware_for_server("s", &config).ok().unwrap().is_empty());
}

#[test]
fn manager_applies_proxy_middleware_in_order() {
    let config = with_middleware(MiddlewareConfig {
        proxy: vec![spec("description_enricher", true), spec("description_enricher", true)],
        client: ClientMiddlewareConfig::default(),
    });
    let mut manager = MiddlewareManager::from_config(&config).ok().unwrap();
    let mut tools = vec![tool("s___real", "Real")];
    manager.on_list_tools(&mut tools);
    assert_eq!(tools.len(), 1);
    assert_eq!(tools[0].description, Some("Real (via mcproxy) (via mcproxy)".to_string()));
}

#[test]
fn manager_built_in_proxy_middleware_includes_tool_search() {
    let config = with_middleware(MiddlewareConfig {
        proxy: vec![spec("tool_search", true), spec("description_enricher", true)],
        client: ClientMiddlewareConfig::default(),
    });
    let manager = MiddlewareManager::from_config(&config).ok().unwrap();
    assert_eq!(manager.proxy.len(), 2);
    assert!(manager.proxy[0].as_tool_search().is_some());
    let config = with_middleware(MiddlewareConfig {
        proxy: vec![spec("tool_filter", true)],
        client: ClientMiddlewareConfig::default(),
    });
    let error = MiddlewareManager::from_config(&config).err().unwrap();
    assert_eq!(error.to_string(), "Configuration error: Unknown proxy middleware type: tool_filter");
}
