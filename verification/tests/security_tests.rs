use mcproxy::config::MiddlewareSettings;
use mcproxy::middleware::client::{ClientMiddlewareInstance, MiddlewareResult};
use mcproxy::middleware::client_middleware::logging::LoggingClientMiddleware;
use mcproxy::middleware::client_middleware::security::{
    default_enabled, default_log_blocked, SecurityClientFactory, SecurityClientMiddleware,
    SecurityConfig, SecurityRule,
};
use mcproxy::model::CallToolRequestParam;

/// The JSON text of an object with one string field.
fn args(key: &str, value: &str) -> Option<String> {
    let mut map = serde_json::Map::new();
    map.insert(key.to_string(), serde_json::Value::String(value.to_string()));
    Some(serde_json::to_string(&map).unwrap())
}

fn settings_with_security(config: SecurityConfig) -> MiddlewareSettings {
    MiddlewareSettings {
        is_null: false,
        as_tool_filter: Err("not a tool filter configuration".to_string()),
        as_security: Ok(config),
        as_tool_search: Err("not a tool search configuration".to_string()),
    }
}

#[test]
fn test_security_middleware_creation() {
    let factory = SecurityClientFactory;
    let config = SecurityConfig {
        rules: vec![SecurityRule {
            name: "test_rule".to_string(),
            description: "Test rule".to_string(),
            pattern: "dangerous".to_string(),
            block_message: "Dangerous operation".to_string(),
            enabled: true,
        }],
        log_blocked: true,
    };
    let middleware = factory.create("test_server", &settings_with_security(config));
    assert!(middleware.is_ok());
    assert!(factory.middleware_type() == "security");
}

#[test]
fn test_default_security_rules() {
    let config = SecurityConfig::default();
    let middleware = SecurityClientMiddleware::new("test".to_string(), config).ok().unwrap();
    let request = CallToolRequestParam { name: "shell".to_string(), arguments: args("command", "rm -rf /") };
    let result = middleware.check_security_rules(&request);
    assert!(result.is_some());
    assert!(result.unwrap().contains("System commands are not allowed"));
}

#[test]
fn test_sensitive_file_blocking() {
    let config = SecurityConfig::default();
    let middleware = SecurityClientMiddleware::new("test".to_string(), config).ok().unwrap();
    let request = CallToolRequestParam { name: "read_file".to_string(), arguments: args("path", "/etc/passwd") };
    let result = middleware.check_security_rules(&request);
    assert!(result.is_some());
    assert!(result.unwrap().contains("Access to sensitive files is not allowed"));
}

#[test]
fn test_allowed_request() {
    let config = SecurityConfig::default();
    let middleware = SecurityClientMiddleware::new("test".to_string(), config).ok().unwrap();
    let request = CallToolRequestParam { name: "safe_tool".to_string(), arguments: args("data", "hello world") };
    let result = middleware.check_security_rules(&request);
    assert!(result.is_none());
}

#[test]
fn test_security_logging_includes_blocked_content() {
    let config = SecurityConfig {
        rules: vec![SecurityRule {
            name: "test_token_rule".to_string(),
            description: "Test rule for token detection".to_string(),
            pattern: "github_pat".to_string(),
            block_message: "Test token blocked".to_string(),
            enabled: true,
        }],
        log_blocked: true,
    };
    let middleware = SecurityClientMiddleware::new("test".to_string(), config).ok().unwrap();
    let request = CallToolRequestParam {
        name: "fetch".to_string(),
        arguments: args("url", "https://example.com?token=github_pat_123"),
    };
    let result = middleware.check_security_rules(&request);
    assert!(result.is_some());
    assert_eq!(result.unwrap(), "Test token blocked");
}

#[test]
fn test_content_truncation_logic() {
    let config = SecurityConfig::default();
    let middleware = SecurityClientMiddleware::new("test".to_string(), config).ok().unwrap();
    let long_content = "x".repeat(300);
    let request = CallToolRequestParam { name: "test_tool".to_string(), arguments: args("data", &long_content) };
    let search_content = middleware.extract_searchable_content(&request);
    assert!(search_content.contains("test_tool"));
    assert!(search_content.len() > 200);
}

#[test]
fn test_middleware_blocking_behavior() {
    let config = SecurityConfig::default();
    let security = SecurityClientMiddleware::new("test".to_string(), config).ok().unwrap();
    let logging = ClientMiddlewareInstance::Logging(LoggingClientMiddleware::new("test".to_string()));
    let dangerous_request =
        CallToolRequestParam { name: "shell".to_string(), arguments: args("command", "rm -rf /") };
    let request_id: u128 = 7;
    match security.before_call_tool(request_id, &dangerous_request) {
        MiddlewareResult::Block(message) => {
            assert!(message.contains("System commands are not allowed"));
        }
        MiddlewareResult::Continue => {
            panic!("Security middleware should have blocked this request");
        }
    }
    match logging.before_call_tool(request_id, &dangerous_request) {
        MiddlewareResult::Continue => {}
        MiddlewareResult::Block(_) => {
            panic!("Logging middleware should not block any requests");
        }
    }
}

#[test]
fn security_defaults_are_enabled_and_logged() {
    assert!(default_log_blocked());
    assert!(default_enabled());
    let config = SecurityConfig::default();
    assert!(config.log_blocked);
    assert!(!config.rules.is_empty());
}

#[test]
fn security_arguments_are_searched_exactly() {
    let middleware = SecurityClientMiddleware::new("test".to_string(), SecurityConfig::default()).ok().unwrap();
    let request = CallToolRequestParam { name: "t".to_string(), arguments: Some("{\"a\":\"b\"}".to_string()) };
    assert_eq!(middleware.extract_searchable_content(&request), "tool_name:t args:{\"a\":\"b\"}");
    let bare = CallToolRequestParam { name: "t".to_string(), arguments: None };
    assert_eq!(middleware.extract_searchable_content(&bare), "tool_name:t");
}

#[test]
fn security_invalid_rule_pattern_is_a_config_error() {
    let config = SecurityConfig {
        rules: vec![SecurityRule {
            name: "broken".to_string(),
            description: "A rule whose pattern does not compile".to_string(),
            pattern: "[unclosed".to_string(),
            block_message: "never".to_string(),
            enabled: true,
        }],
        log_blocked: false,
    };
    let result = SecurityClientMiddleware::new("test".to_string(), config);
    let message = result.err().unwrap().to_string();
    assert!(message.starts_with("Configuration error: Invalid security rule 'broken' regex pattern '[unclosed': "));
}

#[test]
fn security_disabled_rule_with_bad_pattern_is_ignored() {
    let config = SecurityConfig {
        rules: vec![SecurityRule {
            name: "off".to_string(),
            description: "Disabled".to_string(),
            pattern: "[unclosed".to_string(),
            block_message: "never".to_string(),
            enabled: false,
        }],
        log_blocked: false,
    };
    let middleware = SecurityClientMiddleware::new("test".to_string(), config).ok().unwrap();
    let request = CallToolRequestParam { name: "anything".to_string(), arguments: None };
    assert!(middleware.check_security_rules(&request).is_none());
}

#[test]
fn security_first_matching_rule_decides() {
    let rule = |name: &str, pattern: &str, message: &str| SecurityRule {
        name: name.to_string(),
        description: String::new(),
        pattern: pattern.to_string(),
        block_message: message.to_string(),
        enabled: true,
    };
    let config = SecurityConfig {
        rules: vec![rule("a", "alpha", "first"), rule("b", "alp", "second")],
        log_blocked: true,
    };
    let middleware = SecurityClientMiddleware::new("test".to_string(), config).ok().unwrap();
    let request = CallToolRequestParam { name: "alpha".to_string(), arguments: None };
    assert_eq!(middleware.check_security_rules(&request).unwrap(), "first");
}
