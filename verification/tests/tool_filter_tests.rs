use mcproxy::config::MiddlewareSettings;
use mcproxy::middleware::client_middleware::tool_filter::{
    ToolFilterClientFactory, ToolFilterClientMiddleware, ToolFilterConfig,
};
use mcproxy::model::{ListToolsResult, Tool};

fn tool(name: &str) -> Tool {
    Tool { name: name.to_string(), description: None, input_schema: "{}".to_string(), annotations: None }
}

fn has(result: &ListToolsResult, name: &str) -> bool {
    result.tools.iter().any(|t| t.name == name)
}

#[test]
fn test_tool_filter_disallow_pattern() {
    let config = ToolFilterConfig { allow: None, disallow: Some("test|debug".to_string()) };
    let middleware = ToolFilterClientMiddleware::new("test-server".to_string(), config).ok().unwrap();
    let mut result = ListToolsResult {
        tools: vec![tool("production_tool"), tool("test_helper"), tool("debug_tool"), tool("normal_tool")],
        next_cursor: None,
    };
    middleware.modify_list_tools_result(1, &mut result);
    assert_eq!(result.tools.len(), 2);
    assert!(has(&result, "production_tool"));
    assert!(has(&result, "normal_tool"));
    assert!(!has(&result, "test_helper"));
    assert!(!has(&result, "debug_tool"));
}

#[test]
fn test_tool_filter_allow_pattern() {
    let config = ToolFilterConfig { allow: Some("^file_|^search_".to_string()), disallow: None };
    let middleware = ToolFilterClientMiddleware::new("test-server".to_string(), config).ok().unwrap();
    let mut result = ListToolsResult {
        tools: vec![tool("file_read"), tool("search_files"), tool("other_tool")],
        next_cursor: None,
    };
    middleware.modify_list_tools_result(2, &mut result);
    assert_eq!(result.tools.len(), 2);
    assert!(has(&result, "file_read"));
    assert!(has(&result, "search_files"));
    assert!(!has(&result, "other_tool"));
}

#[test]
fn test_default_config_allows_everything() {
    let config = ToolFilterConfig::default();
    let middleware = ToolFilterClientMiddleware::new("test-server".to_string(), config).ok().unwrap();
    let mut result = ListToolsResult {
        tools: vec![tool("production_tool"), tool("test_helper"), tool("debug_tool")],
        next_cursor: None,
    };
    let initial_count = result.tools.len();
    middleware.modify_list_tools_result(3, &mut result);
    assert_eq!(result.tools.len(), initial_count);
    assert!(has(&result, "production_tool"));
    assert!(has(&result, "test_helper"));
    assert!(has(&result, "debug_tool"));
}

#[test]
fn test_invalid_regex_pattern() {
    let config = ToolFilterConfig { allow: None, disallow: Some("[invalid_regex".to_string()) };
    let result = ToolFilterClientMiddleware::new("test-server".to_string(), config);
    assert!(result.is_err());
    assert!(result.err().unwrap().to_string().contains("Invalid disallow regex pattern"));
}

#[test]
fn tool_filter_invalid_allow_pattern_is_reported() {
    let config = ToolFilterConfig { allow: Some("(".to_string()), disallow: None };
    let message = ToolFilterClientMiddleware::new("s".to_string(), config).err().unwrap().to_string();
    assert!(message.starts_with("Configuration error: Invalid allow regex pattern '(': "));
}

#[test]
fn tool_filter_allow_takes_precedence_over_disallow() {
    let config = ToolFilterConfig { allow: Some("^keep".to_string()), disallow: Some("keep".to_string()) };
    let middleware = ToolFilterClientMiddleware::new("s".to_string(), config).ok().unwrap();
    assert!(middleware.should_keep_tool("keep_me"));
    assert!(!middleware.should_keep_tool("drop_me"));
}

#[test]
fn tool_filter_keeps_order_and_cursor() {
    let config = ToolFilterConfig { allow: None, disallow: Some("x".to_string()) };
    let middleware = ToolFilterClientMiddleware::new("s".to_string(), config).ok().unwrap();
    let mut result = ListToolsResult {
        tools: vec![tool("c"), tool("x1"), tool("a"), tool("b")],
        next_cursor: Some("page2".to_string()),
    };
    middleware.modify_list_tools_result(4, &mut result);
    let names: Vec<&str> = result.tools.iter().map(|t| t.name.as_str()).collect();
    assert_eq!(names, vec!["c", "a", "b"]);
    assert_eq!(result.next_cursor, Some("page2".to_string()));
}

#[test]
fn tool_filter_factory_reads_its_configuration() {
    let factory = ToolFilterClientFactory;
    assert_eq!(factory.middleware_type(), "tool_filter");
    let settings = MiddlewareSettings {
        is_null: false,
        as_tool_filter: Err("invalid type: string, expected struct".to_string()),
        as_security: Err("unused".to_string()),
        as_tool_search: Err("unused".to_string()),
    };
    let message = factory.create("s", &settings).err().unwrap().to_string();
    assert_eq!(
        message,
        "Configuration error: Invalid tool filter configuration: invalid type: string, expected struct"
    );
    assert!(factory.create("s", &MiddlewareSettings::null()).is_ok());
}
