use mcproxy::config::MiddlewareSettings;
use mcproxy::middleware::proxy_middleware::tool_search::{
    default_enabled, default_max_tools_limit, default_search_threshold,
    default_tool_selection_order, IndexedTool, ToolSearchMiddleware, ToolSearchMiddlewareConfig,
    ToolSearchMiddlewareFactory,
};
use mcproxy::model::Tool;

fn create_test_tool(name: &str, description: &str) -> Tool {
    Tool {
        name: name.to_string(),
        description: Some(description.to_string()),
        input_schema: "{}".to_string(),
        annotations: None,
    }
}

/// A configuration with the given limit and smallest score: the threshold on
/// the 0–1 scale times 100 in `f32`, rounded up (0.1 → 10, 0.3 → 31, 0.8 → 80).
fn create_test_config(max_tools: usize, min_score: u32) -> ToolSearchMiddlewareConfig {
    ToolSearchMiddlewareConfig {
        enabled: true,
        max_tools_limit: max_tools,
        search_min_score: min_score,
        tool_selection_order: vec!["alphabetical".to_string()],
    }
}

#[test]
fn test_tool_indexing() {
    let mut middleware = ToolSearchMiddleware::new(create_test_config(50, 31));
    let tools = vec![
        create_test_tool("server1___file_search", "Search for files in the filesystem"),
        create_test_tool("server2___web_scrape", "Scrape content from web pages"),
    ];
    middleware.update_tool_index(&tools);
    let index = middleware.tool_index();
    assert_eq!(index.len(), 2);
    assert_eq!(index[0].server_name, "server1");
    assert_eq!(index[1].server_name, "server2");
}

#[test]
fn test_fuzzy_search() {
    let mut middleware = ToolSearchMiddleware::new(create_test_config(50, 10));
    let tools = vec![
        create_test_tool("server1___file_search", "Search for files in the filesystem"),
        create_test_tool("server1___file_write", "Write content to a file"),
        create_test_tool("server2___web_scrape", "Scrape content from web pages"),
        create_test_tool("server2___web_download", "Download files from the web"),
    ];
    middleware.update_tool_index(&tools);

    let results = middleware.search_tools("file");
    assert!(results.len() >= 2);
    assert!(results.iter().any(|t| t.name.contains("file_search")));
    assert!(results.iter().any(|t| t.name.contains("file_write")));

    let results = middleware.search_tools("web");
    assert!(results.len() >= 2);
    assert!(results.iter().any(|t| t.name.contains("web_scrape")));
    assert!(results.iter().any(|t| t.name.contains("web_download")));

    let results = middleware.search_tools("file_search");
    assert!(results.len() >= 1);
    assert!(results.iter().any(|t| t.name.contains("file_search")));
}

#[test]
fn test_search_threshold() {
    let mut middleware = ToolSearchMiddleware::new(create_test_config(50, 80));
    let tools = vec![create_test_tool("server1___completely_different_tool", "A tool that does something else")];
    middleware.update_tool_index(&tools);
    let results = middleware.search_tools("xyz");
    assert!(results.is_empty());
}

#[test]
fn test_search_result_limit() {
    let mut middleware = ToolSearchMiddleware::new(create_test_config(2, 10));
    let tools = vec![
        create_test_tool("server1___file_search", "Search for files"),
        create_test_tool("server1___file_write", "Write files"),
        create_test_tool("server1___file_read", "Read files"),
        create_test_tool("server1___file_delete", "Delete files"),
    ];
    middleware.update_tool_index(&tools);
    let results = middleware.search_tools("file");
    assert!(results.len() <= 2);
}

#[test]
fn test_selective_tool_exposure() {
    let mut middleware = ToolSearchMiddleware::new(create_test_config(2, 31));
    let mut tools = vec![
        create_test_tool("server1___zebra_tool", "Tool starting with Z"),
        create_test_tool("server1___alpha_tool", "Tool starting with A"),
        create_test_tool("server1___beta_tool", "Tool starting with B"),
    ];
    middleware.on_list_tools(&mut tools);
    assert_eq!(tools.len(), 3);
    assert!(tools.iter().any(|t| t.name == "search_available_tools"));
    let non_search_tools: Vec<&Tool> = tools.iter().filter(|t| t.name != "search_available_tools").collect();
    assert_eq!(non_search_tools.len(), 2);
    assert!(non_search_tools[0].name.contains("alpha"));
    assert!(non_search_tools[1].name.contains("beta"));
}

#[test]
fn test_no_limiting_when_under_threshold() {
    let mut middleware = ToolSearchMiddleware::new(create_test_config(50, 31));
    let mut tools = vec![create_test_tool("server1___tool1", "Tool 1"), create_test_tool("server1___tool2", "Tool 2")];
    let count_before = tools.len();
    middleware.on_list_tools(&mut tools);
    assert_eq!(tools.len(), count_before);
    assert!(!tools.iter().any(|t| t.name == "search_available_tools"));
}

#[test]
fn test_search_tool_creation() {
    let middleware = ToolSearchMiddleware::new(create_test_config(50, 31));
    let search_tool = middleware.create_search_tool(25);
    assert_eq!(search_tool.name, "search_available_tools");
    assert!(search_tool.description.is_some());
    assert!(search_tool.description.as_ref().unwrap().contains("25 additional"));
    let schema: serde_json::Value = serde_json::from_str(&search_tool.input_schema).unwrap();
    assert!(schema.get("type").is_some());
    assert!(schema.get("properties").is_some());
    assert!(schema.get("required").is_some());
}

#[test]
fn test_indexed_tool_creation() {
    let tool = create_test_tool("server1___test_tool", "A test tool for searching");
    let indexed = IndexedTool::new(tool.clone(), "server1".to_string());
    assert_eq!(indexed.tool.name, tool.name);
    assert_eq!(indexed.server_name, "server1");
    assert!(indexed.searchable_text.contains("test_tool"));
    assert!(indexed.searchable_text.contains("test tool for searching"));
    assert_eq!(indexed.selection_priority, 1);
}

#[test]
fn test_middleware_config_defaults() {
    let config = ToolSearchMiddlewareConfig::default();
    assert!(config.enabled);
    assert_eq!(config.max_tools_limit, 50);
    assert_eq!(config.search_min_score, 31);
    assert_eq!(config.tool_selection_order, vec!["server_priority"]);
}

#[test]
fn test_middleware_factory() {
    let factory = ToolSearchMiddlewareFactory;
    assert_eq!(factory.middleware_type(), "tool_search");
    let middleware = factory.create(&MiddlewareSettings::null()).ok().unwrap();
    assert!(middleware.as_tool_search().is_some());
    let mut custom = ToolSearchMiddlewareConfig::default();
    custom.enabled = true;
    custom.max_tools_limit = 25;
    let settings = MiddlewareSettings {
        is_null: false,
        as_tool_filter: Err("unused".to_string()),
        as_security: Err("unused".to_string()),
        as_tool_search: Ok(custom),
    };
    let middleware = factory.create(&settings).ok().unwrap();
    assert!(middleware.as_tool_search().is_some());
}

#[test]
fn test_update_exposed_tools() {
    let mut middleware = ToolSearchMiddleware::new(create_test_config(50, 31));
    let new_tools = vec![create_test_tool("server1___tool1", "Tool 1"), create_test_tool("server2___tool2", "Tool 2")];
    middleware.update_exposed_tools(new_tools.clone());
    let exposed = middleware.get_exposed_tools();
    assert_eq!(exposed.len(), 2);
    assert!(middleware.is_search_tool_injected());
}

#[test]
fn tool_search_defaults() {
    assert!(default_enabled());
    assert_eq!(default_max_tools_limit(), 50);
    assert_eq!(default_search_threshold(), 31);
    assert_eq!(default_tool_selection_order(), vec!["server_priority".to_string()]);
}

#[test]
fn tool_search_server_priority_groups_by_server() {
    let mut config = create_test_config(3, 31);
    config.tool_selection_order = vec!["server_priority".to_string()];
    let middleware = ToolSearchMiddleware::new(config);
    let tools = vec![
        create_test_tool("b___one", "x"),
        create_test_tool("a___zeta", "x"),
        create_test_tool("plain", "x"),
        create_test_tool("a___alpha", "x"),
    ];
    let selected = middleware.select_initial_tools(&tools);
    let names: Vec<&str> = selected.iter().map(|t| t.name.as_str()).collect();
    assert_eq!(names, vec!["a___alpha", "a___zeta", "b___one"]);
}

#[test]
fn tool_search_unknown_criterion_keeps_order() {
    let mut config = create_test_config(2, 31);
    config.tool_selection_order = vec!["usage_frequency".to_string()];
    let middleware = ToolSearchMiddleware::new(config);
    let tools = vec![create_test_tool("z", "x"), create_test_tool("a", "x"), create_test_tool("m", "x")];
    let selected = middleware.select_initial_tools(&tools);
    let names: Vec<&str> = selected.iter().map(|t| t.name.as_str()).collect();
    assert_eq!(names, vec!["z", "a"]);
}

#[test]
fn tool_search_disabled_changes_nothing() {
    let mut config = create_test_config(1, 31);
    config.enabled = false;
    let mut middleware = ToolSearchMiddleware::new(config);
    let mut tools = vec![create_test_tool("a", "x"), create_test_tool("b", "x")];
    middleware.on_list_tools(&mut tools);
    assert_eq!(tools.len(), 2);
    assert!(middleware.tool_index().is_empty());
    assert!(!middleware.is_search_tool_injected());
}

#[test]
fn tool_search_hidden_count_in_description() {
    let mut middleware = ToolSearchMiddleware::new(create_test_config(1, 31));
    let mut tools = vec![create_test_tool("a", "x"), create_test_tool("b", "x"), create_test_tool("c", "x")];
    middleware.on_list_tools(&mut tools);
    assert_eq!(tools.len(), 2);
    assert_eq!(tools[0].name, "a");
    assert_eq!(
        tools[1].description.as_deref(),
        Some("Search through 2 additional available tools. Provide a search query to find relevant tools by name or description.")
    );
    assert_eq!(middleware.get_exposed_tools().len(), 2);
    assert_eq!(middleware.tool_index().len(), 3);
}

#[test]
fn tool_search_empty_query_finds_everything_up_to_limit() {
    let mut middleware = ToolSearchMiddleware::new(create_test_config(2, 0));
    let tools = vec![create_test_tool("s___a", "x"), create_test_tool("s___b", "y"), create_test_tool("s___c", "z")];
    middleware.update_tool_index(&tools);
    let results = middleware.search_tools("");
    let names: Vec<&str> = results.iter().map(|t| t.name.as_str()).collect();
    assert_eq!(names, vec!["s___a", "s___b"]);
}

#[test]
fn tool_search_invalid_configuration_is_reported() {
    let factory = ToolSearchMiddlewareFactory;
    let settings = MiddlewareSettings {
        is_null: false,
        as_tool_filter: Err("unused".to_string()),
        as_security: Err("unused".to_string()),
        as_tool_search: Err("invalid type: string \"x\", expected a boolean".to_string()),
    };
    let message = factory.create(&settings).err().unwrap().to_string();
    assert_eq!(
        message,
        "Configuration error: Invalid tool search configuration: invalid type: string \"x\", expected a boolean"
    );
}

fn search_settings(limit: usize, min_score: u32) -> MiddlewareSettings {
    let mut config = ToolSearchMiddlewareConfig::default();
    config.enabled = true;
    config.max_tools_limit = limit;
    config.search_min_score = min_score;
    MiddlewareSettings {
        is_null: false,
        as_tool_filter: Err("unused".to_string()),
        as_security: Err("unused".to_string()),
        as_tool_search: Ok(config),
    }
}

fn manager_with_search(limit: usize, min_score: u32) -> mcproxy::middleware::MiddlewareManager {
    let mut config = mcproxy::config::McpConfig::default();
    if let Some(ref mut http) = config.http_server {
        http.middleware.proxy = vec![mcproxy::config::MiddlewareSpec {
            middleware_type: "tool_search".to_string(),
            enabled: true,
            config: search_settings(limit, min_score),
        }];
    }
    mcproxy::middleware::MiddlewareManager::from_config(&config).ok().unwrap()
}

fn search_call(arguments: Option<&str>) -> mcproxy::model::CallToolRequestParam {
    mcproxy::model::CallToolRequestParam {
        name: "search_available_tools".to_string(),
        arguments: arguments.map(|a| a.to_string()),
    }
}

#[test]
fn test_search_tool_missing_query() {
    let mut manager = manager_with_search(2, 10);
    let error = manager.call_search_tool(&search_call(Some("{}"))).unwrap().err().unwrap();
    assert_eq!(error.code, -32602);
    assert!(error.message.contains("query"));
}

#[test]
fn test_search_tool_empty_query() {
    let mut manager = manager_with_search(2, 10);
    let answer = manager.call_search_tool(&search_call(Some("{\"query\":\"\"}"))).unwrap();
    assert!(answer.is_ok());
    assert_eq!(answer.ok().unwrap(), "No tools found matching ''.");
}

#[test]
fn test_tools_list_with_search_middleware() {
    let mut manager = manager_with_search(2, 10);
    let mut tools: Vec<Tool> = vec![];
    manager.on_list_tools(&mut tools);
    assert!(tools.is_empty());
}

#[test]
fn search_call_lists_and_exposes_the_tools_found() {
    let mut manager = manager_with_search(1, 10);
    let mut tools = vec![
        create_test_tool("files___read_file", "Read a file"),
        create_test_tool("web___fetch", "Fetch a page"),
    ];
    manager.on_list_tools(&mut tools);
    let answer = manager.call_search_tool(&search_call(Some("{\"query\":\"read_file\"}"))).unwrap().ok().unwrap();
    assert_eq!(
        answer,
        "Found 1 tool(s) matching 'read_file':\n\n1. **files___read_file**\n   Read a file\n\nThese tools are now available in your current session."
    );
    let search = manager.proxy[0].as_tool_search().unwrap();
    let exposed = search.get_exposed_tools();
    assert_eq!(exposed.len(), 1);
    assert_eq!(exposed[0].name, "files___read_file");
    assert!(search.is_search_tool_injected());
}

#[test]
fn search_call_other_tools_and_missing_middleware_pass_through() {
    let mut manager = manager_with_search(1, 10);
    let other = mcproxy::model::CallToolRequestParam { name: "s___tool".to_string(), arguments: None };
    assert!(manager.call_search_tool(&other).is_none());
    let mut plain = mcproxy::middleware::MiddlewareManager::from_config(&mcproxy::config::McpConfig::default()).ok().unwrap();
    assert!(plain.call_search_tool(&search_call(Some("{\"query\":\"x\"}"))).is_none());
    let error = manager.call_search_tool(&search_call(None)).unwrap().err().unwrap();
    assert_eq!(error.message, "Missing required parameter: query");
    let error = manager.call_search_tool(&search_call(Some("{\"query\":3}"))).unwrap().err().unwrap();
    assert_eq!(error.code, -32602);
}

#[test]
fn alphabetical_selection_leaves_out_only_later_names() {
    let middleware = ToolSearchMiddleware::new(create_test_config(2, 31));
    let tools = vec![
        create_test_tool("d", "x"),
        create_test_tool("b", "x"),
        create_test_tool("c", "x"),
        create_test_tool("a", "x"),
    ];
    let selected = middleware.select_initial_tools(&tools);
    let names: Vec<&str> = selected.iter().map(|t| t.name.as_str()).collect();
    assert_eq!(names, vec!["a", "b"]);
}
