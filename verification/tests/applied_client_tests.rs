use mcproxy::middleware::client::{CallStep, ClientMiddlewareInstance, MiddlewareAppliedClient};
use mcproxy::middleware::client_middleware::logging::{LoggingClientMiddleware, Operation};
use mcproxy::middleware::client_middleware::security::{SecurityClientMiddleware, SecurityConfig};
use mcproxy::middleware::client_middleware::tool_filter::{ToolFilterClientMiddleware, ToolFilterConfig};
use mcproxy::model::{CallToolRequestParam, ListToolsResult, Tool};

fn args(key: &str, value: &str) -> Option<String> {
    let mut map = serde_json::Map::new();
    map.insert(key.to_string(), serde_json::Value::String(value.to_string()));
    Some(serde_json::to_string(&map).unwrap())
}

fn tool(name: &str) -> Tool {
    Tool { name: name.to_string(), description: None, input_schema: "{}".to_string(), annotations: None }
}

fn logging() -> ClientMiddlewareInstance {
    ClientMiddlewareInstance::Logging(LoggingClientMiddleware::new("srv".to_string()))
}

fn security(log_blocked: bool) -> ClientMiddlewareInstance {
    let mut config = SecurityConfig::default();
    config.log_blocked = log_blocked;
    ClientMiddlewareInstance::Security(SecurityClientMiddleware::new("srv".to_string(), config).ok().unwrap())
}

fn dangerous() -> CallToolRequestParam {
    CallToolRequestParam { name: "shell".to_string(), arguments: args("command", "rm -rf /") }
}

fn harmless() -> CallToolRequestParam {
    CallToolRequestParam { name: "echo".to_string(), arguments: args("text", "hello") }
}

#[test]
fn applied_blocked_call_stops_at_the_blocking_middleware() {
    let mut client = MiddlewareAppliedClient::new(vec![security(true), logging()]);
    match client.start_call(7, &dangerous(), 10) {
        CallStep::Blocked { message, at } => {
            assert_eq!(message, "System commands are not allowed");
            assert_eq!(at, 0);
        }
        CallStep::CallServer => panic!("the call should have been blocked"),
    }
    // The logging middleware after the blocker never saw the call start.
    assert_eq!(client.finish_operation(7, 20), vec![None, None]);
}

#[test]
fn applied_blocked_call_runs_completion_hooks_of_earlier_middleware() {
    let mut client = MiddlewareAppliedClient::new(vec![logging(), security(true)]);
    match client.start_call(7, &dangerous(), 10) {
        CallStep::Blocked { at, .. } => assert_eq!(at, 1),
        CallStep::CallServer => panic!("the call should have been blocked"),
    }
    assert_eq!(client.finish_operation(7, 15), vec![Some(("call_tool".to_string(), 5)), None]);
    // The record is gone once the completion hooks ran.
    assert_eq!(client.finish_operation(7, 30), vec![None, None]);
}

#[test]
fn applied_harmless_call_goes_to_the_server() {
    let mut client = MiddlewareAppliedClient::new(vec![security(true), logging()]);
    assert!(matches!(client.start_call(9, &harmless(), 100), CallStep::CallServer));
    assert_eq!(client.finish_operation(9, 103), vec![None, Some(("call_tool".to_string(), 3))]);
}

#[test]
fn applied_operation_timings_use_the_operation_name() {
    let mut client = MiddlewareAppliedClient::new(vec![logging()]);
    client.start_operation(3, Operation::ListPrompts.name(), 50);
    assert_eq!(client.finish_operation(3, 49), vec![Some(("list_prompts".to_string(), 0))]);
}

#[test]
fn applied_tool_listing_filters_only_successful_listings() {
    let filter = ToolFilterClientMiddleware::new(
        "srv".to_string(),
        ToolFilterConfig { allow: None, disallow: Some("debug".to_string()) },
    )
    .ok()
    .unwrap();
    let mut client = MiddlewareAppliedClient::new(vec![logging(), ClientMiddlewareInstance::ToolFilter(filter)]);

    client.start_operation(1, "list_tools", 0);
    let mut listing: Result<ListToolsResult, String> = Ok(ListToolsResult {
        tools: vec![tool("read"), tool("debug_dump"), tool("write")],
        next_cursor: Some("next".to_string()),
    });
    let timings = client.finish_tool_listing(1, 4, &mut listing);
    assert_eq!(timings, vec![Some(("list_tools".to_string(), 4)), None]);
    let listed = listing.ok().unwrap();
    let names: Vec<&str> = listed.tools.iter().map(|t| t.name.as_str()).collect();
    assert_eq!(names, vec!["read", "write"]);
    assert_eq!(listed.next_cursor, Some("next".to_string()));

    client.start_operation(2, "list_tools", 0);
    let mut failed: Result<ListToolsResult, String> = Err("connection lost".to_string());
    client.finish_tool_listing(2, 1, &mut failed);
    assert_eq!(failed.err(), Some("connection lost".to_string()));
}

#[test]
fn operation_names() {
    assert_eq!(Operation::ListTools.name(), "list_tools");
    assert_eq!(Operation::CallTool.name(), "call_tool");
    assert_eq!(Operation::ListPrompts.name(), "list_prompts");
    assert_eq!(Operation::ListResources.name(), "list_resources");
}

fn security_mw(log_blocked: bool) -> SecurityClientMiddleware {
    let mut config = SecurityConfig::default();
    config.log_blocked = log_blocked;
    SecurityClientMiddleware::new("srv".to_string(), config).ok().unwrap()
}

#[test]
fn security_blocked_call_line_names_rule_and_content() {
    let mw = security_mw(true);
    assert_eq!(
        mw.blocked_call_line(&dangerous()),
        Some(
            "🚫 [srv] Security rule 'no_system_commands' blocked tool call: shell - System commands are not allowed | Blocked content: tool_name:shell args:{\"command\":\"rm -rf /\"}"
                .to_string()
        )
    );
    assert_eq!(mw.blocked_call_line(&harmless()), None);
    assert_eq!(security_mw(false).blocked_call_line(&dangerous()), None);
}

#[test]
fn security_blocked_call_line_truncates_long_content() {
    let long = "x".repeat(300);
    let request = CallToolRequestParam { name: "shell".to_string(), arguments: args("command", &format!("sudo {}", long)) };
    let line = security_mw(true).blocked_call_line(&request).unwrap();
    let content = format!("tool_name:shell args:{{\"command\":\"sudo {}\"}}", long);
    let expected = format!(
        "🚫 [srv] Security rule 'no_system_commands' blocked tool call: shell - System commands are not allowed | Blocked content: {}...",
        &content[..200]
    );
    assert_eq!(line, expected);
}

#[test]
fn security_check_line_has_full_request_id() {
    let id = 0xa1a2a3a4b1b2c1c2d1d2d3d4d5d6d7d8u128;
    assert_eq!(
        security_mw(true).security_check_line(&harmless(), id),
        Some("🔒 [srv] Security check for tool: echo (a1a2a3a4-b1b2-c1c2-d1d2-d3d4d5d6d7d8)".to_string())
    );
    assert_eq!(security_mw(false).security_check_line(&harmless(), id), None);
}
