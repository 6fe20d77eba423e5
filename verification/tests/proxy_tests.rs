use mcproxy::error::{INTERNAL_ERROR, INVALID_PARAMS};
use mcproxy::model::{CallToolRequestParam, Prompt, Resource, Tool};
use mcproxy::naming::{extract_server_name, prefix_name, split_prefixed_name};
use mcproxy::proxy::{
    after_child_wait, aggregate_prompts, aggregate_resources, aggregate_tools, connect_failure,
    connection_outcome, proxy_info, route_tool_call, tool_call_failure, ChildWait, ConnectStage,
    ConnectedServer, ShutdownStep, CHILD_EXIT_GRACE_SECS,
};

fn tool(name: &str) -> Tool {
    Tool {
        name: name.to_string(),
        description: Some(format!("{} tool", name)),
        input_schema: "{\"type\":\"object\"}".to_string(),
        annotations: None,
    }
}

fn call(name: &str, arguments: Option<&str>) -> CallToolRequestParam {
    CallToolRequestParam { name: name.to_string(), arguments: arguments.map(|a| a.to_string()) }
}

fn servers(names: &[&str]) -> Vec<String> {
    names.iter().map(|s| s.to_string()).collect()
}

#[test]
fn test_tools_call_invalid_format() {
    let result = route_tool_call(&call("invalid_tool_name_without_prefix", Some("{}")), &servers(&["a"]));
    let error = result.err().unwrap();
    assert_eq!(error.code, INVALID_PARAMS);
    assert_eq!(error.code, -32602);
    assert_eq!(error.message, "Invalid tool name format: invalid_tool_name_without_prefix");
}

#[test]
fn test_tools_call_server_not_found() {
    let result = route_tool_call(&call("nonexistent_server___some_tool", Some("{}")), &servers(&["a"]));
    let error = result.err().unwrap();
    assert_eq!(error.code, -32602);
    assert_eq!(error.message, "Server not found: nonexistent_server");
    assert_eq!(error.data, None);
}

#[test]
fn test_tools_call_empty_name() {
    let result = route_tool_call(&call("", Some("{}")), &servers(&[]));
    let error = result.err().unwrap();
    assert_eq!(error.code, -32602);
    assert_eq!(error.message, "Invalid tool name format: ");
}

#[test]
fn test_empty_config_no_servers() {
    assert!(aggregate_tools(&vec![]).is_empty());
    assert!(aggregate_prompts(&vec![]).is_empty());
    assert!(aggregate_resources(&vec![]).is_empty());
    assert!(connection_outcome(0, 0).is_ok());
}

#[test]
fn route_finds_server_and_keeps_arguments() {
    let (server, request) =
        route_tool_call(&call("github___create_issue", Some("{\"title\":\"x\"}")), &servers(&["fs", "github"]))
            .ok()
            .unwrap();
    assert_eq!(server, "github");
    assert_eq!(request.name, "create_issue");
    assert_eq!(request.arguments, Some("{\"title\":\"x\"}".to_string()));
}

#[test]
fn route_splits_at_first_separator() {
    let (server, request) = route_tool_call(&call("a___b___c", None), &servers(&["a"])).ok().unwrap();
    assert_eq!(server, "a");
    assert_eq!(request.name, "b___c");
    assert_eq!(request.arguments, None);
}

#[test]
fn route_of_exposed_name_round_trips() {
    let exposed = prefix_name("my-server", "do_it");
    assert_eq!(exposed, "my-server___do_it");
    let (server, request) = route_tool_call(&call(&exposed, None), &servers(&["my-server"])).ok().unwrap();
    assert_eq!(server, "my-server");
    assert_eq!(request.name, "do_it");
}

#[test]
fn route_round_trip_fails_for_server_ending_in_underscore() {
    let exposed = prefix_name("a_", "b");
    let split = split_prefixed_name(&exposed).unwrap();
    assert_eq!(split, ("a".to_string(), "_b".to_string()));
}

#[test]
fn naming_unknown_server() {
    assert_eq!(extract_server_name("plain"), "unknown");
    assert_eq!(extract_server_name("srv___tool"), "srv");
}

#[test]
fn tool_call_failure_message() {
    let error = tool_call_failure("github", "timeout");
    assert_eq!(error.code, INTERNAL_ERROR);
    assert_eq!(error.code, -32603);
    assert_eq!(error.message, "Failed to call tool on server github: timeout");
    assert_eq!(error.data, None);
}

#[test]
fn aggregate_prefixes_and_skips_failures() {
    let listings = vec![
        ("one".to_string(), Some(vec![tool("a"), tool("b")])),
        ("broken".to_string(), None),
        ("two".to_string(), Some(vec![tool("a")])),
    ];
    let tools = aggregate_tools(&listings);
    let names: Vec<&str> = tools.iter().map(|t| t.name.as_str()).collect();
    assert_eq!(names, vec!["one___a", "one___b", "two___a"]);
    assert_eq!(tools[0].description, Some("a tool".to_string()));
    assert_eq!(tools[0].input_schema, "{\"type\":\"object\"}");
}

#[test]
fn aggregate_prompts_and_resources() {
    let prompt = Prompt { name: "greet".to_string(), description: None, arguments: None };
    let prompts = aggregate_prompts(&vec![("p".to_string(), Some(vec![prompt]))]);
    assert_eq!(prompts[0].name, "p___greet");
    let resource = Resource {
        uri: "file:///x".to_string(),
        name: "x".to_string(),
        description: None,
        mime_type: Some("text/plain".to_string()),
        size: Some(3),
        annotations: None,
    };
    let resources = aggregate_resources(&vec![("r".to_string(), Some(vec![resource])), ("q".to_string(), None)]);
    assert_eq!(resources.len(), 1);
    assert_eq!(resources[0].uri, "r___file:///x");
    assert_eq!(resources[0].name, "x");
    assert_eq!(resources[0].size, Some(3));
}

#[test]
fn connection_outcome_cases() {
    assert!(connection_outcome(3, 1).is_ok());
    assert!(connection_outcome(0, 0).is_ok());
    assert_eq!(connection_outcome(2, 0).err().unwrap(), "Failed to connect to any MCP servers");
}

#[test]
fn connect_failure_messages() {
    assert_eq!(connect_failure(ConnectStage::Spawn, "no such file"), "Failed to spawn child process: no such file");
    assert_eq!(connect_failure(ConnectStage::Serve, "eof"), "Failed to serve client: eof");
    assert_eq!(connect_failure(ConnectStage::ServeHttp, "refused"), "Failed to serve HTTP client: refused");
}

#[test]
fn populate_keeps_lists_that_failed() {
    let mut server = ConnectedServer::new("s".to_string());
    server.populate_capabilities(Some(vec![tool("a")]), None, Some(vec![]));
    assert_eq!(server.tools.len(), 1);
    assert!(server.prompts.is_empty());
    server.populate_capabilities(None, Some(vec![Prompt { name: "p".to_string(), description: None, arguments: None }]), None);
    assert_eq!(server.tools.len(), 1);
    assert_eq!(server.prompts.len(), 1);
    assert_eq!(server.name, "s");
}

#[test]
fn shutdown_kills_only_processes_that_timed_out() {
    assert!(matches!(after_child_wait(ChildWait::TimedOut), ShutdownStep::Kill));
    assert!(matches!(after_child_wait(ChildWait::Exited), ShutdownStep::Done));
    assert!(matches!(after_child_wait(ChildWait::WaitFailed), ShutdownStep::Done));
    assert_eq!(CHILD_EXIT_GRACE_SECS, 5);
}

#[test]
fn proxy_info_identity() {
    let info = proxy_info("0.1.0".to_string());
    assert_eq!(info.name, "mcproxy");
    assert_eq!(info.version, "0.1.0");
    assert_eq!(info.instructions, "MCP Proxy Server - aggregates multiple MCP servers");
    assert!(info.tools && info.prompts && info.resources);
}
