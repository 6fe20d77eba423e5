use mcproxy::middleware::client::{ClientMiddlewareInstance, MiddlewareResult};
use mcproxy::middleware::client_middleware::logging::{LoggingClientMiddleware, Operation, RequestTimings};
use mcproxy::middleware::examples;
use mcproxy::model::CallToolRequestParam;

#[test]
fn test_logging_middleware_with_request_ids() {
    let mut middleware = LoggingClientMiddleware::new("test-server".to_string());
    let request_id: u128 = 0x1234;
    middleware.set_start_time(request_id, "list_tools", 1_000);
    let taken = middleware.take_duration(request_id, 1_100);
    assert_eq!(taken, Some(("list_tools".to_string(), 100)));
    assert_eq!(middleware.take_duration(request_id, 1_200), None);
}

#[test]
fn test_concurrent_requests_with_unique_ids() {
    let mut middleware = ClientMiddlewareInstance::Logging(LoggingClientMiddleware::new("test-server".to_string()));
    let list_id: u128 = 1;
    let call_id: u128 = 2;
    middleware.before_operation(list_id, "list_tools", 0);
    let request = CallToolRequestParam { name: "test".to_string(), arguments: None };
    assert!(matches!(middleware.before_call_tool(call_id, &request), MiddlewareResult::Continue));
    middleware.before_operation(call_id, "call_tool", 10);
    assert_eq!(middleware.after_operation(call_id, 60), Some(("call_tool".to_string(), 50)));
    assert_eq!(middleware.after_operation(list_id, 100), Some(("list_tools".to_string(), 100)));
}

#[test]
fn test_concurrent_same_operations() {
    let mut middleware = LoggingClientMiddleware::new("test-server".to_string());
    let request_id1: u128 = 11;
    let request_id2: u128 = 22;
    middleware.set_start_time(request_id1, "list_tools", 0);
    middleware.set_start_time(request_id2, "list_tools", 20);
    assert_eq!(middleware.take_duration(request_id2, 70), Some(("list_tools".to_string(), 50)));
    assert_eq!(middleware.take_duration(request_id1, 100), Some(("list_tools".to_string(), 100)));
}

#[test]
fn test_logging_middleware_timing() {
    let mut timings = RequestTimings::new();
    timings.set_start_time(5, "list_tools", 200);
    assert_eq!(timings.take_duration(5, 300), Some(("list_tools".to_string(), 100)));
    timings.set_start_time(6, "call_tool", 300);
    assert_eq!(timings.take_duration(6, 350), Some(("call_tool".to_string(), 50)));
    let example = examples::LoggingClientMiddleware::new("test-server".to_string());
    assert_eq!(example.server_name(), "test-server");
}

#[test]
fn test_concurrent_timing() {
    let mut timings = RequestTimings::new();
    timings.set_start_time(1, "list_tools", 0);
    timings.set_start_time(2, "list_tools", 0);
    assert_eq!(timings.take_duration(2, 50), Some(("list_tools".to_string(), 50)));
    assert_eq!(timings.take_duration(1, 100), Some(("list_tools".to_string(), 100)));
}

#[test]
fn logging_clock_going_back_gives_zero() {
    let mut middleware = LoggingClientMiddleware::new("s".to_string());
    middleware.set_start_time(9, "call_tool", 500);
    assert_eq!(middleware.take_duration(9, 400), Some(("call_tool".to_string(), 0)));
}

#[test]
fn logging_restart_replaces_the_record() {
    let mut middleware = LoggingClientMiddleware::new("s".to_string());
    middleware.set_start_time(3, "list_tools", 10);
    middleware.set_start_time(3, "list_prompts", 40);
    assert_eq!(middleware.take_duration(3, 45), Some(("list_prompts".to_string(), 5)));
}

#[test]
fn logging_operation_descriptions() {
    assert_eq!(LoggingClientMiddleware::operation_description("list_tools"), "Listing tools");
    assert_eq!(LoggingClientMiddleware::operation_description("call_tool"), "Tool call");
    assert_eq!(LoggingClientMiddleware::operation_description("list_prompts"), "Listing prompts");
    assert_eq!(LoggingClientMiddleware::operation_description("list_resources"), "Listing resources");
    assert_eq!(LoggingClientMiddleware::operation_description("other"), "Operation");
    assert_eq!(LoggingClientMiddleware::new("srv".to_string()).server_name(), "srv");
}

const ID: u128 = 0xa1a2a3a4b1b2c1c2d1d2d3d4d5d6d7d8;

#[test]
fn logging_short_id_is_uuid_prefix() {
    assert_eq!(LoggingClientMiddleware::short_id(ID), "a1a2a3a4");
    assert_eq!(LoggingClientMiddleware::short_id(0), "00000000");
}

#[test]
fn logging_start_and_completion_lines() {
    let middleware = LoggingClientMiddleware::new("srv".to_string());
    assert_eq!(middleware.log_start("list_tools", ID), "📋 [srv] Listing tools (a1a2a3a4)");
    assert_eq!(middleware.log_start("list_resources", ID), "📁 [srv] Listing resources (a1a2a3a4)");
    assert_eq!(middleware.log_start("other", ID), "🔄 [srv] Operation (a1a2a3a4)");
    assert_eq!(
        middleware.log_completion("list_tools", ID, "1.5ms", true, "3 tools"),
        "✅ [srv] Listing tools completed in 1.5ms - 3 tools (a1a2a3a4)"
    );
    assert_eq!(
        middleware.log_completion("call_tool", ID, "2s", false, "boom"),
        "❌ [srv] Tool call failed in 2s - boom (a1a2a3a4)"
    );
    assert_eq!(middleware.call_start("fetch", ID), "🔧 [srv] Calling tool: fetch (a1a2a3a4)");
    assert_eq!(LoggingClientMiddleware::listing_details(12, "prompts"), "12 prompts");
}

#[test]
fn logging_untimed_lines() {
    let middleware = LoggingClientMiddleware::new("srv".to_string());
    assert_eq!(
        middleware.untimed_completion(Operation::ListTools, ID, &Ok(4)),
        "✅ [srv] Listed 4 tools successfully (a1a2a3a4)"
    );
    assert_eq!(
        middleware.untimed_completion(Operation::CallTool, ID, &Ok(0)),
        "✅ [srv] Tool call successful (a1a2a3a4)"
    );
    assert_eq!(
        middleware.untimed_completion(Operation::ListPrompts, ID, &Err("down".to_string())),
        "❌ [srv] Failed to list prompts: down (a1a2a3a4)"
    );
    assert_eq!(
        middleware.untimed_completion(Operation::ListResources, ID, &Ok(1)),
        "✅ [srv] Listed 1 resources successfully (a1a2a3a4)"
    );
}
