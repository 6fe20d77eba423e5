use mcproxy::middleware::registry::{ClientFactory, MiddlewareRegistry, ProxyFactory};
use mcproxy::middleware::client_middleware::logging::LoggingClientFactory;
use mcproxy::middleware::proxy_middleware::tool_filter::ToolFilterFactory;

#[test]
fn test_registry_creation() {
    let registry = MiddlewareRegistry::new();
    assert!(registry.get_proxy_factory("description_enricher").is_some());
    assert!(registry.get_client_factory("logging").is_some());
    assert!(registry.get_client_factory("security").is_some());
    assert!(registry.get_client_factory("tool_filter").is_some());
}

#[test]
fn test_factory_lookup() {
    let registry = MiddlewareRegistry::new();
    assert!(registry.get_proxy_factory("description_enricher").is_some());
    assert!(registry.get_client_factory("logging").is_some());
    assert!(registry.get_client_factory("security").is_some());
    assert!(registry.get_client_factory("tool_filter").is_some());
    assert!(registry.get_proxy_factory("unknown").is_none());
    assert!(registry.get_client_factory("unknown").is_none());
}

#[test]
fn registry_lookup_gives_the_factory_of_that_type() {
    let registry = MiddlewareRegistry::default();
    assert_eq!(registry.get_proxy_factory("description_enricher").unwrap().middleware_type(), "description_enricher");
    assert_eq!(registry.get_proxy_factory("tool_search").unwrap().middleware_type(), "tool_search");
    assert!(registry.get_proxy_factory("tool_filter").is_none());
    assert_eq!(registry.get_client_factory("security").unwrap().middleware_type(), "security");
}

#[test]
fn registry_register_then_get() {
    let mut registry = MiddlewareRegistry::new();
    registry.register_proxy_factory(ProxyFactory::ToolFilter(ToolFilterFactory));
    registry.register_client_factory(ClientFactory::Logging(LoggingClientFactory));
    assert_eq!(registry.get_proxy_factory("tool_filter").unwrap().middleware_type(), "tool_filter");
    assert_eq!(registry.get_client_factory("logging").unwrap().middleware_type(), "logging");
}
