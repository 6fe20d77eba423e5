//! Example middleware implementations for demonstration and testing.
use crate::middleware::client::{client_kind, ClientKind, ClientMiddlewareInstance};
use crate::middleware::proxy::{proxy_kind, ProxyKind, ProxyMiddlewareInstance};
use crate::middleware::proxy_middleware::description_enricher::{
    enrich_prompts, enrich_resources, enrich_tools, enriched_prompt, enriched_resource,
    enriched_tool,
};
use crate::middleware::proxy_middleware::tool_filter::{is_test_tool, remove_test_tools};
use crate::model::{
    prompts_view, resources_view, tools_view, Prompt, PromptView, Resource, ResourceView, Tool,
    ToolView,
};
use crate::text::owned;
use vstd::prelude::*;

verus! {

/// Example logging middleware for one server; its timing is kept by the caller.
pub struct LoggingClientMiddleware {
    server_name: String,
}

impl LoggingClientMiddleware {
    /// The name of the server whose operations are logged.
    pub closed spec fn server(&self) -> Seq<char> {
        self.server_name@
    }

    /// A logging middleware for the server.
    pub fn new(server_name: String) -> (r: Self)
        ensures
            r.server() == server_name@,
    {
        LoggingClientMiddleware { server_name }
    }

    /// The name of the server whose operations are logged.
    pub fn server_name(&self) -> (r: &String)
        ensures
            r@ == self.server(),
    {
        &self.server_name
    }
}

/// Example filtering middleware that removes tools containing "test" in their name.
pub struct TestToolFilterMiddleware;

impl TestToolFilterMiddleware {
    /// Removes the test tools.
    pub fn on_list_tools(&self, tools: &mut Vec<Tool>)
        ensures
            tools_view(final(tools)@) == tools_view(old(tools)@).filter(
                |t: ToolView| !is_test_tool(t),
            ),
    {
        remove_test_tools(tools)
    }
}

/// Example middleware that adds metadata to tool descriptions.
pub struct DescriptionEnricherMiddleware;

impl DescriptionEnricherMiddleware {
    /// Enriches every tool description.
    pub fn on_list_tools(&self, tools: &mut Vec<Tool>)
        ensures
            tools_view(final(tools)@) == tools_view(old(tools)@).map_values(
                |t: ToolView| enriched_tool(t),
            ),
    {
        enrich_tools(tools)
    }

    /// Enriches every prompt description.
    pub fn on_list_prompts(&self, prompts: &mut Vec<Prompt>)
        ensures
            prompts_view(final(prompts)@) == prompts_view(old(prompts)@).map_values(
                |p: PromptView| enriched_prompt(p),
            ),
    {
        enrich_prompts(prompts)
    }

    /// Enriches every resource description.
    pub fn on_list_resources(&self, resources: &mut Vec<Resource>)
        ensures
            resources_view(final(resources)@) == resources_view(old(resources)@).map_values(
                |r: ResourceView| enriched_resource(r),
            ),
    {
        enrich_resources(resources)
    }
}

/// The default client middleware for a server: logging.
pub fn create_default_client_middleware(server_name: &str) -> (r: Vec<ClientMiddlewareInstance>)
    ensures
        r@.len() == 1,
        client_kind(&r@[0]) == ClientKind::ExampleLogging(server_name@),
{
    let mut r: Vec<ClientMiddlewareInstance> = Vec::new();
    r.push(ClientMiddlewareInstance::ExampleLogging(LoggingClientMiddleware::new(owned(server_name))));
    r
}

/// The default proxy middleware: the test tool filter, then the description enricher.
pub fn create_default_proxy_middleware() -> (r: Vec<ProxyMiddlewareInstance>)
    ensures
        r@.len() == 2,
        proxy_kind(&r@[0]) == ProxyKind::TestToolFilter,
        proxy_kind(&r@[1]) == ProxyKind::ExampleDescriptionEnricher,
{
    let mut r: Vec<ProxyMiddlewareInstance> = Vec::new();
    r.push(ProxyMiddlewareInstance::TestToolFilter(TestToolFilterMiddleware));
    r.push(ProxyMiddlewareInstance::ExampleDescriptionEnricher(DescriptionEnricherMiddleware));
    r
}

} // verus!
