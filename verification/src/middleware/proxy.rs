//! Proxy middleware: operates on the lists aggregated from all downstream servers.
use crate::middleware::examples;
use crate::middleware::proxy_middleware::description_enricher::{
    enriched_prompt, enriched_resource, enriched_tool, DescriptionEnricherMiddleware,
};
use crate::middleware::proxy_middleware::tool_filter::{is_test_tool, ToolFilterMiddleware};
use crate::middleware::proxy_middleware::tool_search::{
    indexed_view_of,
    initial_selection, search_tool_view, ToolSearchMiddleware,
};
use crate::model::{
    prompts_view, resources_view, tools_view, Prompt, PromptView, Resource, ResourceView, Tool,
    ToolView,
};
use vstd::prelude::*;

verus! {

/// A built-in proxy middleware.
pub enum ProxyMiddlewareInstance {
    DescriptionEnricher(DescriptionEnricherMiddleware),
    ToolFilter(ToolFilterMiddleware),
    ToolSearch(ToolSearchMiddleware),
    TestToolFilter(examples::TestToolFilterMiddleware),
    ExampleDescriptionEnricher(examples::DescriptionEnricherMiddleware),
}

/// What a proxy middleware is, with the settings that decide what it does.
pub enum ProxyKind {
    DescriptionEnricher,
    ToolFilter,
    /// Enabled, tool limit, search threshold and selection criteria.
    ToolSearch(bool, nat, int, Seq<Seq<char>>),
    TestToolFilter,
    ExampleDescriptionEnricher,
}

/// The kind of a proxy middleware.
pub open spec fn proxy_kind(m: &ProxyMiddlewareInstance) -> ProxyKind {
    match m {
        ProxyMiddlewareInstance::DescriptionEnricher(_) => ProxyKind::DescriptionEnricher,
        ProxyMiddlewareInstance::ToolFilter(_) => ProxyKind::ToolFilter,
        ProxyMiddlewareInstance::ToolSearch(s) => ProxyKind::ToolSearch(
            s.enabled(),
            s.limit(),
            s.threshold(),
            s.criteria(),
        ),
        ProxyMiddlewareInstance::TestToolFilter(_) => ProxyKind::TestToolFilter,
        ProxyMiddlewareInstance::ExampleDescriptionEnricher(_) => ProxyKind::ExampleDescriptionEnricher,
    }
}

/// The kinds of a sequence of proxy middleware.
pub open spec fn proxy_kinds(s: Seq<ProxyMiddlewareInstance>) -> Seq<ProxyKind> {
    s.map_values(|m: ProxyMiddlewareInstance| proxy_kind(&m))
}

/// The tool list after one proxy middleware: enrichers enrich descriptions,
/// filters drop test tools, and tool search limits the list and appends the
/// search tool when it is enabled and the list is longer than its limit.
pub open spec fn tools_after(k: ProxyKind, tools: Seq<ToolView>) -> Seq<ToolView> {
    match k {
        ProxyKind::DescriptionEnricher | ProxyKind::ExampleDescriptionEnricher => tools.map_values(
            |t: ToolView| enriched_tool(t),
        ),
        ProxyKind::ToolFilter | ProxyKind::TestToolFilter => tools.filter(
            |t: ToolView| !is_test_tool(t),
        ),
        ProxyKind::ToolSearch(enabled, limit, _, criteria) => if enabled && tools.len() > limit {
            initial_selection(tools, true, limit, criteria).push(
                search_tool_view((tools.len() - limit) as nat),
            )
        } else {
            tools
        },
    }
}

/// The prompt list after one proxy middleware: only enrichers change it.
pub open spec fn prompts_after(k: ProxyKind, prompts: Seq<PromptView>) -> Seq<PromptView> {
    match k {
        ProxyKind::DescriptionEnricher | ProxyKind::ExampleDescriptionEnricher => prompts.map_values(
            |p: PromptView| enriched_prompt(p),
        ),
        _ => prompts,
    }
}

/// The resource list after one proxy middleware: only enrichers change it.
pub open spec fn resources_after(k: ProxyKind, resources: Seq<ResourceView>) -> Seq<ResourceView> {
    match k {
        ProxyKind::DescriptionEnricher | ProxyKind::ExampleDescriptionEnricher => resources.map_values(
            |r: ResourceView| enriched_resource(r),
        ),
        _ => resources,
    }
}

/// What listing tools does to the state of a proxy middleware, given the
/// list it receives and the list it gives out: an enabled tool search
/// middleware indexes every tool it receives, exposes the list it gives out,
/// and offers the search tool exactly when it receives more tools than its
/// limit; a disabled one keeps its index, exposed tools and flag. Its
/// configuration stays, and every other middleware stays as it is.
pub open spec fn listing_state_done(
    before: ProxyMiddlewareInstance,
    after: ProxyMiddlewareInstance,
    input: Seq<ToolView>,
    output: Seq<ToolView>,
) -> bool {
    match before {
        ProxyMiddlewareInstance::ToolSearch(s) => after matches ProxyMiddlewareInstance::ToolSearch(t)
            && t.settings() == s.settings() && if s.enabled() {
            &&& t.index() == input.map_values(|x: ToolView| indexed_view_of(x))
            &&& t.exposed() == output
            &&& t.injected() == (input.len() > s.limit())
        } else {
            &&& t.index() == s.index()
            &&& t.exposed() == s.exposed()
            &&& t.injected() == s.injected()
        },
        _ => after == before,
    }
}

impl ProxyMiddlewareInstance {
    /// Modifies the final, aggregated list of tools.
    pub fn on_list_tools(&mut self, tools: &mut Vec<Tool>)
        ensures
            proxy_kind(final(self)) == proxy_kind(old(self)),
            tools_view(final(tools)@) == tools_after(proxy_kind(old(self)), tools_view(old(tools)@)),
            listing_state_done(
                *old(self),
                *final(self),
                tools_view(old(tools)@),
                tools_view(final(tools)@),
            ),
    {
        match self {
            ProxyMiddlewareInstance::DescriptionEnricher(m) => m.on_list_tools(tools),
            ProxyMiddlewareInstance::ToolFilter(m) => m.on_list_tools(tools),
            ProxyMiddlewareInstance::ToolSearch(m) => m.on_list_tools(tools),
            ProxyMiddlewareInstance::TestToolFilter(m) => m.on_list_tools(tools),
            ProxyMiddlewareInstance::ExampleDescriptionEnricher(m) => m.on_list_tools(tools),
        }
    }

    /// Modifies the final, aggregated list of prompts.
    pub fn on_list_prompts(&self, prompts: &mut Vec<Prompt>)
        ensures
            prompts_view(final(prompts)@) == prompts_after(proxy_kind(self), prompts_view(old(prompts)@)),
    {
        match self {
            ProxyMiddlewareInstance::DescriptionEnricher(m) => m.on_list_prompts(prompts),
            ProxyMiddlewareInstance::ExampleDescriptionEnricher(m) => m.on_list_prompts(prompts),
            _ => {},
        }
    }

    /// Modifies the final, aggregated list of resources.
    pub fn on_list_resources(&self, resources: &mut Vec<Resource>)
        ensures
            resources_view(final(resources)@) == resources_after(
                proxy_kind(self),
                resources_view(old(resources)@),
            ),
    {
        match self {
            ProxyMiddlewareInstance::DescriptionEnricher(m) => m.on_list_resources(resources),
            ProxyMiddlewareInstance::ExampleDescriptionEnricher(m) => m.on_list_resources(resources),
            _ => {},
        }
    }

    /// The tool search middleware, when this is one.
    pub fn as_tool_search(&self) -> (r: Option<&ToolSearchMiddleware>)
        ensures
            match self {
                ProxyMiddlewareInstance::ToolSearch(s) => r == Some(s),
                _ => r is None,
            },
    {
        match self {
            ProxyMiddlewareInstance::ToolSearch(s) => Some(s),
            _ => None,
        }
    }
}

} // verus!
