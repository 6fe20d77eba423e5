//! Description enrichment middleware that adds metadata to tool descriptions.
use crate::model::{
    clone_opt, opt_view, prompts_view, resources_view, tools_view, Prompt, PromptView, Resource,
    ResourceView, Tool, ToolView,
};
use crate::config::MiddlewareSettings;
use crate::error::ProxyError;
use crate::middleware::proxy::{
    prompts_after, proxy_kind, resources_after, tools_after, ProxyKind, ProxyMiddlewareInstance,
};
use crate::text::{concat2, owned};
use vstd::prelude::*;
use vstd::string::*;

verus! {

/// A description after enrichment: ` (via mcproxy)` is appended, and a
/// missing description becomes `(via mcproxy)`.
pub open spec fn enriched(d: Option<Seq<char>>) -> Option<Seq<char>> {
    match d {
        Some(x) => Some(x + " (via mcproxy)"@),
        None => Some("(via mcproxy)"@),
    }
}

/// A tool with its description enriched.
pub open spec fn enriched_tool(t: ToolView) -> ToolView {
    ToolView {
        name: t.name,
        description: enriched(t.description),
        input_schema: t.input_schema,
        annotations: t.annotations,
    }
}

/// A prompt with its description enriched.
pub open spec fn enriched_prompt(p: PromptView) -> PromptView {
    PromptView { name: p.name, description: enriched(p.description), arguments: p.arguments }
}

/// A resource with its description enriched.
pub open spec fn enriched_resource(r: ResourceView) -> ResourceView {
    ResourceView {
        uri: r.uri,
        name: r.name,
        description: enriched(r.description),
        mime_type: r.mime_type,
        size: r.size,
        annotations: r.annotations,
    }
}

/// An enriched description.
fn enrich(d: &Option<String>) -> (r: Option<String>)
    ensures
        opt_view(r) == enriched(opt_view(*d)),
{
    match d {
        Some(x) => Some(concat2(x.as_str(), " (via mcproxy)")),
        None => Some(owned("(via mcproxy)")),
    }
}

/// Enriches the description of every tool.
pub fn enrich_tools(tools: &mut Vec<Tool>)
    ensures
        tools_view(final(tools)@) == tools_view(old(tools)@).map_values(
            |t: ToolView| enriched_tool(t),
        ),
{
    let mut out: Vec<Tool> = Vec::new();
    let n = tools.len();
    for i in 0..n
        invariant
            n == tools@.len(),
            tools@ == old(tools)@,
            tools_view(out@) == tools_view(tools@.take(i as int)).map_values(
                |t: ToolView| enriched_tool(t),
            ),
    {
        let t = &tools[i];
        let e = Tool {
            name: t.name.clone(),
            description: enrich(&t.description),
            input_schema: t.input_schema.clone(),
            annotations: clone_opt(&t.annotations),
        };
        out.push(e);
        proof {
            assert(tools_view(out@) =~= tools_view(out@.drop_last()).push(e@));
            assert(tools_view(tools@.take(i + 1)).map_values(|t: ToolView| enriched_tool(t))
                =~= tools_view(tools@.take(i as int)).map_values(
                |t: ToolView| enriched_tool(t),
            ).push(enriched_tool(tools@[i as int]@)));
        }
    }
    proof {
        assert(tools@.take(n as int) == tools@);
    }
    *tools = out;
}

/// Enriches the description of every prompt.
pub fn enrich_prompts(prompts: &mut Vec<Prompt>)
    ensures
        prompts_view(final(prompts)@) == prompts_view(old(prompts)@).map_values(
            |p: PromptView| enriched_prompt(p),
        ),
{
    let mut out: Vec<Prompt> = Vec::new();
    let n = prompts.len();
    for i in 0..n
        invariant
            n == prompts@.len(),
            prompts@ == old(prompts)@,
            prompts_view(out@) == prompts_view(prompts@.take(i as int)).map_values(
                |p: PromptView| enriched_prompt(p),
            ),
    {
        let p = &prompts[i];
        let e = Prompt {
            name: p.name.clone(),
            description: enrich(&p.description),
            arguments: clone_opt(&p.arguments),
        };
        out.push(e);
        proof {
            assert(prompts_view(out@) =~= prompts_view(out@.drop_last()).push(e@));
            assert(prompts_view(prompts@.take(i + 1)).map_values(|p: PromptView| enriched_prompt(p))
                =~= prompts_view(prompts@.take(i as int)).map_values(
                |p: PromptView| enriched_prompt(p),
            ).push(enriched_prompt(prompts@[i as int]@)));
        }
    }
    proof {
        assert(prompts@.take(n as int) == prompts@);
    }
    *prompts = out;
}

/// Enriches the description of every resource.
pub fn enrich_resources(resources: &mut Vec<Resource>)
    ensures
        resources_view(final(resources)@) == resources_view(old(resources)@).map_values(
            |r: ResourceView| enriched_resource(r),
        ),
{
    let mut out: Vec<Resource> = Vec::new();
    let n = resources.len();
    for i in 0..n
        invariant
            n == resources@.len(),
            resources@ == old(resources)@,
            resources_view(out@) == resources_view(resources@.take(i as int)).map_values(
                |r: ResourceView| enriched_resource(r),
            ),
    {
        let r = &resources[i];
        let e = Resource {
            uri: r.uri.clone(),
            name: r.name.clone(),
            description: enrich(&r.description),
            mime_type: clone_opt(&r.mime_type),
            size: r.size,
            annotations: clone_opt(&r.annotations),
        };
        out.push(e);
        proof {
            assert(resources_view(out@) =~= resources_view(out@.drop_last()).push(e@));
            assert(resources_view(resources@.take(i + 1)).map_values(
                |r: ResourceView| enriched_resource(r),
            ) =~= resources_view(resources@.take(i as int)).map_values(
                |r: ResourceView| enriched_resource(r),
            ).push(enriched_resource(resources@[i as int]@)));
        }
    }
    proof {
        assert(resources@.take(n as int) == resources@);
    }
    *resources = out;
}

/// `s` ends with `suffix`.
pub open spec fn ends_with(s: Seq<char>, suffix: Seq<char>) -> bool {
    s.len() >= suffix.len() && s.subrange(s.len() - suffix.len(), s.len() as int) == suffix
}

/// A description after listing is marked: it is present, ends with
/// `(via mcproxy)`, and begins with the description it replaced, if any.
pub open spec fn marked(before: Option<Seq<char>>, after: Option<Seq<char>>) -> bool {
    &&& after matches Some(d)
    &&& ends_with(d, "(via mcproxy)"@)
    &&& (before matches Some(x) ==> d.len() > x.len() && d.take(x.len() as int) == x)
}

proof fn lemma_enriched_marked(d: Option<Seq<char>>)
    ensures
        marked(d, enriched(d)),
{
    reveal_strlit(" (via mcproxy)");
    reveal_strlit("(via mcproxy)");
    match d {
        Some(x) => {
            let e = x + " (via mcproxy)"@;
            assert(e.subrange(e.len() - 13, e.len() as int) =~= "(via mcproxy)"@);
            assert(e.take(x.len() as int) =~= x);
        },
        None => {
            assert("(via mcproxy)"@.subrange(0, 13) =~= "(via mcproxy)"@);
        },
    }
}

/// Every tool, prompt and resource listed through the description enricher
/// keeps its place, its name and its other fields, and its description is
/// marked: it ends with `(via mcproxy)`, after the description it had, for
/// items with and without a description. This holds of what the
/// enricher's listing hooks return and of its effect in the middleware chain.
pub proof fn lemma_enriched_lists_marked(
    tools: Seq<ToolView>,
    prompts: Seq<PromptView>,
    resources: Seq<ResourceView>,
)
    ensures
        tools.map_values(|t: ToolView| enriched_tool(t)).len() == tools.len(),
        forall|i: int|
            #![trigger tools[i]]
            0 <= i < tools.len() ==> {
                let t = tools.map_values(|t: ToolView| enriched_tool(t))[i];
                &&& t.name == tools[i].name
                &&& t.input_schema == tools[i].input_schema
                &&& t.annotations == tools[i].annotations
                &&& marked(tools[i].description, t.description)
            },
        prompts.map_values(|p: PromptView| enriched_prompt(p)).len() == prompts.len(),
        forall|i: int|
            #![trigger prompts[i]]
            0 <= i < prompts.len() ==> {
                let p = prompts.map_values(|p: PromptView| enriched_prompt(p))[i];
                &&& p.name == prompts[i].name
                &&& p.arguments == prompts[i].arguments
                &&& marked(prompts[i].description, p.description)
            },
        resources.map_values(|r: ResourceView| enriched_resource(r)).len() == resources.len(),
        forall|i: int|
            #![trigger resources[i]]
            0 <= i < resources.len() ==> {
                let r = resources.map_values(|r: ResourceView| enriched_resource(r))[i];
                &&& r.uri == resources[i].uri
                &&& r.name == resources[i].name
                &&& r.mime_type == resources[i].mime_type
                &&& r.size == resources[i].size
                &&& r.annotations == resources[i].annotations
                &&& marked(resources[i].description, r.description)
            },
        tools_after(ProxyKind::DescriptionEnricher, tools) == tools.map_values(
            |t: ToolView| enriched_tool(t),
        ),
        prompts_after(ProxyKind::DescriptionEnricher, prompts) == prompts.map_values(
            |p: PromptView| enriched_prompt(p),
        ),
        resources_after(ProxyKind::DescriptionEnricher, resources) == resources.map_values(
            |r: ResourceView| enriched_resource(r),
        ),
{
    assert forall|i: int| #![trigger tools[i]] 0 <= i < tools.len() implies marked(
        tools[i].description,
        tools.map_values(|t: ToolView| enriched_tool(t))[i].description,
    ) by {
        lemma_enriched_marked(tools[i].description);
    }
    assert forall|i: int| #![trigger prompts[i]] 0 <= i < prompts.len() implies marked(
        prompts[i].description,
        prompts.map_values(|p: PromptView| enriched_prompt(p))[i].description,
    ) by {
        lemma_enriched_marked(prompts[i].description);
    }
    assert forall|i: int| #![trigger resources[i]] 0 <= i < resources.len() implies marked(
        resources[i].description,
        resources.map_values(|r: ResourceView| enriched_resource(r))[i].description,
    ) by {
        lemma_enriched_marked(resources[i].description);
    }
}

/// Middleware that adds "(via mcproxy)" to tool, prompt and resource descriptions.
pub struct DescriptionEnricherMiddleware;

impl DescriptionEnricherMiddleware {
    /// Enriches every tool description.
    pub fn on_list_tools(&self, tools: &mut Vec<Tool>)
        ensures
            tools_view(final(tools)@) == tools_view(old(tools)@).map_values(
                |t: ToolView| enriched_tool(t),
            ),
    {
        enrich_tools(tools)
    }

    /// Enriches every prompt description.
    pub fn on_list_prompts(&self, prompts: &mut Vec<Prompt>)
        ensures
            prompts_view(final(prompts)@) == prompts_view(old(prompts)@).map_values(
                |p: PromptView| enriched_prompt(p),
            ),
    {
        enrich_prompts(prompts)
    }

    /// Enriches every resource description.
    pub fn on_list_resources(&self, resources: &mut Vec<Resource>)
        ensures
            resources_view(final(resources)@) == resources_view(old(resources)@).map_values(
                |r: ResourceView| enriched_resource(r),
            ),
    {
        enrich_resources(resources)
    }
}

/// Factory for creating DescriptionEnricherMiddleware from configuration.
pub struct DescriptionEnricherFactory;

impl DescriptionEnricherFactory {
    /// Creates the middleware; the configuration is not read.
    pub fn create(&self, config: &MiddlewareSettings) -> (r: Result<ProxyMiddlewareInstance, ProxyError>)
        ensures
            r matches Ok(m) && proxy_kind(&m) == ProxyKind::DescriptionEnricher,
    {
        Ok(ProxyMiddlewareInstance::DescriptionEnricher(DescriptionEnricherMiddleware))
    }

    /// The type name this factory handles.
    pub fn middleware_type(&self) -> (r: &'static str)
        ensures
            r@ == "description_enricher"@,
    {
        "description_enricher"
    }
}

} // verus!
