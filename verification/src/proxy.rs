//! The decisions of the proxy that aggregates several MCP servers: how the
//! servers' lists are merged under prefixed names, how a tool call finds its
//! server again, when starting up counts as a success, and how a server's
//! lists and processes are handled.
use crate::error::{McpError, McpErrorView, INTERNAL_ERROR, INVALID_PARAMS};
use crate::model::{
    clone_opt, opt_view, prompts_view, resources_view, strings_view, tools_view,
    CallToolRequestParam, Prompt, PromptView, Resource, ResourceView, Tool, ToolView,
};
use crate::naming::{
    clean_server_name, lemma_split_prefixed_name, prefix_name, prefixed_name, split_prefixed,
    split_prefixed_name,
};
use crate::text::{concat2, concat3, owned, text_eq};
use vstd::prelude::*;

verus! {

// ---------------------------------------------------------------------------
// Aggregated lists
// ---------------------------------------------------------------------------

/// A tool of server `server` as the proxy exposes it: under its prefixed name.
pub open spec fn exposed_tool(server: Seq<char>, t: ToolView) -> ToolView {
    ToolView { name: prefixed_name(server, t.name), ..t }
}

/// A prompt of server `server` as the proxy exposes it: under its prefixed name.
pub open spec fn exposed_prompt(server: Seq<char>, p: PromptView) -> PromptView {
    PromptView { name: prefixed_name(server, p.name), ..p }
}

/// A resource of server `server` as the proxy exposes it: under its prefixed URI.
pub open spec fn exposed_resource(server: Seq<char>, r: ResourceView) -> ResourceView {
    ResourceView { uri: prefixed_name(server, r.uri), ..r }
}

/// What one server's listing of tools gave: its tools, or nothing where the listing failed.
pub open spec fn tool_listing_view(l: (String, Option<Vec<Tool>>)) -> (Seq<char>, Option<Seq<ToolView>>) {
    (
        l.0@,
        match l.1 {
            Some(v) => Some(tools_view(v@)),
            None => None,
        },
    )
}

/// What one server's listing of prompts gave.
pub open spec fn prompt_listing_view(l: (String, Option<Vec<Prompt>>)) -> (Seq<char>, Option<Seq<PromptView>>) {
    (
        l.0@,
        match l.1 {
            Some(v) => Some(prompts_view(v@)),
            None => None,
        },
    )
}

/// What one server's listing of resources gave.
pub open spec fn resource_listing_view(l: (String, Option<Vec<Resource>>)) -> (Seq<char>, Option<Seq<ResourceView>>) {
    (
        l.0@,
        match l.1 {
            Some(v) => Some(resources_view(v@)),
            None => None,
        },
    )
}

/// The tools of all servers, server after server, each under its prefixed
/// name; a server whose listing failed contributes nothing.
pub open spec fn aggregated_tools(listings: Seq<(Seq<char>, Option<Seq<ToolView>>)>) -> Seq<ToolView>
    decreases listings.len(),
{
    if listings.len() == 0 {
        Seq::empty()
    } else {
        let (server, items) = listings.last();
        aggregated_tools(listings.drop_last()) + match items {
            Some(ts) => ts.map_values(|t: ToolView| exposed_tool(server, t)),
            None => Seq::empty(),
        }
    }
}

/// The prompts of all servers, each under its prefixed name.
pub open spec fn aggregated_prompts(listings: Seq<(Seq<char>, Option<Seq<PromptView>>)>) -> Seq<PromptView>
    decreases listings.len(),
{
    if listings.len() == 0 {
        Seq::empty()
    } else {
        let (server, items) = listings.last();
        aggregated_prompts(listings.drop_last()) + match items {
            Some(ps) => ps.map_values(|p: PromptView| exposed_prompt(server, p)),
            None => Seq::empty(),
        }
    }
}

/// The resources of all servers, each under its prefixed URI.
pub open spec fn aggregated_resources(listings: Seq<(Seq<char>, Option<Seq<ResourceView>>)>) -> Seq<ResourceView>
    decreases listings.len(),
{
    if listings.len() == 0 {
        Seq::empty()
    } else {
        let (server, items) = listings.last();
        aggregated_resources(listings.drop_last()) + match items {
            Some(rs) => rs.map_values(|r: ResourceView| exposed_resource(server, r)),
            None => Seq::empty(),
        }
    }
}

/// Appends the tools of `server`, under their prefixed names, to `out`.
fn push_exposed_tools(out: &mut Vec<Tool>, server: &str, tools: &Vec<Tool>)
    ensures
        tools_view(final(out)@) == tools_view(old(out)@) + tools_view(tools@).map_values(
            |t: ToolView| exposed_tool(server@, t),
        ),
{
    let ghost start = tools_view(out@);
    let mut i: usize = 0;
    while i < tools.len()
        invariant
            i <= tools.len(),
            tools_view(out@) == start + tools_view(tools@.take(i as int)).map_values(
                |t: ToolView| exposed_tool(server@, t),
            ),
        decreases tools.len() - i,
    {
        let t = &tools[i];
        let exposed = Tool {
            name: prefix_name(server, t.name.as_str()),
            description: clone_opt(&t.description),
            input_schema: t.input_schema.clone(),
            annotations: clone_opt(&t.annotations),
        };
        let ghost before = tools_view(out@);
        out.push(exposed);
        proof {
            assert(tools_view(out@) =~= before.push(exposed@));
            assert(tools_view(tools@.take(i + 1)).map_values(|t: ToolView| exposed_tool(server@, t))
                =~= tools_view(tools@.take(i as int)).map_values(
                |t: ToolView| exposed_tool(server@, t),
            ).push(exposed_tool(server@, tools@[i as int]@)));
        }
        i = i + 1;
    }
    assert(tools@.take(tools.len() as int) =~= tools@);
}

/// Appends the prompts of `server`, under their prefixed names, to `out`.
fn push_exposed_prompts(out: &mut Vec<Prompt>, server: &str, prompts: &Vec<Prompt>)
    ensures
        prompts_view(final(out)@) == prompts_view(old(out)@) + prompts_view(prompts@).map_values(
            |p: PromptView| exposed_prompt(server@, p),
        ),
{
    let ghost start = prompts_view(out@);
    let mut i: usize = 0;
    while i < prompts.len()
        invariant
            i <= prompts.len(),
            prompts_view(out@) == start + prompts_view(prompts@.take(i as int)).map_values(
                |p: PromptView| exposed_prompt(server@, p),
            ),
        decreases prompts.len() - i,
    {
        let p = &prompts[i];
        let exposed = Prompt {
            name: prefix_name(server, p.name.as_str()),
            description: clone_opt(&p.description),
            arguments: clone_opt(&p.arguments),
        };
        let ghost before = prompts_view(out@);
        out.push(exposed);
        proof {
            assert(prompts_view(out@) =~= before.push(exposed@));
            assert(prompts_view(prompts@.take(i + 1)).map_values(
                |p: PromptView| exposed_prompt(server@, p),
            ) =~= prompts_view(prompts@.take(i as int)).map_values(
                |p: PromptView| exposed_prompt(server@, p),
            ).push(exposed_prompt(server@, prompts@[i as int]@)));
        }
        i = i + 1;
    }
    assert(prompts@.take(prompts.len() as int) =~= prompts@);
}

/// Appends the resources of `server`, under their prefixed URIs, to `out`.
fn push_exposed_resources(out: &mut Vec<Resource>, server: &str, resources: &Vec<Resource>)
    ensures
        resources_view(final(out)@) == resources_view(old(out)@) + resources_view(
            resources@,
        ).map_values(|r: ResourceView| exposed_resource(server@, r)),
{
    let ghost start = resources_view(out@);
    let mut i: usize = 0;
    while i < resources.len()
        invariant
            i <= resources.len(),
            resources_view(out@) == start + resources_view(resources@.take(i as int)).map_values(
                |r: ResourceView| exposed_resource(server@, r),
            ),
        decreases resources.len() - i,
    {
        let r = &resources[i];
        let exposed = Resource {
            uri: prefix_name(server, r.uri.as_str()),
            name: r.name.clone(),
            description: clone_opt(&r.description),
            mime_type: clone_opt(&r.mime_type),
            size: r.size,
            annotations: clone_opt(&r.annotations),
        };
        let ghost before = resources_view(out@);
        out.push(exposed);
        proof {
            assert(resources_view(out@) =~= before.push(exposed@));
            assert(resources_view(resources@.take(i + 1)).map_values(
                |r: ResourceView| exposed_resource(server@, r),
            ) =~= resources_view(resources@.take(i as int)).map_values(
                |r: ResourceView| exposed_resource(server@, r),
            ).push(exposed_resource(server@, resources@[i as int]@)));
        }
        i = i + 1;
    }
    assert(resources@.take(resources.len() as int) =~= resources@);
}

/// The tools of all servers under prefixed names, from each server's listing
/// (`None` where listing its tools failed).
pub fn aggregate_tools(listings: &Vec<(String, Option<Vec<Tool>>)>) -> (r: Vec<Tool>)
    ensures
        tools_view(r@) == aggregated_tools(listings@.map_values(|l| tool_listing_view(l))),
{
    let ghost all = listings@.map_values(|l| tool_listing_view(l));
    let mut out: Vec<Tool> = Vec::new();
    let mut i: usize = 0;
    assert(all.take(0) =~= Seq::<(Seq<char>, Option<Seq<ToolView>>)>::empty());
    while i < listings.len()
        invariant
            i <= listings.len(),
            all == listings@.map_values(|l| tool_listing_view(l)),
            tools_view(out@) == aggregated_tools(all.take(i as int)),
        decreases listings.len() - i,
    {
        let (server, items) = &listings[i];
        assert(all.take(i + 1).drop_last() =~= all.take(i as int));
        assert(all.take(i + 1).last() == tool_listing_view(listings@[i as int]));
        match items {
            Some(tools) => push_exposed_tools(&mut out, server.as_str(), tools),
            None => {
                assert(tools_view(out@) + Seq::<ToolView>::empty() =~= tools_view(out@));
            },
        }
        i = i + 1;
    }
    assert(all.take(listings.len() as int) =~= all);
    out
}

/// The prompts of all servers under prefixed names, from each server's listing.
pub fn aggregate_prompts(listings: &Vec<(String, Option<Vec<Prompt>>)>) -> (r: Vec<Prompt>)
    ensures
        prompts_view(r@) == aggregated_prompts(listings@.map_values(|l| prompt_listing_view(l))),
{
    let ghost all = listings@.map_values(|l| prompt_listing_view(l));
    let mut out: Vec<Prompt> = Vec::new();
    let mut i: usize = 0;
    assert(all.take(0) =~= Seq::<(Seq<char>, Option<Seq<PromptView>>)>::empty());
    while i < listings.len()
        invariant
            i <= listings.len(),
            all == listings@.map_values(|l| prompt_listing_view(l)),
            prompts_view(out@) == aggregated_prompts(all.take(i as int)),
        decreases listings.len() - i,
    {
        let (server, items) = &listings[i];
        assert(all.take(i + 1).drop_last() =~= all.take(i as int));
        assert(all.take(i + 1).last() == prompt_listing_view(listings@[i as int]));
        match items {
            Some(prompts) => push_exposed_prompts(&mut out, server.as_str(), prompts),
            None => {
                assert(prompts_view(out@) + Seq::<PromptView>::empty() =~= prompts_view(out@));
            },
        }
        i = i + 1;
    }
    assert(all.take(listings.len() as int) =~= all);
    out
}

/// The resources of all servers under prefixed URIs, from each server's listing.
pub fn aggregate_resources(listings: &Vec<(String, Option<Vec<Resource>>)>) -> (r: Vec<Resource>)
    ensures
        resources_view(r@) == aggregated_resources(
            listings@.map_values(|l| resource_listing_view(l)),
        ),
{
    let ghost all = listings@.map_values(|l| resource_listing_view(l));
    let mut out: Vec<Resource> = Vec::new();
    let mut i: usize = 0;
    assert(all.take(0) =~= Seq::<(Seq<char>, Option<Seq<ResourceView>>)>::empty());
    while i < listings.len()
        invariant
            i <= listings.len(),
            all == listings@.map_values(|l| resource_listing_view(l)),
            resources_view(out@) == aggregated_resources(all.take(i as int)),
        decreases listings.len() - i,
    {
        let (server, items) = &listings[i];
        assert(all.take(i + 1).drop_last() =~= all.take(i as int));
        assert(all.take(i + 1).last() == resource_listing_view(listings@[i as int]));
        match items {
            Some(resources) => push_exposed_resources(&mut out, server.as_str(), resources),
            None => {
                assert(resources_view(out@) + Seq::<ResourceView>::empty() =~= resources_view(
                    out@,
                ));
            },
        }
        i = i + 1;
    }
    assert(all.take(listings.len() as int) =~= all);
    out
}

/// Every tool that a server listed appears in the aggregated list, under its
/// prefixed name.
pub proof fn lemma_aggregated_tools_complete(
    listings: Seq<(Seq<char>, Option<Seq<ToolView>>)>,
    i: int,
    j: int,
)
    requires
        0 <= i < listings.len(),
        listings[i].1 is Some,
        0 <= j < listings[i].1.unwrap().len(),
    ensures
        exists|k: int|
            0 <= k < aggregated_tools(listings).len() && #[trigger] aggregated_tools(listings)[k]
                == exposed_tool(listings[i].0, listings[i].1.unwrap()[j]),
    decreases listings.len(),
{
    let front = listings.drop_last();
    let (server, items) = listings.last();
    if i < listings.len() - 1 {
        assert(front[i] == listings[i]);
        lemma_aggregated_tools_complete(front, i, j);
        let k = choose|k: int|
            0 <= k < aggregated_tools(front).len() && #[trigger] aggregated_tools(front)[k]
                == exposed_tool(front[i].0, front[i].1.unwrap()[j]);
        assert(aggregated_tools(listings)[k] == aggregated_tools(front)[k]);
    } else {
        let k = aggregated_tools(front).len() + j;
        assert(aggregated_tools(listings)[k] == exposed_tool(server, items.unwrap()[j]));
    }
}

/// Every prompt that a server listed appears in the aggregated list, under
/// its name prefixed with the server's, with its description and arguments.
pub proof fn lemma_aggregated_prompts_complete(
    listings: Seq<(Seq<char>, Option<Seq<PromptView>>)>,
    i: int,
    j: int,
)
    requires
        0 <= i < listings.len(),
        listings[i].1 is Some,
        0 <= j < listings[i].1.unwrap().len(),
    ensures
        exists|k: int|
            0 <= k < aggregated_prompts(listings).len() && (#[trigger] aggregated_prompts(listings)[k]
                == (PromptView {
                name: prefixed_name(listings[i].0, listings[i].1.unwrap()[j].name),
                ..listings[i].1.unwrap()[j]
            })),
    decreases listings.len(),
{
    let front = listings.drop_last();
    let (server, items) = listings.last();
    if i < listings.len() - 1 {
        assert(front[i] == listings[i]);
        lemma_aggregated_prompts_complete(front, i, j);
        let k = choose|k: int|
            0 <= k < aggregated_prompts(front).len() && (#[trigger] aggregated_prompts(front)[k]
                == (PromptView {
                name: prefixed_name(front[i].0, front[i].1.unwrap()[j].name),
                ..front[i].1.unwrap()[j]
            }));
        assert(aggregated_prompts(listings)[k] == aggregated_prompts(front)[k]);
    } else {
        let k = aggregated_prompts(front).len() + j;
        assert(aggregated_prompts(listings)[k] == exposed_prompt(server, items.unwrap()[j]));
    }
}

/// Every resource that a server listed appears in the aggregated list, under
/// its URI prefixed with the server's name, with its other fields.
pub proof fn lemma_aggregated_resources_complete(
    listings: Seq<(Seq<char>, Option<Seq<ResourceView>>)>,
    i: int,
    j: int,
)
    requires
        0 <= i < listings.len(),
        listings[i].1 is Some,
        0 <= j < listings[i].1.unwrap().len(),
    ensures
        exists|k: int|
            0 <= k < aggregated_resources(listings).len() && (#[trigger] aggregated_resources(listings)[k]
                == (ResourceView {
                uri: prefixed_name(listings[i].0, listings[i].1.unwrap()[j].uri),
                ..listings[i].1.unwrap()[j]
            })),
    decreases listings.len(),
{
    let front = listings.drop_last();
    let (server, items) = listings.last();
    if i < listings.len() - 1 {
        assert(front[i] == listings[i]);
        lemma_aggregated_resources_complete(front, i, j);
        let k = choose|k: int|
            0 <= k < aggregated_resources(front).len() && (#[trigger] aggregated_resources(front)[k]
                == (ResourceView {
                uri: prefixed_name(front[i].0, front[i].1.unwrap()[j].uri),
                ..front[i].1.unwrap()[j]
            }));
        assert(aggregated_resources(listings)[k] == aggregated_resources(front)[k]);
    } else {
        let k = aggregated_resources(front).len() + j;
        assert(aggregated_resources(listings)[k] == exposed_resource(server, items.unwrap()[j]));
    }
}

// ---------------------------------------------------------------------------
// Tool calls
// ---------------------------------------------------------------------------

/// The answer to a call of the tool named `name`, given the names of the
/// connected servers: the server and the name of the tool there, or the error.
pub open spec fn routed_call(name: Seq<char>, servers: Seq<Seq<char>>) -> Result<
    (Seq<char>, Seq<char>),
    McpErrorView,
> {
    match split_prefixed(name) {
        Some((server, tool)) => if servers.contains(server) {
            Ok((server, tool))
        } else {
            Err(McpErrorView { code: INVALID_PARAMS, message: "Server not found: "@ + server, data: None })
        },
        None => Err(
            McpErrorView {
                code: INVALID_PARAMS,
                message: "Invalid tool name format: "@ + name,
                data: None,
            },
        ),
    }
}

/// Whether `name` is one of `names`.
pub fn contains_name(names: &Vec<String>, name: &str) -> (r: bool)
    ensures
        r == strings_view(names@).contains(name@),
{
    let mut i: usize = 0;
    while i < names.len()
        invariant
            i <= names.len(),
            forall|k: int| 0 <= k < i ==> names@[k]@ != name@,
        decreases names.len() - i,
    {
        if text_eq(names[i].as_str(), name) {
            assert(strings_view(names@)[i as int] == name@);
            return true;
        }
        i = i + 1;
    }
    assert forall|k: int| 0 <= k < strings_view(names@).len() implies strings_view(names@)[k]
        != name@ by {
        assert(strings_view(names@)[k] == names@[k]@);
    }
    false
}

/// Finds the server of a tool call: the request's tool name is the prefixed
/// name under which the proxy exposes the tool. Gives the server's name and
/// the request to send it, with the tool's own name and the same arguments.
pub fn route_tool_call(request: &CallToolRequestParam, servers: &Vec<String>) -> (r: Result<
    (String, CallToolRequestParam),
    McpError,
>)
    ensures
        match routed_call(request.name@, strings_view(servers@)) {
            Ok((s, t)) => r matches Ok((server, call)) && server@ == s && call.name@ == t
                && opt_view(call.arguments) == opt_view(request.arguments),
            Err(e) => r matches Err(err) && err@ == e,
        },
{
    match split_prefixed_name(request.name.as_str()) {
        Some((server, tool)) => {
            if contains_name(servers, server.as_str()) {
                Ok((server, CallToolRequestParam { name: tool, arguments: clone_opt(&request.arguments) }))
            } else {
                let message = concat2("Server not found: ", server.as_str());
                proof {
                    reveal_strlit("Server not found: ");
                }
                Err(McpError::invalid_params(message, None))
            }
        },
        None => {
            let message = concat2("Invalid tool name format: ", request.name.as_str());
            Err(McpError::invalid_params(message, None))
        },
    }
}

/// The error answered when the server of a tool call fails it.
pub open spec fn tool_call_failure_view(server: Seq<char>, detail: Seq<char>) -> McpErrorView {
    McpErrorView {
        code: INTERNAL_ERROR,
        message: "Failed to call tool on server "@ + server + ": "@ + detail,
        data: None,
    }
}

/// The error answered when server `server` fails a tool call with the error
/// whose text is `detail`.
pub fn tool_call_failure(server: &str, detail: &str) -> (r: McpError)
    ensures
        r@ == tool_call_failure_view(server@, detail@),
{
    let head = concat3("Failed to call tool on server ", server, ": ");
    let message = concat2(head.as_str(), detail);
    McpError::internal_error(message, None)
}

/// A tool that the proxy exposes under the prefixed name of a clean server
/// name is called on that server under its own name, for every tool name.
pub proof fn lemma_route_exposed_name(server: Seq<char>, tool: Seq<char>, servers: Seq<Seq<char>>)
    requires
        clean_server_name(server),
        servers.contains(server),
    ensures
        routed_call(prefixed_name(server, tool), servers) == Ok::<
            (Seq<char>, Seq<char>),
            McpErrorView,
        >((server, tool)),
{
    lemma_split_prefixed_name(server, tool);
}

/// Every tool in the aggregated list of tools came from a listing of a
/// server, under its prefixed name, and a call of it is routed to that server
/// under the tool's own name, where every listed server name is clean and
/// connected.
pub proof fn lemma_aggregated_tool_routes(
    listings: Seq<(Seq<char>, Option<Seq<ToolView>>)>,
    servers: Seq<Seq<char>>,
    k: int,
)
    requires
        forall|i: int|
            0 <= i < listings.len() ==> clean_server_name(#[trigger] listings[i].0)
                && servers.contains(listings[i].0),
        0 <= k < aggregated_tools(listings).len(),
    ensures
        exists|i: int, j: int|
            0 <= i < listings.len() && #[trigger] listings[i].1 is Some && 0 <= j
                < listings[i].1.unwrap().len() && aggregated_tools(listings)[k] == exposed_tool(
                listings[i].0,
                #[trigger] listings[i].1.unwrap()[j],
            ) && routed_call(aggregated_tools(listings)[k].name, servers) == Ok::<
                (Seq<char>, Seq<char>),
                McpErrorView,
            >((listings[i].0, listings[i].1.unwrap()[j].name)),
    decreases listings.len(),
{
    let front = listings.drop_last();
    let n = listings.len() - 1;
    let (server, items) = listings.last();
    if k < aggregated_tools(front).len() {
        assert forall|i: int| 0 <= i < front.len() implies clean_server_name(#[trigger] front[i].0)
            && servers.contains(front[i].0) by {
            assert(front[i] == listings[i]);
        }
        lemma_aggregated_tool_routes(front, servers, k);
        let (i, j) = choose|i: int, j: int|
            0 <= i < front.len() && #[trigger] front[i].1 is Some && 0 <= j
                < front[i].1.unwrap().len() && aggregated_tools(front)[k] == exposed_tool(
                front[i].0,
                #[trigger] front[i].1.unwrap()[j],
            ) && routed_call(aggregated_tools(front)[k].name, servers) == Ok::<
                (Seq<char>, Seq<char>),
                McpErrorView,
            >((front[i].0, front[i].1.unwrap()[j].name));
        assert(front[i] == listings[i]);
        assert(aggregated_tools(listings)[k] == aggregated_tools(front)[k]);
    } else {
        let j = k - aggregated_tools(front).len();
        assert(listings[n] == (server, items));
        let ts = items.unwrap();
        let t = ts[j];
        assert(aggregated_tools(listings)[k] == exposed_tool(server, t));
        assert(clean_server_name(listings[n].0));
        lemma_route_exposed_name(server, t.name, servers);
    }
}

// ---------------------------------------------------------------------------
// Connecting to the servers
// ---------------------------------------------------------------------------

/// Whether starting up succeeds, given how many servers are configured and
/// how many of them could be connected: it does when one could, or when
/// none is configured.
pub open spec fn startup_outcome(configured: nat, connected: nat) -> Result<(), Seq<char>> {
    if connected > 0 || configured == 0 {
        Ok(())
    } else {
        Err("Failed to connect to any MCP servers"@)
    }
}

/// The outcome of connecting to all configured servers, from the number of
/// servers configured and the number connected.
pub fn connection_outcome(configured: usize, connected: usize) -> (r: Result<(), String>)
    ensures
        match startup_outcome(configured as nat, connected as nat) {
            Ok(()) => r is Ok,
            Err(e) => r matches Err(m) && m@ == e,
        },
{
    if connected > 0 || configured == 0 {
        Ok(())
    } else {
        Err(owned("Failed to connect to any MCP servers"))
    }
}

/// The step of connecting to a server that failed.
pub enum ConnectStage {
    /// Starting the server's process.
    Spawn,
    /// Starting the client session over the process's standard streams.
    Serve,
    /// Starting the client session over HTTP.
    ServeHttp,
}

/// The message of a connection failure at `stage`, whose cause reads `detail`.
pub open spec fn connect_failure_text(stage: ConnectStage, detail: Seq<char>) -> Seq<char> {
    match stage {
        ConnectStage::Spawn => "Failed to spawn child process: "@ + detail,
        ConnectStage::Serve => "Failed to serve client: "@ + detail,
        ConnectStage::ServeHttp => "Failed to serve HTTP client: "@ + detail,
    }
}

/// The message of a connection failure at `stage`, whose cause reads `detail`.
pub fn connect_failure(stage: ConnectStage, detail: &str) -> (r: String)
    ensures
        r@ == connect_failure_text(stage, detail@),
{
    match stage {
        ConnectStage::Spawn => concat2("Failed to spawn child process: ", detail),
        ConnectStage::Serve => concat2("Failed to serve client: ", detail),
        ConnectStage::ServeHttp => concat2("Failed to serve HTTP client: ", detail),
    }
}

/// A connected server: its name and the tools, prompts and resources that it
/// listed after connecting.
pub struct ConnectedServer {
    /// The server's name.
    pub name: String,
    /// Its tools.
    pub tools: Vec<Tool>,
    /// Its prompts.
    pub prompts: Vec<Prompt>,
    /// Its resources.
    pub resources: Vec<Resource>,
}

impl ConnectedServer {
    /// A server just connected: nothing listed yet.
    pub fn new(name: String) -> (r: Self)
        ensures
            r.name@ == name@,
            r.tools@.len() == 0,
            r.prompts@.len() == 0,
            r.resources@.len() == 0,
    {
        ConnectedServer { name, tools: Vec::new(), prompts: Vec::new(), resources: Vec::new() }
    }

    /// Records what listing the server's capabilities gave: each list that
    /// could be fetched replaces the one held; where fetching failed (`None`),
    /// the list held stays.
    pub fn populate_capabilities(
        &mut self,
        tools: Option<Vec<Tool>>,
        prompts: Option<Vec<Prompt>>,
        resources: Option<Vec<Resource>>,
    )
        ensures
            final(self).name == old(self).name,
            final(self).tools == match tools {
                Some(t) => t,
                None => old(self).tools,
            },
            final(self).prompts == match prompts {
                Some(p) => p,
                None => old(self).prompts,
            },
            final(self).resources == match resources {
                Some(r) => r,
                None => old(self).resources,
            },
    {
        if let Some(t) = tools {
            self.tools = t;
        }
        if let Some(p) = prompts {
            self.prompts = p;
        }
        if let Some(r) = resources {
            self.resources = r;
        }
    }
}

// ---------------------------------------------------------------------------
// Shutting down
// ---------------------------------------------------------------------------

/// Seconds that a server process is given to exit after the termination signal.
pub const CHILD_EXIT_GRACE_SECS: u64 = 5;

/// How waiting for a server process to exit ended.
pub enum ChildWait {
    /// The process exited.
    Exited,
    /// Waiting for it failed.
    WaitFailed,
    /// It did not exit within the grace period.
    TimedOut,
}

/// What to do with a server process after waiting for it.
pub enum ShutdownStep {
    /// Nothing more.
    Done,
    /// Kill it.
    Kill,
}

/// What to do with a server process after waiting for it to exit: only a
/// process that did not exit in time is killed.
pub fn after_child_wait(wait: ChildWait) -> (r: ShutdownStep)
    ensures
        r is Kill <==> wait is TimedOut,
{
    match wait {
        ChildWait::TimedOut => ShutdownStep::Kill,
        _ => ShutdownStep::Done,
    }
}

// ---------------------------------------------------------------------------
// Identity
// ---------------------------------------------------------------------------

/// What the proxy tells a client about itself.
pub struct ProxyInfo {
    /// The implementation's name.
    pub name: String,
    /// The implementation's version.
    pub version: String,
    /// Instructions for the client.
    pub instructions: String,
    /// Whether tools are offered.
    pub tools: bool,
    /// Whether prompts are offered.
    pub prompts: bool,
    /// Whether resources are offered.
    pub resources: bool,
}

/// What the proxy of version `version` tells a client about itself: it is
/// `mcproxy`, it aggregates several MCP servers, and it offers tools,
/// prompts and resources.
pub fn proxy_info(version: String) -> (r: ProxyInfo)
    ensures
        r.name@ == "mcproxy"@,
        r.version@ == version@,
        r.instructions@ == "MCP Proxy Server - aggregates multiple MCP servers"@,
        r.tools && r.prompts && r.resources,
{
    ProxyInfo {
        name: owned("mcproxy"),
        version,
        instructions: owned("MCP Proxy Server - aggregates multiple MCP servers"),
        tools: true,
        prompts: true,
        resources: true,
    }
}

} // verus!
