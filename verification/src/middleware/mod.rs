//! Middleware that intercepts and modifies requests and responses.
pub mod client;
pub mod client_middleware;
pub mod examples;
pub mod proxy;
pub mod proxy_middleware;
pub mod registry;

use crate::config::{names_distinct, specs_view, McpConfig, MiddlewareSpec, MiddlewareSpecView};
use crate::error::{is_config_error, McpError, ProxyError};
use crate::middleware::client::{client_kinds, ClientKind, ClientMiddlewareInstance};
use crate::middleware::proxy::{
    listing_state_done,    prompts_after, proxy_kinds, resources_after, tools_after, ProxyKind, ProxyMiddlewareInstance,
};
use crate::middleware::registry::{
    builtin_client_factories, builtin_proxy_factories, client_create_outcome, lookup_client,
    lookup_proxy, proxy_create_outcome, ClientFactory, MiddlewareRegistry, ProxyFactory,
};
use crate::middleware::proxy_middleware::tool_search::{search_call_done, search_tool_name};
use crate::model::{
    opt_view, prompts_view, resources_view, tools_view, CallToolRequestParam, Prompt, PromptView,
    Resource, ResourceView, Tool, ToolView,
};
use crate::text::{concat2, text_eq};
use vstd::prelude::*;

verus! {

/// The proxy middleware entries of a configuration; none without an HTTP server section.
pub open spec fn proxy_specs(config: &McpConfig) -> Seq<MiddlewareSpecView> {
    match config.http_server {
        Some(h) => specs_view(h.middleware.proxy@),
        None => Seq::empty(),
    }
}

/// The entries of the first server-specific list for `server`, if there is one.
pub open spec fn find_server_specs(
    entries: Seq<(String, Vec<MiddlewareSpec>)>,
    server: Seq<char>,
) -> Option<Seq<MiddlewareSpecView>>
    decreases entries.len(),
{
    if entries.len() == 0 {
        None
    } else {
        let before = find_server_specs(entries.drop_last(), server);
        if before is Some {
            before
        } else if entries.last().0@ == server {
            Some(specs_view(entries.last().1@))
        } else {
            None
        }
    }
}

/// Where no server name occurs twice, the list found for a server is the one
/// held under its name, wherever that entry stands.
pub proof fn lemma_find_server_specs_keyed(
    entries: Seq<(String, Vec<MiddlewareSpec>)>,
    server: Seq<char>,
    i: int,
)
    requires
        names_distinct(entries),
        0 <= i < entries.len(),
        entries[i].0@ == server,
    ensures
        find_server_specs(entries, server) == Some(specs_view(entries[i].1@)),
    decreases entries.len(),
{
    let front = entries.drop_last();
    if i < entries.len() - 1 {
        assert(front[i] == entries[i]);
        assert forall|a: int, b: int| 0 <= a < b < front.len() implies (#[trigger] front[a]).0@
            != (#[trigger] front[b]).0@ by {
            assert(front[a] == entries[a] && front[b] == entries[b]);
        }
        lemma_find_server_specs_keyed(front, server, i);
    } else {
        if find_server_specs(front, server) is Some {
            let k = choose|k: int| 0 <= k < front.len() && #[trigger] front[k].0@ == server;
            lemma_find_server_specs_found(front, server);
            assert(front[k] == entries[k]);
        }
    }
}

/// A list found for a server is held under its name.
proof fn lemma_find_server_specs_found(entries: Seq<(String, Vec<MiddlewareSpec>)>, server: Seq<char>)
    ensures
        find_server_specs(entries, server) is Some ==> exists|k: int|
            0 <= k < entries.len() && #[trigger] entries[k].0@ == server,
    decreases entries.len(),
{
    if entries.len() > 0 {
        let front = entries.drop_last();
        lemma_find_server_specs_found(front, server);
        if find_server_specs(front, server) is Some {
            let k = choose|k: int| 0 <= k < front.len() && #[trigger] front[k].0@ == server;
            assert(entries[k] == front[k]);
        } else {
            assert(entries[entries.len() - 1] == entries.last());
        }
    }
}

/// The client middleware entries for a server: its own list when it has
/// one (which replaces the default list entirely), otherwise the default list.
pub open spec fn client_specs_for(config: &McpConfig, server: Seq<char>) -> Seq<MiddlewareSpecView> {
    match config.http_server {
        Some(h) => match find_server_specs(h.middleware.client.servers@, server) {
            Some(v) => v,
            None => specs_view(h.middleware.client.default@),
        },
        None => Seq::empty(),
    }
}

/// The proxy middleware built from the entries, in order, skipping disabled
/// ones; the first unknown type or failing creation gives the error.
pub open spec fn build_proxy(specs: Seq<MiddlewareSpecView>, factories: Seq<ProxyFactory>) -> Result<
    Seq<ProxyKind>,
    Seq<char>,
>
    decreases specs.len(),
{
    if specs.len() == 0 {
        Ok(Seq::empty())
    } else {
        match build_proxy(specs.drop_last(), factories) {
            Err(m) => Err(m),
            Ok(kinds) => {
                let s = specs.last();
                if !s.enabled {
                    Ok(kinds)
                } else {
                    match lookup_proxy(factories, s.middleware_type) {
                        None => Err("Unknown proxy middleware type: "@ + s.middleware_type),
                        Some(f) => match proxy_create_outcome(f, s.config) {
                            Ok(k) => Ok(kinds.push(k)),
                            Err(m) => Err(m),
                        },
                    }
                }
            },
        }
    }
}

/// The client middleware built for a server from the entries, in order,
/// skipping disabled ones; the first unknown type or failing creation gives
/// the error.
pub open spec fn build_client(
    specs: Seq<MiddlewareSpecView>,
    factories: Seq<ClientFactory>,
    server: Seq<char>,
) -> Result<Seq<ClientKind>, Seq<char>>
    decreases specs.len(),
{
    if specs.len() == 0 {
        Ok(Seq::empty())
    } else {
        match build_client(specs.drop_last(), factories, server) {
            Err(m) => Err(m),
            Ok(kinds) => {
                let s = specs.last();
                if !s.enabled {
                    Ok(kinds)
                } else {
                    match lookup_client(factories, s.middleware_type) {
                        None => Err("Unknown client middleware type: "@ + s.middleware_type),
                        Some(f) => match client_create_outcome(f, server, s.config) {
                            Ok(k) => Ok(kinds.push(k)),
                            Err(m) => Err(m),
                        },
                    }
                }
            },
        }
    }
}

/// The tool list after a pipeline of proxy middleware, applied in order.
pub open spec fn pipeline_tools(kinds: Seq<ProxyKind>, tools: Seq<ToolView>) -> Seq<ToolView>
    decreases kinds.len(),
{
    if kinds.len() == 0 {
        tools
    } else {
        tools_after(kinds.last(), pipeline_tools(kinds.drop_last(), tools))
    }
}

/// The prompt list after a pipeline of proxy middleware, applied in order.
pub open spec fn pipeline_prompts(kinds: Seq<ProxyKind>, prompts: Seq<PromptView>) -> Seq<PromptView>
    decreases kinds.len(),
{
    if kinds.len() == 0 {
        prompts
    } else {
        prompts_after(kinds.last(), pipeline_prompts(kinds.drop_last(), prompts))
    }
}

/// The resource list after a pipeline of proxy middleware, applied in order.
pub open spec fn pipeline_resources(kinds: Seq<ProxyKind>, resources: Seq<ResourceView>) -> Seq<
    ResourceView,
>
    decreases kinds.len(),
{
    if kinds.len() == 0 {
        resources
    } else {
        resources_after(kinds.last(), pipeline_resources(kinds.drop_last(), resources))
    }
}

/// Disabled entries are skipped: building proxy middleware from the entries
/// gives what building from the enabled entries alone gives.
pub proof fn lemma_build_proxy_skips_disabled(specs: Seq<MiddlewareSpecView>, factories: Seq<ProxyFactory>)
    ensures
        build_proxy(specs, factories) == build_proxy(
            specs.filter(|s: MiddlewareSpecView| s.enabled),
            factories,
        ),
    decreases specs.len(),
{
    reveal(Seq::filter);
    if specs.len() > 0 {
        lemma_build_proxy_skips_disabled(specs.drop_last(), factories);
        let kept = specs.drop_last().filter(|s: MiddlewareSpecView| s.enabled);
        if specs.last().enabled {
            assert(kept.push(specs.last()).drop_last() == kept);
        }
    }
}

/// Disabled entries are skipped: building client middleware for a server
/// from the entries gives what building from the enabled entries alone gives.
pub proof fn lemma_build_client_skips_disabled(
    specs: Seq<MiddlewareSpecView>,
    factories: Seq<ClientFactory>,
    server: Seq<char>,
)
    ensures
        build_client(specs, factories, server) == build_client(
            specs.filter(|s: MiddlewareSpecView| s.enabled),
            factories,
            server,
        ),
    decreases specs.len(),
{
    reveal(Seq::filter);
    if specs.len() > 0 {
        lemma_build_client_skips_disabled(specs.drop_last(), factories, server);
        let kept = specs.drop_last().filter(|s: MiddlewareSpecView| s.enabled);
        if specs.last().enabled {
            assert(kept.push(specs.last()).drop_last() == kept);
        }
    }
}

/// Once building from a prefix of the entries fails, building from all of them fails the same way.
proof fn lemma_build_proxy_error(specs: Seq<MiddlewareSpecView>, factories: Seq<ProxyFactory>, k: int)
    requires
        0 <= k <= specs.len(),
        build_proxy(specs.take(k), factories) is Err,
    ensures
        build_proxy(specs, factories) == build_proxy(specs.take(k), factories),
    decreases specs.len() - k,
{
    if k < specs.len() {
        assert(specs.take(k + 1).drop_last() == specs.take(k));
        lemma_build_proxy_error(specs, factories, k + 1);
    } else {
        assert(specs.take(k) == specs);
    }
}

/// Once building from a prefix of the entries fails, building from all of them fails the same way.
proof fn lemma_build_client_error(
    specs: Seq<MiddlewareSpecView>,
    factories: Seq<ClientFactory>,
    server: Seq<char>,
    k: int,
)
    requires
        0 <= k <= specs.len(),
        build_client(specs.take(k), factories, server) is Err,
    ensures
        build_client(specs, factories, server) == build_client(specs.take(k), factories, server),
    decreases specs.len() - k,
{
    if k < specs.len() {
        assert(specs.take(k + 1).drop_last() == specs.take(k));
        lemma_build_client_error(specs, factories, server, k + 1);
    } else {
        assert(specs.take(k) == specs);
    }
}

/// Whether `i` is the position of the first tool search middleware.
pub open spec fn first_tool_search(proxy: Seq<ProxyMiddlewareInstance>, i: int) -> bool {
    &&& 0 <= i < proxy.len()
    &&& proxy[i] is ToolSearch
    &&& forall|j: int| 0 <= j < i ==> !(#[trigger] proxy[j] is ToolSearch)
}

/// Manages and applies all registered middleware.
///
/// The `MiddlewareManager` loads middleware based on the application's
/// configuration and provides access to them.
pub struct MiddlewareManager {
    /// The proxy middleware, in the order they are applied.
    pub proxy: Vec<ProxyMiddlewareInstance>,
    /// The factories that middleware are created by.
    pub registry: MiddlewareRegistry,
}

impl MiddlewareManager {
    /// The registered proxy factories.
    pub closed spec fn proxy_factories(&self) -> Seq<ProxyFactory> {
        self.registry.proxy_registrations()
    }

    /// The registered client factories.
    pub closed spec fn client_factories(&self) -> Seq<ClientFactory> {
        self.registry.client_registrations()
    }

    /// Creates a new `MiddlewareManager` with the built-in factories and the
    /// proxy middleware that the configuration names.
    pub fn from_config(config: &McpConfig) -> (r: Result<Self, ProxyError>)
        ensures
            match build_proxy(proxy_specs(config), builtin_proxy_factories()) {
                Ok(kinds) => r matches Ok(m) && proxy_kinds(m.proxy@) == kinds
                    && m.proxy_factories() == builtin_proxy_factories() && m.client_factories()
                    == builtin_client_factories(),
                Err(msg) => r matches Err(e) && is_config_error(&e, msg),
            },
    {
        let registry = MiddlewareRegistry::new();
        let proxy = match &config.http_server {
            Some(http) => Self::create_proxy_middleware(&http.middleware.proxy, &registry),
            None => {
                let empty: Vec<MiddlewareSpec> = Vec::new();
                proof {
                    assert(specs_view(empty@) =~= Seq::<MiddlewareSpecView>::empty());
                }
                Self::create_proxy_middleware(&empty, &registry)
            },
        };
        match proxy {
            Ok(proxy) => Ok(MiddlewareManager { proxy, registry }),
            Err(e) => Err(e),
        }
    }

    /// Creates client middleware for a specific server based on configuration.
    pub fn create_client_middleware_for_server(&self, server_name: &str, config: &McpConfig) -> (r:
        Result<Vec<ClientMiddlewareInstance>, ProxyError>)
        ensures
            match build_client(client_specs_for(config, server_name@), self.client_factories(), server_name@) {
                Ok(kinds) => r matches Ok(v) && client_kinds(v@) == kinds,
                Err(msg) => r matches Err(e) && is_config_error(&e, msg),
            },
    {
        match &config.http_server {
            Some(http) => {
                let servers = &http.middleware.client.servers;
                let mut found: Option<&Vec<MiddlewareSpec>> = None;
                for i in 0..servers.len()
                    invariant
                        match find_server_specs(servers@.take(i as int), server_name@) {
                            Some(v) => found matches Some(f) && specs_view(f@) == v,
                            None => found is None,
                        },
                {
                    proof {
                        assert(servers@.take(i + 1).drop_last() == servers@.take(i as int));
                        assert(servers@.take(i + 1).last() == servers@[i as int]);
                    }
                    if found.is_none() && text_eq(servers[i].0.as_str(), server_name) {
                        found = Some(&servers[i].1);
                    }
                }
                proof {
                    assert(servers@.take(servers@.len() as int) == servers@);
                }
                match found {
                    Some(specs) => Self::create_client_middleware(server_name, specs, &self.registry),
                    None => Self::create_client_middleware(
                        server_name,
                        &http.middleware.client.default,
                        &self.registry,
                    ),
                }
            },
            None => {
                let empty: Vec<MiddlewareSpec> = Vec::new();
                proof {
                    assert(specs_view(empty@) =~= Seq::<MiddlewareSpecView>::empty());
                }
                Self::create_client_middleware(server_name, &empty, &self.registry)
            },
        }
    }

    /// Create proxy middleware from specifications.
    fn create_proxy_middleware(specs: &Vec<MiddlewareSpec>, registry: &MiddlewareRegistry) -> (r:
        Result<Vec<ProxyMiddlewareInstance>, ProxyError>)
        ensures
            match build_proxy(specs_view(specs@), registry.proxy_registrations()) {
                Ok(kinds) => r matches Ok(v) && proxy_kinds(v@) == kinds,
                Err(msg) => r matches Err(e) && is_config_error(&e, msg),
            },
    {
        let ghost sv = specs_view(specs@);
        let ghost regs = registry.proxy_registrations();
        let mut middleware: Vec<ProxyMiddlewareInstance> = Vec::new();
        let n = specs.len();
        proof {
            assert(sv.take(0) =~= Seq::<MiddlewareSpecView>::empty());
        }
        for i in 0..n
            invariant
                n == specs@.len(),
                sv == specs_view(specs@),
                regs == registry.proxy_registrations(),
                build_proxy(sv.take(i as int), regs) is Ok,
                build_proxy(sv.take(i as int), regs)->Ok_0 =~= proxy_kinds(middleware@),
        {
            let spec = &specs[i];
            proof {
                assert(sv.take(i + 1).drop_last() == sv.take(i as int));
                assert(sv.take(i + 1).last() == spec@);
            }
            if spec.enabled {
                let factory = match registry.get_proxy_factory(spec.middleware_type.as_str()) {
                    Some(f) => f,
                    None => {
                        proof {
                            lemma_build_proxy_error(sv, regs, i + 1);
                        }
                        return Err(
                            ProxyError::config(
                                concat2(
                                    "Unknown proxy middleware type: ",
                                    spec.middleware_type.as_str(),
                                ),
                            ),
                        );
                    },
                };
                match factory.create(&spec.config) {
                    Ok(instance) => {
                        middleware.push(instance);
                        proof {
                            assert(proxy_kinds(middleware@) =~= proxy_kinds(
                                middleware@.drop_last(),
                            ).push(crate::middleware::proxy::proxy_kind(&instance)));
                        }
                    },
                    Err(e) => {
                        proof {
                            lemma_build_proxy_error(sv, regs, i + 1);
                        }
                        return Err(e);
                    },
                }
            }
        }
        proof {
            assert(sv.take(n as int) == sv);
        }
        Ok(middleware)
    }

    /// Create client middleware from specifications.
    fn create_client_middleware(
        server_name: &str,
        specs: &Vec<MiddlewareSpec>,
        registry: &MiddlewareRegistry,
    ) -> (r: Result<Vec<ClientMiddlewareInstance>, ProxyError>)
        ensures
            match build_client(specs_view(specs@), registry.client_registrations(), server_name@) {
                Ok(kinds) => r matches Ok(v) && client_kinds(v@) == kinds,
                Err(msg) => r matches Err(e) && is_config_error(&e, msg),
            },
    {
        let ghost sv = specs_view(specs@);
        let ghost regs = registry.client_registrations();
        let mut middleware: Vec<ClientMiddlewareInstance> = Vec::new();
        let n = specs.len();
        proof {
            assert(sv.take(0) =~= Seq::<MiddlewareSpecView>::empty());
        }
        for i in 0..n
            invariant
                n == specs@.len(),
                sv == specs_view(specs@),
                regs == registry.client_registrations(),
                build_client(sv.take(i as int), regs, server_name@) is Ok,
                build_client(sv.take(i as int), regs, server_name@)->Ok_0 =~= client_kinds(
                    middleware@,
                ),
        {
            let spec = &specs[i];
            proof {
                assert(sv.take(i + 1).drop_last() == sv.take(i as int));
                assert(sv.take(i + 1).last() == spec@);
            }
            if spec.enabled {
                let factory = match registry.get_client_factory(spec.middleware_type.as_str()) {
                    Some(f) => f,
                    None => {
                        proof {
                            lemma_build_client_error(sv, regs, server_name@, i + 1);
                        }
                        return Err(
                            ProxyError::config(
                                concat2(
                                    "Unknown client middleware type: ",
                                    spec.middleware_type.as_str(),
                                ),
                            ),
                        );
                    },
                };
                match factory.create(server_name, &spec.config) {
                    Ok(instance) => {
                        middleware.push(instance);
                        proof {
                            assert(client_kinds(middleware@) =~= client_kinds(
                                middleware@.drop_last(),
                            ).push(crate::middleware::client::client_kind(&instance)));
                        }
                    },
                    Err(e) => {
                        proof {
                            lemma_build_client_error(sv, regs, server_name@, i + 1);
                        }
                        return Err(e);
                    },
                }
            }
        }
        proof {
            assert(sv.take(n as int) == sv);
        }
        Ok(middleware)
    }

    /// Answers a call of the search tool (`search_available_tools`) with the
    /// first tool search middleware, where the call names it and there is
    /// one; every other call is left to the servers (`None`), and nothing
    /// changes.
    pub fn call_search_tool(&mut self, request: &CallToolRequestParam) -> (r: Option<
        Result<String, McpError>,
    >)
        ensures
            final(self).registry == old(self).registry,
            final(self).proxy@.len() == old(self).proxy@.len(),
            request.name@ == search_tool_name() && (exists|i: int|
                first_tool_search(old(self).proxy@, i)) ==> (exists|i: int|
                #[trigger] first_tool_search(old(self).proxy@, i) && (forall|j: int|
                    0 <= j < old(self).proxy@.len() && j != i ==> final(self).proxy@[j] == old(
                        self,
                    ).proxy@[j]) && (old(self).proxy@[i] matches ProxyMiddlewareInstance::ToolSearch(
                    before,
                ) && final(self).proxy@[i] matches ProxyMiddlewareInstance::ToolSearch(after)
                    && r matches Some(answer) && search_call_done(
                    before,
                    after,
                    opt_view(request.arguments),
                    answer,
                ))),
            !(request.name@ == search_tool_name() && (exists|i: int|
                first_tool_search(old(self).proxy@, i))) ==> r is None && final(self).proxy@
                == old(self).proxy@,
    {
        proof {
            reveal_strlit("search_available_tools");
        }
        if !text_eq(request.name.as_str(), "search_available_tools") {
            return None;
        }
        let mut i: usize = 0;
        while i < self.proxy.len()
            invariant
                i <= self.proxy@.len(),
                self.proxy@ == old(self).proxy@,
                self.registry == old(self).registry,
                request.name@ == search_tool_name(),
                forall|j: int| 0 <= j < i ==> !(#[trigger] self.proxy@[j] is ToolSearch),
            decreases self.proxy.len() - i,
        {
            if self.proxy[i].as_tool_search().is_some() {
                let ghost before = self.proxy@;
                assert(first_tool_search(before, i as int));
                let mut m = self.proxy.remove(i);
                let answer = match &mut m {
                    ProxyMiddlewareInstance::ToolSearch(s) => s.call_search_tool(&request.arguments),
                    _ => {
                        return None;
                    },
                };
                self.proxy.insert(i, m);
                proof {
                    assert(self.proxy@ =~= before.update(i as int, m));
                    assert forall|k: int| #[trigger] first_tool_search(before, k) implies k == i by {
                        if k < i {
                        } else if k > i {
                            assert(!(before[i as int] is ToolSearch));
                        }
                    }
                }
                return Some(answer);
            }
            i = i + 1;
        }
        proof {
            assert forall|k: int| !#[trigger] first_tool_search(self.proxy@, k) by {}
        }
        None
    }

    /// Applies every proxy middleware, in order, to the aggregated tool list.
    #[verifier::rlimit(40)]
    pub fn on_list_tools(&mut self, tools: &mut Vec<Tool>)
        ensures
            final(self).registry == old(self).registry,
            final(self).proxy@.len() == old(self).proxy@.len(),
            proxy_kinds(final(self).proxy@) == proxy_kinds(old(self).proxy@),
            tools_view(final(tools)@) == pipeline_tools(proxy_kinds(old(self).proxy@), tools_view(old(tools)@)),
            forall|i: int|
                0 <= i < old(self).proxy@.len() ==> listing_state_done(
                    #[trigger] old(self).proxy@[i],
                    final(self).proxy@[i],
                    pipeline_tools(proxy_kinds(old(self).proxy@).take(i), tools_view(old(tools)@)),
                    pipeline_tools(proxy_kinds(old(self).proxy@).take(i + 1), tools_view(old(tools)@)),
                ),
    {
        let ghost kinds = proxy_kinds(self.proxy@);
        let ghost start = tools_view(tools@);
        let n = self.proxy.len();
        for i in 0..n
            invariant
                n == self.proxy@.len(),
                n == old(self).proxy@.len(),
                self.registry == old(self).registry,
                proxy_kinds(self.proxy@) == kinds,
                kinds == proxy_kinds(old(self).proxy@),
                start == tools_view(old(tools)@),
                tools_view(tools@) == pipeline_tools(kinds.take(i as int), start),
                forall|j: int| i <= j < n ==> self.proxy@[j] == old(self).proxy@[j],
                forall|j: int|
                    0 <= j < i ==> listing_state_done(
                        #[trigger] old(self).proxy@[j],
                        self.proxy@[j],
                        pipeline_tools(kinds.take(j), start),
                        pipeline_tools(kinds.take(j + 1), start),
                    ),
        {
            proof {
                assert(kinds.take(i + 1).drop_last() == kinds.take(i as int));
                assert(kinds[i as int] == crate::middleware::proxy::proxy_kind(&self.proxy@[i as int]));
            }
            let ghost before = self.proxy@;
            let ghost input = tools_view(tools@);
            self.proxy[i].on_list_tools(tools);
            proof {
                assert(self.proxy@.len() == before.len());
                assert forall|j: int| 0 <= j < n && j != i implies self.proxy@[j] == before[j] by {}
                assert(proxy_kinds(self.proxy@) =~= proxy_kinds(before));
                assert(input == pipeline_tools(kinds.take(i as int), start));
                assert(tools_view(tools@) == pipeline_tools(kinds.take(i + 1), start));
                assert(before[i as int] == old(self).proxy@[i as int]);
                assert forall|j: int| 0 <= j < i + 1 implies listing_state_done(
                    #[trigger] old(self).proxy@[j],
                    self.proxy@[j],
                    pipeline_tools(kinds.take(j), start),
                    pipeline_tools(kinds.take(j + 1), start),
                ) by {
                    if j < i {
                        assert(self.proxy@[j] == before[j]);
                    }
                }
            }
        }
        proof {
            assert(kinds.take(n as int) == kinds);
        }
    }

    /// Applies every proxy middleware, in order, to the aggregated prompt list.
    pub fn on_list_prompts(&self, prompts: &mut Vec<Prompt>)
        ensures
            prompts_view(final(prompts)@) == pipeline_prompts(proxy_kinds(self.proxy@), prompts_view(old(prompts)@)),
    {
        let ghost kinds = proxy_kinds(self.proxy@);
        let n = self.proxy.len();
        for i in 0..n
            invariant
                n == self.proxy@.len(),
                kinds == proxy_kinds(self.proxy@),
                prompts_view(prompts@) == pipeline_prompts(kinds.take(i as int), prompts_view(old(prompts)@)),
        {
            proof {
                assert(kinds.take(i + 1).drop_last() == kinds.take(i as int));
                assert(kinds[i as int] == crate::middleware::proxy::proxy_kind(&self.proxy@[i as int]));
            }
            self.proxy[i].on_list_prompts(prompts);
        }
        proof {
            assert(kinds.take(n as int) == kinds);
        }
    }

    /// Applies every proxy middleware, in order, to the aggregated resource list.
    pub fn on_list_resources(&self, resources: &mut Vec<Resource>)
        ensures
            resources_view(final(resources)@) == pipeline_resources(
                proxy_kinds(self.proxy@),
                resources_view(old(resources)@),
            ),
    {
        let ghost kinds = proxy_kinds(self.proxy@);
        let n = self.proxy.len();
        for i in 0..n
            invariant
                n == self.proxy@.len(),
                kinds == proxy_kinds(self.proxy@),
                resources_view(resources@) == pipeline_resources(
                    kinds.take(i as int),
                    resources_view(old(resources)@),
                ),
        {
            proof {
                assert(kinds.take(i + 1).drop_last() == kinds.take(i as int));
                assert(kinds[i as int] == crate::middleware::proxy::proxy_kind(&self.proxy@[i as int]));
            }
            self.proxy[i].on_list_resources(resources);
        }
        proof {
            assert(kinds.take(n as int) == kinds);
        }
    }
}

} // verus!
