//! Middleware registry for managing factory registration and lookup.
use crate::config::{MiddlewareSettings, MiddlewareSettingsView};
use crate::error::{is_config_error, ProxyError};
use crate::middleware::client::{client_kind, ClientKind, ClientMiddlewareInstance};
use crate::middleware::client_middleware::logging::LoggingClientFactory;
use crate::middleware::client_middleware::security::{security_create_outcome, SecurityClientFactory};
use crate::middleware::client_middleware::tool_filter::{
    tool_filter_create_outcome, ToolFilterClientFactory,
};
use crate::middleware::proxy::{proxy_kind, ProxyKind, ProxyMiddlewareInstance};
use crate::middleware::proxy_middleware::description_enricher::DescriptionEnricherFactory;
use crate::middleware::proxy_middleware::tool_filter::ToolFilterFactory;
use crate::middleware::proxy_middleware::tool_search::{
    tool_search_create_outcome, ToolSearchMiddlewareFactory,
};
use crate::text::text_eq;
use vstd::prelude::*;

verus! {

/// A factory of proxy middleware.
pub enum ProxyFactory {
    DescriptionEnricher(DescriptionEnricherFactory),
    ToolFilter(ToolFilterFactory),
    ToolSearch(ToolSearchMiddlewareFactory),
}

/// A factory of client middleware.
pub enum ClientFactory {
    Logging(LoggingClientFactory),
    Security(SecurityClientFactory),
    ToolFilter(ToolFilterClientFactory),
}

/// The type name a proxy factory handles.
pub open spec fn proxy_factory_type(f: ProxyFactory) -> Seq<char> {
    match f {
        ProxyFactory::DescriptionEnricher(_) => "description_enricher"@,
        ProxyFactory::ToolFilter(_) => "tool_filter"@,
        ProxyFactory::ToolSearch(_) => "tool_search"@,
    }
}

/// The type name a client factory handles.
pub open spec fn client_factory_type(f: ClientFactory) -> Seq<char> {
    match f {
        ClientFactory::Logging(_) => "logging"@,
        ClientFactory::Security(_) => "security"@,
        ClientFactory::ToolFilter(_) => "tool_filter"@,
    }
}

/// What a proxy factory creates from the given settings, or the message of its error.
pub open spec fn proxy_create_outcome(f: ProxyFactory, settings: MiddlewareSettingsView) -> Result<
    ProxyKind,
    Seq<char>,
> {
    match f {
        ProxyFactory::DescriptionEnricher(_) => Ok(ProxyKind::DescriptionEnricher),
        ProxyFactory::ToolFilter(_) => Ok(ProxyKind::ToolFilter),
        ProxyFactory::ToolSearch(_) => tool_search_create_outcome(settings),
    }
}

/// What a client factory creates for a server from the given settings, or
/// the message of its error.
pub open spec fn client_create_outcome(
    f: ClientFactory,
    server: Seq<char>,
    settings: MiddlewareSettingsView,
) -> Result<ClientKind, Seq<char>> {
    match f {
        ClientFactory::Logging(_) => Ok(ClientKind::Logging(server)),
        ClientFactory::Security(_) => security_create_outcome(server, settings),
        ClientFactory::ToolFilter(_) => tool_filter_create_outcome(server, settings),
    }
}

impl ProxyFactory {
    /// The type name this factory handles.
    pub fn middleware_type(&self) -> (r: &'static str)
        ensures
            r@ == proxy_factory_type(*self),
    {
        match self {
            ProxyFactory::DescriptionEnricher(f) => f.middleware_type(),
            ProxyFactory::ToolFilter(f) => f.middleware_type(),
            ProxyFactory::ToolSearch(f) => f.middleware_type(),
        }
    }

    /// Creates a new proxy middleware instance from configuration.
    pub fn create(&self, config: &MiddlewareSettings) -> (r: Result<ProxyMiddlewareInstance, ProxyError>)
        ensures
            match proxy_create_outcome(*self, config@) {
                Ok(k) => r matches Ok(m) && proxy_kind(&m) == k,
                Err(msg) => r matches Err(e) && is_config_error(&e, msg),
            },
    {
        match self {
            ProxyFactory::DescriptionEnricher(f) => f.create(config),
            ProxyFactory::ToolFilter(f) => f.create(config),
            ProxyFactory::ToolSearch(f) => f.create(config),
        }
    }
}

impl ClientFactory {
    /// The type name this factory handles.
    pub fn middleware_type(&self) -> (r: &'static str)
        ensures
            r@ == client_factory_type(*self),
    {
        match self {
            ClientFactory::Logging(f) => f.middleware_type(),
            ClientFactory::Security(f) => f.middleware_type(),
            ClientFactory::ToolFilter(f) => f.middleware_type(),
        }
    }

    /// Creates a new client middleware instance for a server from configuration.
    pub fn create(&self, server_name: &str, config: &MiddlewareSettings) -> (r: Result<
        ClientMiddlewareInstance,
        ProxyError,
    >)
        ensures
            match client_create_outcome(*self, server_name@, config@) {
                Ok(k) => r matches Ok(m) && client_kind(&m) == k,
                Err(msg) => r matches Err(e) && is_config_error(&e, msg),
            },
    {
        match self {
            ClientFactory::Logging(f) => f.create(server_name, config),
            ClientFactory::Security(f) => f.create(server_name, config),
            ClientFactory::ToolFilter(f) => f.create(server_name, config),
        }
    }
}

/// The factory registered last for a type name.
pub open spec fn lookup_proxy(factories: Seq<ProxyFactory>, t: Seq<char>) -> Option<ProxyFactory>
    decreases factories.len(),
{
    if factories.len() == 0 {
        None
    } else if proxy_factory_type(factories.last()) == t {
        Some(factories.last())
    } else {
        lookup_proxy(factories.drop_last(), t)
    }
}

/// The factory registered last for a type name.
pub open spec fn lookup_client(factories: Seq<ClientFactory>, t: Seq<char>) -> Option<ClientFactory>
    decreases factories.len(),
{
    if factories.len() == 0 {
        None
    } else if client_factory_type(factories.last()) == t {
        Some(factories.last())
    } else {
        lookup_client(factories.drop_last(), t)
    }
}

/// The built-in proxy factories: the description enricher and tool search.
pub open spec fn builtin_proxy_factories() -> Seq<ProxyFactory> {
    seq![
        ProxyFactory::DescriptionEnricher(DescriptionEnricherFactory),
        ProxyFactory::ToolSearch(ToolSearchMiddlewareFactory),
    ]
}

/// The built-in client factories: logging, security and tool filter.
pub open spec fn builtin_client_factories() -> Seq<ClientFactory> {
    seq![
        ClientFactory::Logging(LoggingClientFactory),
        ClientFactory::Security(SecurityClientFactory),
        ClientFactory::ToolFilter(ToolFilterClientFactory),
    ]
}

/// Registry for middleware factories, handling both proxy and client middleware.
pub struct MiddlewareRegistry {
    proxy_factories: Vec<ProxyFactory>,
    client_factories: Vec<ClientFactory>,
}

impl MiddlewareRegistry {
    /// The proxy factories, in the order they were registered.
    pub closed spec fn proxy_registrations(&self) -> Seq<ProxyFactory> {
        self.proxy_factories@
    }

    /// The client factories, in the order they were registered.
    pub closed spec fn client_registrations(&self) -> Seq<ClientFactory> {
        self.client_factories@
    }

    /// Create a new registry with built-in middleware pre-registered.
    pub fn new() -> (r: Self)
        ensures
            r.proxy_registrations() == builtin_proxy_factories(),
            r.client_registrations() == builtin_client_factories(),
    {
        let mut registry = MiddlewareRegistry {
            proxy_factories: Vec::new(),
            client_factories: Vec::new(),
        };
        registry.register_builtin_middleware();
        proof {
            assert(registry.proxy_registrations() =~= builtin_proxy_factories());
            assert(registry.client_registrations() =~= builtin_client_factories());
        }
        registry
    }

    /// Register a proxy middleware factory under its type name.
    pub fn register_proxy_factory(&mut self, factory: ProxyFactory)
        ensures
            final(self).proxy_registrations() == old(self).proxy_registrations().push(factory),
            final(self).client_registrations() == old(self).client_registrations(),
    {
        self.proxy_factories.push(factory);
    }

    /// Register a client middleware factory under its type name.
    pub fn register_client_factory(&mut self, factory: ClientFactory)
        ensures
            final(self).client_registrations() == old(self).client_registrations().push(factory),
            final(self).proxy_registrations() == old(self).proxy_registrations(),
    {
        self.client_factories.push(factory);
    }

    /// Get a proxy middleware factory by type name.
    pub fn get_proxy_factory(&self, middleware_type: &str) -> (r: Option<&ProxyFactory>)
        ensures
            match lookup_proxy(self.proxy_registrations(), middleware_type@) {
                Some(f) => r matches Some(g) && *g == f,
                None => r is None,
            },
    {
        let ghost regs = self.proxy_registrations();
        let mut i = self.proxy_factories.len();
        proof {
            assert(regs.take(i as int) == regs);
        }
        while i > 0
            invariant
                i <= self.proxy_factories@.len(),
                regs == self.proxy_factories@,
                lookup_proxy(regs, middleware_type@) == lookup_proxy(regs.take(i as int), middleware_type@),
            decreases i,
        {
            let f = &self.proxy_factories[i - 1];
            proof {
                assert(regs.take(i as int).drop_last() == regs.take(i - 1));
                assert(regs.take(i as int).last() == *f);
            }
            if text_eq(f.middleware_type(), middleware_type) {
                return Some(f);
            }
            i = i - 1;
        }
        None
    }

    /// Get a client middleware factory by type name.
    pub fn get_client_factory(&self, middleware_type: &str) -> (r: Option<&ClientFactory>)
        ensures
            match lookup_client(self.client_registrations(), middleware_type@) {
                Some(f) => r matches Some(g) && *g == f,
                None => r is None,
            },
    {
        let ghost regs = self.client_registrations();
        let mut i = self.client_factories.len();
        proof {
            assert(regs.take(i as int) == regs);
        }
        while i > 0
            invariant
                i <= self.client_factories@.len(),
                regs == self.client_factories@,
                lookup_client(regs, middleware_type@) == lookup_client(regs.take(i as int), middleware_type@),
            decreases i,
        {
            let f = &self.client_factories[i - 1];
            proof {
                assert(regs.take(i as int).drop_last() == regs.take(i - 1));
                assert(regs.take(i as int).last() == *f);
            }
            if text_eq(f.middleware_type(), middleware_type) {
                return Some(f);
            }
            i = i - 1;
        }
        None
    }

    /// Register all built-in middleware factories.
    fn register_builtin_middleware(&mut self)
        ensures
            final(self).proxy_registrations() == old(self).proxy_registrations() + builtin_proxy_factories(),
            final(self).client_registrations() == old(self).client_registrations()
                + builtin_client_factories(),
    {
        self.register_proxy_factory(ProxyFactory::DescriptionEnricher(DescriptionEnricherFactory));
        self.register_proxy_factory(ProxyFactory::ToolSearch(ToolSearchMiddlewareFactory));
        self.register_client_factory(ClientFactory::Logging(LoggingClientFactory));
        self.register_client_factory(ClientFactory::Security(SecurityClientFactory));
        self.register_client_factory(ClientFactory::ToolFilter(ToolFilterClientFactory));
        proof {
            assert(self.proxy_registrations() =~= old(self).proxy_registrations()
                + builtin_proxy_factories());
            assert(self.client_registrations() =~= old(self).client_registrations()
                + builtin_client_factories());
        }
    }
}

impl Default for MiddlewareRegistry {
    fn default() -> (r: Self)
        ensures
            r.proxy_registrations() == builtin_proxy_factories(),
            r.client_registrations() == builtin_client_factories(),
    {
        Self::new()
    }
}

/// Looking up a type name after registering a factory gives that factory
/// when it handles the name, and what the lookup gave before otherwise.
pub proof fn lemma_register_then_get_proxy(regs: Seq<ProxyFactory>, f: ProxyFactory, t: Seq<char>)
    ensures
        lookup_proxy(regs.push(f), t) == if proxy_factory_type(f) == t {
            Some(f)
        } else {
            lookup_proxy(regs, t)
        },
{
    assert(regs.push(f).drop_last() == regs);
}

/// Looking up a type name after registering a factory gives that factory
/// when it handles the name, and what the lookup gave before otherwise.
pub proof fn lemma_register_then_get_client(regs: Seq<ClientFactory>, f: ClientFactory, t: Seq<char>)
    ensures
        lookup_client(regs.push(f), t) == if client_factory_type(f) == t {
            Some(f)
        } else {
            lookup_client(regs, t)
        },
{
    assert(regs.push(f).drop_last() == regs);
}

} // verus!
