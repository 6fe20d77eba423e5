//! Tool filtering client middleware that filters tools based on configurable regex patterns.
use crate::config::{MiddlewareSettings, MiddlewareSettingsView};
use crate::error::{is_config_error, ProxyError};
use crate::middleware::client::{client_kind, ClientKind, ClientMiddlewareInstance};
use crate::matching::{compile_regex, is_match, regex_compile_error, CompiledRegex};
use crate::model::{clone_opt, opt_view, tools_view, ListToolsResult, Tool, ToolView};
use crate::text::{concat2, concat3, owned};
use vstd::prelude::*;
use vstd::string::*;

verus! {

/// Configuration for tool filtering middleware.
pub struct ToolFilterConfig {
    /// Regex pattern for tools to allow (if specified, only matching tools are kept).
    pub allow: Option<String>,
    /// Regex pattern for tools to disallow (if specified, matching tools are removed).
    pub disallow: Option<String>,
}

impl Clone for ToolFilterConfig {
    fn clone(&self) -> (r: Self)
        ensures
            opt_view(r.allow) == opt_view(self.allow),
            opt_view(r.disallow) == opt_view(self.disallow),
    {
        ToolFilterConfig { allow: clone_opt(&self.allow), disallow: clone_opt(&self.disallow) }
    }
}

impl Default for ToolFilterConfig {
    /// Allows everything: the allow pattern `.*` and no disallow pattern.
    fn default() -> (r: Self)
        ensures
            opt_view(r.allow) == Some(".*"@),
            r.disallow is None,
    {
        ToolFilterConfig { allow: Some(owned(".*")), disallow: None }
    }
}

/// Whether a tool of the given name is kept: the allow pattern decides when
/// there is one; otherwise tools matching the disallow pattern are removed;
/// with neither, every tool is kept.
pub open spec fn keeps_tool(
    allow: Option<Seq<char>>,
    disallow: Option<Seq<char>>,
    name: Seq<char>,
) -> bool {
    match allow {
        Some(p) => crate::matching::regex_matches(p, name),
        None => match disallow {
            Some(q) => !crate::matching::regex_matches(q, name),
            None => true,
        },
    }
}

/// The message of the configuration error that building a filter from
/// `allow` and `disallow` gives, if any: the allow pattern is compiled first.
pub open spec fn tool_filter_error(allow: Option<Seq<char>>, disallow: Option<Seq<char>>) -> Option<
    Seq<char>,
> {
    match allow {
        Some(p) if regex_compile_error(p) is Some => Some(
            "Invalid allow regex pattern '"@ + p + "': "@ + regex_compile_error(p)->0,
        ),
        _ => match disallow {
            Some(q) if regex_compile_error(q) is Some => Some(
                "Invalid disallow regex pattern '"@ + q + "': "@ + regex_compile_error(q)->0,
            ),
            _ => None,
        },
    }
}

/// The pattern of an optional compiled regex.
pub open spec fn regex_source(o: Option<CompiledRegex>) -> Option<Seq<char>> {
    match o {
        Some(r) => Some(r.source()),
        None => None,
    }
}

/// Client middleware that filters tools from individual servers based on regex patterns.
///
/// If both `allow` and `disallow` patterns are specified, the `allow` pattern takes precedence.
/// If only `allow` is specified, only tools matching the pattern are kept.
/// If only `disallow` is specified, tools matching the pattern are removed.
/// If neither is specified, all tools are kept.
pub struct ToolFilterClientMiddleware {
    allow_regex: Option<CompiledRegex>,
    disallow_regex: Option<CompiledRegex>,
    config: ToolFilterConfig,
    server_name: String,
}

/// Compiles an optional pattern; the error text is the one `regex` gives.
fn compile_optional(pattern: &Option<String>) -> (r: Result<Option<CompiledRegex>, String>)
    ensures
        match r {
            Ok(c) => regex_source(c) == opt_view(*pattern) && (pattern matches Some(p)
                ==> regex_compile_error(p@) is None),
            Err(e) => pattern matches Some(p) && regex_compile_error(p@) == Some(e@),
        },
{
    match pattern {
        Some(p) => match compile_regex(p.as_str()) {
            Ok(c) => Ok(Some(c)),
            Err(e) => Err(e),
        },
        None => Ok(None),
    }
}

impl ToolFilterClientMiddleware {
    /// The allow pattern in force.
    pub closed spec fn allow_pattern(&self) -> Option<Seq<char>> {
        regex_source(self.allow_regex)
    }

    /// The disallow pattern in force.
    pub closed spec fn disallow_pattern(&self) -> Option<Seq<char>> {
        regex_source(self.disallow_regex)
    }

    /// The name of the server whose tools are filtered.
    pub closed spec fn server(&self) -> Seq<char> {
        self.server_name@
    }

    /// Creates a new ToolFilterClientMiddleware with the given configuration.
    pub fn new(server_name: String, config: ToolFilterConfig) -> (r: Result<Self, ProxyError>)
        ensures
            match tool_filter_error(opt_view(config.allow), opt_view(config.disallow)) {
                None => r matches Ok(m) && m.allow_pattern() == opt_view(config.allow)
                    && m.disallow_pattern() == opt_view(config.disallow) && m.server()
                    == server_name@,
                Some(msg) => r matches Err(e) && is_config_error(&e, msg),
            },
    {
        let allow_regex = match compile_optional(&config.allow) {
            Ok(c) => c,
            Err(e) => {
                let pattern = match &config.allow {
                    Some(p) => p,
                    None => { return Err(ProxyError::config(e)); },
                };
                let mut msg = concat3("Invalid allow regex pattern '", pattern.as_str(), "': ");
                msg.append(e.as_str());
                return Err(ProxyError::config(msg));
            },
        };
        let disallow_regex = match compile_optional(&config.disallow) {
            Ok(c) => c,
            Err(e) => {
                let pattern = match &config.disallow {
                    Some(p) => p,
                    None => { return Err(ProxyError::config(e)); },
                };
                let mut msg = concat3("Invalid disallow regex pattern '", pattern.as_str(), "': ");
                msg.append(e.as_str());
                return Err(ProxyError::config(msg));
            },
        };
        Ok(ToolFilterClientMiddleware { allow_regex, disallow_regex, config, server_name })
    }

    /// Checks if a tool should be kept based on the configured patterns.
    pub fn should_keep_tool(&self, tool_name: &str) -> (r: bool)
        ensures
            r == keeps_tool(self.allow_pattern(), self.disallow_pattern(), tool_name@),
    {
        match &self.allow_regex {
            Some(allow) => is_match(allow, tool_name),
            None => match &self.disallow_regex {
                Some(disallow) => !is_match(disallow, tool_name),
                None => true,
            },
        }
    }

    /// Removes the tools that the patterns do not keep, in place and in order.
    pub fn modify_list_tools_result(&self, request_id: u128, result: &mut ListToolsResult)
        ensures
            tools_view(final(result).tools@) == tools_view(old(result).tools@).filter(
                |t: ToolView| keeps_tool(self.allow_pattern(), self.disallow_pattern(), t.name),
            ),
            final(result).next_cursor == old(result).next_cursor,
    {
        let ghost allow = self.allow_pattern();
        let ghost disallow = self.disallow_pattern();
        let ghost pred = |t: ToolView| keeps_tool(allow, disallow, t.name);
        let mut kept: Vec<Tool> = Vec::new();
        let n = result.tools.len();
        for i in 0..n
            invariant
                n == result.tools@.len(),
                result.tools@ == old(result).tools@,
                result.next_cursor == old(result).next_cursor,
                allow == self.allow_pattern(),
                disallow == self.disallow_pattern(),
                pred == (|t: ToolView| keeps_tool(allow, disallow, t.name)),
                tools_view(kept@) == tools_view(result.tools@.take(i as int)).filter(pred),
        {
            let keep = self.should_keep_tool(result.tools[i].name.as_str());
            proof {
                reveal(Seq::filter);
                assert(tools_view(result.tools@.take(i + 1)) == tools_view(
                    result.tools@.take(i as int),
                ).push(result.tools@[i as int]@));
                assert(tools_view(result.tools@.take(i + 1)).drop_last() == tools_view(
                    result.tools@.take(i as int),
                ));
            }
            if keep {
                let t = result.tools[i].clone();
                kept.push(t);
                proof {
                    assert(tools_view(kept@) == tools_view(kept@.drop_last()).push(t@));
                }
            }
        }
        proof {
            assert(result.tools@.take(n as int) == result.tools@);
        }
        result.tools = kept;
    }
}

/// The outcome of creating a tool filter for `server` from `settings`: a
/// `null` configuration means the default one, which allows everything.
pub open spec fn tool_filter_create_outcome(server: Seq<char>, settings: MiddlewareSettingsView) -> Result<
    ClientKind,
    Seq<char>,
> {
    let cfg: Result<(Option<Seq<char>>, Option<Seq<char>>), Seq<char>> = if settings.is_null {
        Ok((Some(".*"@), None))
    } else {
        match settings.as_tool_filter {
            Ok(c) => Ok(c),
            Err(t) => Err("Invalid tool filter configuration: "@ + t),
        }
    };
    match cfg {
        Err(m) => Err(m),
        Ok((allow, disallow)) => match tool_filter_error(allow, disallow) {
            Some(m) => Err(m),
            None => Ok(ClientKind::ToolFilter(server, allow, disallow)),
        },
    }
}

/// A tool filter created from a `null` configuration is the default one: it
/// is created exactly as from a configuration that gives the default
/// patterns (allow `.*`, no disallow pattern, as `ToolFilterConfig::default`
/// gives them). Its allow pattern decides alone, so a tool is kept exactly
/// when `.*` matches its name, and no tool is ever removed by a disallow
/// pattern.
pub proof fn lemma_null_tool_filter_is_default(server: Seq<char>, settings: MiddlewareSettingsView)
    requires
        settings.is_null,
    ensures
        tool_filter_create_outcome(server, settings) == tool_filter_create_outcome(
            server,
            MiddlewareSettingsView { is_null: false, as_tool_filter: Ok((Some(".*"@), None)), ..settings },
        ),
        match tool_filter_create_outcome(server, settings) {
            Ok(k) => k == ClientKind::ToolFilter(server, Some(".*"@), None) && forall|name: Seq<char>|
                #[trigger] keeps_tool(Some(".*"@), None, name) == crate::matching::regex_matches(
                    ".*"@,
                    name,
                ),
            Err(_) => regex_compile_error(".*"@) is Some,
        },
{
}

/// Factory for creating ToolFilterClientMiddleware from configuration.
pub struct ToolFilterClientFactory;

impl ToolFilterClientFactory {
    /// Creates the middleware for a server.
    pub fn create(&self, server_name: &str, config: &MiddlewareSettings) -> (r: Result<
        ClientMiddlewareInstance,
        ProxyError,
    >)
        ensures
            match tool_filter_create_outcome(server_name@, config@) {
                Ok(k) => r matches Ok(m) && client_kind(&m) == k,
                Err(msg) => r matches Err(e) && is_config_error(&e, msg),
            },
    {
        let filter_config = if config.is_null {
            ToolFilterConfig::default()
        } else {
            match &config.as_tool_filter {
                Ok(c) => c.clone(),
                Err(t) => {
                    return Err(
                        ProxyError::config(concat2("Invalid tool filter configuration: ", t.as_str())),
                    );
                },
            }
        };
        match ToolFilterClientMiddleware::new(owned(server_name), filter_config) {
            Ok(m) => Ok(ClientMiddlewareInstance::ToolFilter(m)),
            Err(e) => Err(e),
        }
    }

    /// The type name this factory handles.
    pub fn middleware_type(&self) -> (r: &'static str)
        ensures
            r@ == "tool_filter"@,
    {
        "tool_filter"
    }
}

} // verus!
