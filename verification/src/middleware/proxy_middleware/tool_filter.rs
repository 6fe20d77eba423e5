//! Tool filtering middleware that removes tools containing "test" in their name.
use crate::config::MiddlewareSettings;
use crate::error::ProxyError;
use crate::middleware::proxy::{proxy_kind, ProxyKind, ProxyMiddlewareInstance};
use crate::model::{tools_view, Tool, ToolView};
use crate::text::{chars_of, contains_chars, contains_seq, lowercase, to_lowercase};
use vstd::prelude::*;

verus! {

/// A tool whose lowercased name contains `test`.
pub open spec fn is_test_tool(t: ToolView) -> bool {
    contains_seq(lowercase(t.name), "test"@)
}

/// Keeps the tools whose lowercased name does not contain `test`, in order.
pub fn remove_test_tools(tools: &mut Vec<Tool>)
    ensures
        tools_view(final(tools)@) == tools_view(old(tools)@).filter(|t: ToolView| !is_test_tool(t)),
{
    let ghost pred = |t: ToolView| !is_test_tool(t);
    let pattern = chars_of("test");
    let mut kept: Vec<Tool> = Vec::new();
    let n = tools.len();
    for i in 0..n
        invariant
            n == tools@.len(),
            tools@ == old(tools)@,
            pattern@ == "test"@,
            pred == (|t: ToolView| !is_test_tool(t)),
            tools_view(kept@) == tools_view(tools@.take(i as int)).filter(pred),
    {
        let lower = to_lowercase(tools[i].name.as_str());
        let is_test = contains_chars(&chars_of(lower.as_str()), &pattern);
        proof {
            reveal(Seq::filter);
            assert(tools_view(tools@.take(i + 1)) == tools_view(tools@.take(i as int)).push(
                tools@[i as int]@,
            ));
            assert(tools_view(tools@.take(i + 1)).drop_last() == tools_view(
                tools@.take(i as int),
            ));
        }
        if !is_test {
            let t = tools[i].clone();
            kept.push(t);
            proof {
                assert(tools_view(kept@) == tools_view(kept@.drop_last()).push(t@));
            }
        }
    }
    proof {
        assert(tools@.take(n as int) == tools@);
    }
    *tools = kept;
}

/// Filtering middleware that removes tools containing "test" in their name.
pub struct ToolFilterMiddleware;

impl ToolFilterMiddleware {
    /// Removes the test tools.
    pub fn on_list_tools(&self, tools: &mut Vec<Tool>)
        ensures
            tools_view(final(tools)@) == tools_view(old(tools)@).filter(
                |t: ToolView| !is_test_tool(t),
            ),
    {
        remove_test_tools(tools)
    }
}

/// Factory for creating ToolFilterMiddleware from configuration.
pub struct ToolFilterFactory;

impl ToolFilterFactory {
    /// Creates the middleware; the configuration is not read.
    pub fn create(&self, config: &MiddlewareSettings) -> (r: Result<ProxyMiddlewareInstance, ProxyError>)
        ensures
            r matches Ok(m) && proxy_kind(&m) == ProxyKind::ToolFilter,
    {
        Ok(ProxyMiddlewareInstance::ToolFilter(ToolFilterMiddleware))
    }

    /// The type name this factory handles.
    pub fn middleware_type(&self) -> (r: &'static str)
        ensures
            r@ == "tool_filter"@,
    {
        "tool_filter"
    }
}

} // verus!
