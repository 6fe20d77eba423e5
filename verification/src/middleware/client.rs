//! What client middleware decides around the calls to one downstream server.
use crate::middleware::client_middleware::logging::LoggingClientMiddleware;
use crate::middleware::client_middleware::security::{
    first_block, searchable_content, SecurityClientMiddleware, SecurityRuleView,
};
use crate::middleware::client_middleware::tool_filter::{keeps_tool, ToolFilterClientMiddleware};
use crate::middleware::examples;
use crate::model::{opt_view, tools_view, CallToolRequestParam, ListToolsResult, ToolView};
use vstd::prelude::*;

verus! {

/// The outcome of a middleware hook that may stop a call.
pub enum MiddlewareResult {
    /// The operation should proceed normally.
    Continue,
    /// The operation should be blocked with the given error message.
    Block(String),
}

/// A built-in client middleware.
pub enum ClientMiddlewareInstance {
    Logging(LoggingClientMiddleware),
    Security(SecurityClientMiddleware),
    ToolFilter(ToolFilterClientMiddleware),
    ExampleLogging(examples::LoggingClientMiddleware),
}

/// What a client middleware is, with the settings that decide what it does.
pub enum ClientKind {
    /// Logging for a server.
    Logging(Seq<char>),
    /// Security for a server: its rules in force and whether blocked calls are logged.
    Security(Seq<char>, Seq<SecurityRuleView>, bool),
    /// Tool filtering for a server: allow and disallow patterns.
    ToolFilter(Seq<char>, Option<Seq<char>>, Option<Seq<char>>),
    /// Example logging for a server.
    ExampleLogging(Seq<char>),
}

/// The kind of a client middleware.
pub open spec fn client_kind(m: &ClientMiddlewareInstance) -> ClientKind {
    match m {
        ClientMiddlewareInstance::Logging(l) => ClientKind::Logging(l.server()),
        ClientMiddlewareInstance::Security(s) => ClientKind::Security(
            s.server(),
            s.active_rules(),
            s.logs_blocked(),
        ),
        ClientMiddlewareInstance::ToolFilter(f) => ClientKind::ToolFilter(
            f.server(),
            f.allow_pattern(),
            f.disallow_pattern(),
        ),
        ClientMiddlewareInstance::ExampleLogging(l) => ClientKind::ExampleLogging(l.server()),
    }
}

/// The kinds of a sequence of client middleware.
pub open spec fn client_kinds(s: Seq<ClientMiddlewareInstance>) -> Seq<ClientKind> {
    s.map_values(|m: ClientMiddlewareInstance| client_kind(&m))
}

/// The message with which a middleware blocks a call of the given searchable
/// content: only security middleware blocks.
pub open spec fn call_block(k: ClientKind, content: Seq<char>) -> Option<Seq<char>> {
    match k {
        ClientKind::Security(_, rules, _) => first_block(rules, content),
        _ => None,
    }
}

/// The message with which a chain of middleware blocks a call: that of the
/// first middleware that blocks.
pub open spec fn chain_block(kinds: Seq<ClientKind>, content: Seq<char>) -> Option<Seq<char>>
    decreases kinds.len(),
{
    if kinds.len() == 0 {
        None
    } else {
        let before = chain_block(kinds.drop_last(), content);
        if before is Some {
            before
        } else {
            call_block(kinds.last(), content)
        }
    }
}

/// A server's tool list after one middleware: only tool filters change it.
pub open spec fn tools_modified(k: ClientKind, tools: Seq<ToolView>) -> Seq<ToolView> {
    match k {
        ClientKind::ToolFilter(_, allow, disallow) => tools.filter(
            |t: ToolView| keeps_tool(allow, disallow, t.name),
        ),
        _ => tools,
    }
}

/// A server's tool list after a chain of middleware, applied in order.
pub open spec fn chain_tools(kinds: Seq<ClientKind>, tools: Seq<ToolView>) -> Seq<ToolView>
    decreases kinds.len(),
{
    if kinds.len() == 0 {
        tools
    } else {
        tools_modified(kinds.last(), chain_tools(kinds.drop_last(), tools))
    }
}

/// The timing records of a logging middleware; none for other middleware.
pub open spec fn logging_timings(m: &ClientMiddlewareInstance) -> Option<Map<u128, (Seq<char>, u64)>> {
    match m {
        ClientMiddlewareInstance::Logging(l) => Some(l.timings()),
        _ => None,
    }
}

impl ClientMiddlewareInstance {
    /// Called before a tool call: security middleware blocks calls that its
    /// rules match; the others let every call continue.
    pub fn before_call_tool(&self, request_id: u128, request: &CallToolRequestParam) -> (r:
        MiddlewareResult)
        ensures
            match call_block(
                client_kind(self),
                searchable_content(request.name@, opt_view(request.arguments)),
            ) {
                Some(m) => r matches MiddlewareResult::Block(s) && s@ == m,
                None => r is Continue,
            },
    {
        match self {
            ClientMiddlewareInstance::Security(s) => s.before_call_tool(request_id, request),
            _ => MiddlewareResult::Continue,
        }
    }

    /// Modifies a successful tool listing: tool filters remove tools.
    pub fn modify_list_tools_result(&self, request_id: u128, result: &mut ListToolsResult)
        ensures
            tools_view(final(result).tools@) == tools_modified(
                client_kind(self),
                tools_view(old(result).tools@),
            ),
            final(result).next_cursor == old(result).next_cursor,
    {
        match self {
            ClientMiddlewareInstance::ToolFilter(f) => f.modify_list_tools_result(request_id, result),
            _ => {
                proof {
                    assert(tools_view(result.tools@) == tools_view(old(result).tools@));
                }
            },
        }
    }

    /// Called before an operation starts: logging middleware records the
    /// operation and the clock reading `now` for the request.
    pub fn before_operation(&mut self, request_id: u128, operation: &str, now: u64)
        ensures
            client_kind(final(self)) == client_kind(old(self)),
            match logging_timings(old(self)) {
                Some(t) => logging_timings(final(self)) == Some(
                    t.insert(request_id, (operation@, now)),
                ),
                None => logging_timings(final(self)) is None,
            },
    {
        match self {
            ClientMiddlewareInstance::Logging(l) => l.set_start_time(request_id, operation, now),
            _ => {},
        }
    }

    /// Called after an operation completes: logging middleware removes the
    /// request's record and gives the operation and the elapsed time.
    pub fn after_operation(&mut self, request_id: u128, now: u64) -> (r: Option<(String, u64)>)
        ensures
            client_kind(final(self)) == client_kind(old(self)),
            match logging_timings(old(self)) {
                Some(t) => logging_timings(final(self)) == Some(t.remove(request_id)) && match r {
                    Some((op, elapsed)) => t.contains_key(request_id) && op@ == t[request_id].0
                        && elapsed == if now >= t[request_id].1 {
                        (now - t[request_id].1) as u64
                    } else {
                        0u64
                    },
                    None => !t.contains_key(request_id),
                },
                None => logging_timings(final(self)) is None && r is None,
            },
    {
        match self {
            ClientMiddlewareInstance::Logging(l) => l.take_duration(request_id, now),
            _ => None,
        }
    }
}

/// Runs the `before_call_tool` hooks in order and stops at the first that
/// blocks: the call is blocked with its message, or continues if none blocks.
pub fn before_call_tool_chain(
    chain: &Vec<ClientMiddlewareInstance>,
    request_id: u128,
    request: &CallToolRequestParam,
) -> (r: MiddlewareResult)
    ensures
        match chain_block(
            client_kinds(chain@),
            searchable_content(request.name@, opt_view(request.arguments)),
        ) {
            Some(m) => r matches MiddlewareResult::Block(s) && s@ == m,
            None => r is Continue,
        },
{
    let ghost content = searchable_content(request.name@, opt_view(request.arguments));
    let ghost kinds = client_kinds(chain@);
    let n = chain.len();
    for i in 0..n
        invariant
            n == chain@.len(),
            kinds == client_kinds(chain@),
            content == searchable_content(request.name@, opt_view(request.arguments)),
            chain_block(kinds.take(i as int), content) is None,
    {
        proof {
            assert(kinds.take(i + 1).drop_last() == kinds.take(i as int));
            assert(kinds.take(i + 1).last() == client_kind(&chain@[i as int]));
        }
        match chain[i].before_call_tool(request_id, request) {
            MiddlewareResult::Block(message) => {
                proof {
                    lemma_chain_block_prefix(kinds, content, i + 1);
                }
                return MiddlewareResult::Block(message);
            },
            MiddlewareResult::Continue => {},
        }
    }
    proof {
        assert(kinds.take(n as int) == kinds);
    }
    MiddlewareResult::Continue
}

/// Applies the `modify_list_tools_result` hooks in order.
pub fn modify_list_tools_chain(
    chain: &Vec<ClientMiddlewareInstance>,
    request_id: u128,
    result: &mut ListToolsResult,
)
    ensures
        tools_view(final(result).tools@) == chain_tools(
            client_kinds(chain@),
            tools_view(old(result).tools@),
        ),
        final(result).next_cursor == old(result).next_cursor,
{
    let ghost kinds = client_kinds(chain@);
    let n = chain.len();
    for i in 0..n
        invariant
            n == chain@.len(),
            kinds == client_kinds(chain@),
            tools_view(result.tools@) == chain_tools(kinds.take(i as int), tools_view(old(result).tools@)),
            result.next_cursor == old(result).next_cursor,
    {
        proof {
            assert(kinds.take(i + 1).drop_last() == kinds.take(i as int));
            assert(kinds.take(i + 1).last() == client_kind(&chain@[i as int]));
        }
        chain[i].modify_list_tools_result(request_id, result);
    }
    proof {
        assert(kinds.take(n as int) == kinds);
    }
}

/// Once a prefix of the chain blocks, the whole chain blocks with the same message.
proof fn lemma_chain_block_prefix(kinds: Seq<ClientKind>, content: Seq<char>, k: int)
    requires
        0 <= k <= kinds.len(),
        chain_block(kinds.take(k), content) is Some,
    ensures
        chain_block(kinds, content) == chain_block(kinds.take(k), content),
    decreases kinds.len() - k,
{
    if k < kinds.len() {
        assert(kinds.take(k + 1).drop_last() == kinds.take(k));
        lemma_chain_block_prefix(kinds, content, k + 1);
    } else {
        assert(kinds.take(k) == kinds);
    }
}

/// Whether the `before_call_tool` hook of the middleware at position `i` is
/// reached: no middleware before it blocks the call.
pub open spec fn hook_reached(kinds: Seq<ClientKind>, content: Seq<char>, i: int) -> bool {
    forall|j: int| 0 <= j < i ==> call_block(#[trigger] kinds[j], content) is None
}

/// Where no middleware before position `k` blocks a call, the first `k`
/// middleware together do not block it.
proof fn lemma_reached_not_blocked(kinds: Seq<ClientKind>, content: Seq<char>, k: int)
    requires
        0 <= k <= kinds.len(),
        hook_reached(kinds, content, k),
    ensures
        chain_block(kinds.take(k), content) is None,
    decreases k,
{
    if k > 0 {
        assert(kinds.take(k).drop_last() == kinds.take(k - 1));
        assert(kinds.take(k).last() == kinds[k - 1]);
        lemma_reached_not_blocked(kinds, content, k - 1);
    }
}

/// The middleware that blocks a call is the first that would: the chain
/// blocks the call with its message, every middleware up to it sees the
/// call, and none after it does.
pub proof fn lemma_blocking_middleware_decides(kinds: Seq<ClientKind>, content: Seq<char>, at: int)
    requires
        0 <= at < kinds.len(),
        hook_reached(kinds, content, at),
        call_block(kinds[at], content) is Some,
    ensures
        chain_block(kinds, content) == call_block(kinds[at], content),
        forall|i: int| 0 <= i <= at ==> hook_reached(kinds, content, i),
        forall|i: int| at < i <= kinds.len() ==> !hook_reached(kinds, content, i),
{
    lemma_reached_not_blocked(kinds, content, at);
    assert(kinds.take(at + 1).drop_last() == kinds.take(at));
    assert(kinds.take(at + 1).last() == kinds[at]);
    lemma_chain_block_prefix(kinds, content, at + 1);
    assert forall|i: int| at < i <= kinds.len() implies !hook_reached(kinds, content, i) by {
        assert(0 <= at < i);
    }
}

/// The timing records of a middleware after a start hook for `operation`
/// at `now`: a logging middleware records the start.
pub open spec fn started(t: Option<Map<u128, (Seq<char>, u64)>>, id: u128, operation: Seq<char>, now: u64) -> Option<
    Map<u128, (Seq<char>, u64)>,
> {
    match t {
        Some(m) => Some(m.insert(id, (operation, now))),
        None => None,
    }
}

/// The time elapsed since a recorded start, or zero if the clock reads earlier.
pub open spec fn elapsed_since(start: u64, now: u64) -> u64 {
    if now >= start {
        (now - start) as u64
    } else {
        0u64
    }
}

/// What the completion hook of a middleware with the timing records `t`
/// gives for the request: the operation and the time elapsed, where a
/// logging middleware recorded its start.
pub open spec fn taken(t: Option<Map<u128, (Seq<char>, u64)>>, id: u128, now: u64) -> Option<(Seq<char>, u64)> {
    match t {
        Some(m) => if m.contains_key(id) {
            Some((m[id].0, elapsed_since(m[id].1, now)))
        } else {
            None
        },
        None => None,
    }
}

/// The timing records of a middleware after its completion hook.
pub open spec fn finished(t: Option<Map<u128, (Seq<char>, u64)>>, id: u128) -> Option<Map<u128, (Seq<char>, u64)>> {
    match t {
        Some(m) => Some(m.remove(id)),
        None => None,
    }
}

/// The completion hook of a middleware gives back what its start hook
/// recorded for the request: a logging middleware gives the operation and
/// the time elapsed since the start, and keeps no record of the request
/// afterwards, as if it had never started.
pub proof fn lemma_start_then_finish(
    t: Option<Map<u128, (Seq<char>, u64)>>,
    id: u128,
    operation: Seq<char>,
    start: u64,
    now: u64,
)
    ensures
        taken(started(t, id, operation, start), id, now) == match t {
            Some(_) => Some((operation, elapsed_since(start, now))),
            None => None::<(Seq<char>, u64)>,
        },
        finished(started(t, id, operation, start), id) == finished(t, id),
{
    match t {
        Some(m) => {
            assert(m.insert(id, (operation, start)).remove(id) =~= m.remove(id));
        },
        None => {},
    }
}

/// The values of the completion hooks' results.
pub open spec fn taken_view(s: Seq<Option<(String, u64)>>) -> Seq<Option<(Seq<char>, u64)>> {
    s.map_values(
        |x: Option<(String, u64)>|
            match x {
                Some((op, e)) => Some((op@, e)),
                None => None,
            },
    )
}

/// What to do with a tool call once the `before_call_tool` hooks have run.
pub enum CallStep {
    /// Call the server.
    CallServer,
    /// Do not call the server: answer an error result (`is_error`) whose
    /// text is the message, then run the completion hooks. `at` is the
    /// position of the middleware that blocked the call.
    Blocked { message: String, at: usize },
}

/// The client middleware of one server, run around every operation on it:
/// the start hooks, the operation on the server, the completion hooks, and,
/// for a successful tool listing, the modification hooks, each in the order
/// of the middleware.
pub struct MiddlewareAppliedClient {
    /// The middleware, in order.
    pub middleware: Vec<ClientMiddlewareInstance>,
}

impl MiddlewareAppliedClient {
    /// The middleware of a server.
    pub fn new(middleware: Vec<ClientMiddlewareInstance>) -> (r: Self)
        ensures
            r.middleware == middleware,
    {
        MiddlewareAppliedClient { middleware }
    }

    /// Runs the start hooks of an operation other than a tool call, every one
    /// of them: logging middleware records the start of `operation` at `now`.
    pub fn start_operation(&mut self, request_id: u128, operation: &str, now: u64)
        ensures
            client_kinds(final(self).middleware@) == client_kinds(old(self).middleware@),
            final(self).middleware@.len() == old(self).middleware@.len(),
            forall|i: int|
                0 <= i < old(self).middleware@.len() ==> logging_timings(
                    &#[trigger] final(self).middleware@[i],
                ) == started(logging_timings(&old(self).middleware@[i]), request_id, operation@, now),
    {
        let n = self.middleware.len();
        for i in 0..n
            invariant
                n == self.middleware@.len(),
                n == old(self).middleware@.len(),
                forall|j: int| 0 <= j < n ==> client_kind(&#[trigger] self.middleware@[j]) == client_kind(&old(self).middleware@[j]),
                forall|j: int| i <= j < n ==> #[trigger] self.middleware@[j] == old(self).middleware@[j],
                forall|j: int|
                    0 <= j < i ==> logging_timings(&#[trigger] self.middleware@[j]) == started(
                        logging_timings(&old(self).middleware@[j]),
                        request_id,
                        operation@,
                        now,
                    ),
        {
            let ghost before = self.middleware@;
            self.middleware[i].before_operation(request_id, operation, now);
            proof {
                assert forall|j: int| 0 <= j < n && j != i implies self.middleware@[j] == before[j] by {}
            }
        }
        proof {
            assert(client_kinds(self.middleware@) =~= client_kinds(old(self).middleware@));
        }
    }

    /// Runs the start hooks of a tool call, in order, up to the first
    /// middleware that blocks it: each hook reached records the start of
    /// `call_tool` at `now` in a logging middleware, and a security
    /// middleware blocks the call when one of its rules matches. The step is
    /// to answer the first block's message without calling the server, or to
    /// call the server where none blocks.
    pub fn start_call(&mut self, request_id: u128, request: &CallToolRequestParam, now: u64) -> (r: CallStep)
        ensures
            client_kinds(final(self).middleware@) == client_kinds(old(self).middleware@),
            final(self).middleware@.len() == old(self).middleware@.len(),
            forall|i: int|
                0 <= i < old(self).middleware@.len() ==> logging_timings(
                    &#[trigger] final(self).middleware@[i],
                ) == if hook_reached(
                    client_kinds(old(self).middleware@),
                    searchable_content(request.name@, opt_view(request.arguments)),
                    i,
                ) {
                    started(logging_timings(&old(self).middleware@[i]), request_id, "call_tool"@, now)
                } else {
                    logging_timings(&old(self).middleware@[i])
                },
            match chain_block(
                client_kinds(old(self).middleware@),
                searchable_content(request.name@, opt_view(request.arguments)),
            ) {
                Some(m) => r matches CallStep::Blocked { message, at } && message@ == m
                    && at < old(self).middleware@.len() && hook_reached(
                    client_kinds(old(self).middleware@),
                    searchable_content(request.name@, opt_view(request.arguments)),
                    at as int,
                ) && call_block(
                    client_kinds(old(self).middleware@)[at as int],
                    searchable_content(request.name@, opt_view(request.arguments)),
                ) == Some(m),
                None => r is CallServer,
            },
    {
        let ghost content = searchable_content(request.name@, opt_view(request.arguments));
        let ghost kinds = client_kinds(self.middleware@);
        let n = self.middleware.len();
        let mut i: usize = 0;
        while i < n
            invariant
                i <= n,
                n == self.middleware@.len(),
                n == old(self).middleware@.len(),
                kinds == client_kinds(old(self).middleware@),
                content == searchable_content(request.name@, opt_view(request.arguments)),
                forall|j: int| 0 <= j < n ==> client_kind(&#[trigger] self.middleware@[j]) == client_kind(&old(self).middleware@[j]),
                forall|j: int| i <= j < n ==> #[trigger] self.middleware@[j] == old(self).middleware@[j],
                forall|j: int|
                    0 <= j < i ==> logging_timings(&#[trigger] self.middleware@[j]) == started(
                        logging_timings(&old(self).middleware@[j]),
                        request_id,
                        "call_tool"@,
                        now,
                    ),
                hook_reached(kinds, content, i as int),
                chain_block(kinds.take(i as int), content) is None,
            decreases n - i,
        {
            proof {
                reveal_strlit("call_tool");
                assert(kinds.take(i + 1).drop_last() == kinds.take(i as int));
                assert(kinds.take(i + 1).last() == kinds[i as int]);
                assert(kinds[i as int] == client_kind(&old(self).middleware@[i as int]));
            }
            let ghost before = self.middleware@;
            self.middleware[i].before_operation(request_id, "call_tool", now);
            proof {
                assert forall|j: int| 0 <= j < n && j != i implies self.middleware@[j] == before[j] by {}
            }
            match self.middleware[i].before_call_tool(request_id, request) {
                MiddlewareResult::Block(message) => {
                    proof {
                        lemma_chain_block_prefix(kinds, content, i + 1);
                        assert(client_kinds(self.middleware@) =~= kinds);
                        assert forall|j: int| 0 <= j < n implies logging_timings(
                            &#[trigger] self.middleware@[j],
                        ) == if hook_reached(kinds, content, j) {
                            started(logging_timings(&old(self).middleware@[j]), request_id, "call_tool"@, now)
                        } else {
                            logging_timings(&old(self).middleware@[j])
                        } by {
                            if j > i {
                                assert(!hook_reached(kinds, content, j) || call_block(kinds[i as int], content) is None);
                            } else {
                                assert(hook_reached(kinds, content, j));
                            }
                        }
                    }
                    return CallStep::Blocked { message, at: i };
                },
                MiddlewareResult::Continue => {},
            }
            i = i + 1;
        }
        proof {
            assert(kinds.take(n as int) == kinds);
            assert(client_kinds(self.middleware@) =~= kinds);
            assert forall|j: int| 0 <= j < n implies hook_reached(kinds, content, j) by {}
        }
        CallStep::CallServer
    }

    /// Runs the completion hooks of an operation, every one of them, in
    /// order: a logging middleware removes the request's start record and
    /// gives the operation and the time elapsed to `now`.
    pub fn finish_operation(&mut self, request_id: u128, now: u64) -> (r: Vec<Option<(String, u64)>>)
        ensures
            client_kinds(final(self).middleware@) == client_kinds(old(self).middleware@),
            final(self).middleware@.len() == old(self).middleware@.len(),
            r@.len() == old(self).middleware@.len(),
            forall|i: int|
                0 <= i < old(self).middleware@.len() ==> logging_timings(
                    &#[trigger] final(self).middleware@[i],
                ) == finished(logging_timings(&old(self).middleware@[i]), request_id),
            forall|i: int|
                0 <= i < old(self).middleware@.len() ==> #[trigger] taken_view(r@)[i] == taken(
                    logging_timings(&old(self).middleware@[i]),
                    request_id,
                    now,
                ),
    {
        let n = self.middleware.len();
        let mut out: Vec<Option<(String, u64)>> = Vec::new();
        for i in 0..n
            invariant
                n == self.middleware@.len(),
                n == old(self).middleware@.len(),
                out@.len() == i,
                forall|j: int| 0 <= j < n ==> client_kind(&#[trigger] self.middleware@[j]) == client_kind(&old(self).middleware@[j]),
                forall|j: int| i <= j < n ==> #[trigger] self.middleware@[j] == old(self).middleware@[j],
                forall|j: int|
                    0 <= j < i ==> logging_timings(&#[trigger] self.middleware@[j]) == finished(
                        logging_timings(&old(self).middleware@[j]),
                        request_id,
                    ),
                forall|j: int|
                    0 <= j < i ==> #[trigger] taken_view(out@)[j] == taken(
                        logging_timings(&old(self).middleware@[j]),
                        request_id,
                        now,
                    ),
        {
            let ghost before = self.middleware@;
            let ghost before_out = out@;
            let t = self.middleware[i].after_operation(request_id, now);
            out.push(t);
            proof {
                assert forall|j: int| 0 <= j < n && j != i implies self.middleware@[j] == before[j] by {}
                assert(before[i as int] == old(self).middleware@[i as int]);
                assert(taken_view(out@) =~= taken_view(before_out).push(
                    match t {
                        Some((op, e)) => Some((op@, e)),
                        None => None,
                    },
                ));
                assert(taken_view(out@)[i as int] == taken(
                    logging_timings(&old(self).middleware@[i as int]),
                    request_id,
                    now,
                ));
                assert forall|j: int| 0 <= j < i + 1 implies #[trigger] taken_view(out@)[j] == taken(
                    logging_timings(&old(self).middleware@[j]),
                    request_id,
                    now,
                ) by {
                    if j < i {
                        assert(taken_view(out@)[j] == taken_view(before_out)[j]);
                    }
                }
            }
        }
        proof {
            assert(client_kinds(self.middleware@) =~= client_kinds(old(self).middleware@));
        }
        out
    }

    /// Runs the completion hooks of a tool listing, then, only where the
    /// listing succeeded, the modification hooks in order: tool filters
    /// remove tools. A failed listing is returned unchanged.
    pub fn finish_tool_listing(
        &mut self,
        request_id: u128,
        now: u64,
        result: &mut Result<ListToolsResult, String>,
    ) -> (r: Vec<Option<(String, u64)>>)
        ensures
            client_kinds(final(self).middleware@) == client_kinds(old(self).middleware@),
            final(self).middleware@.len() == old(self).middleware@.len(),
            r@.len() == old(self).middleware@.len(),
            forall|i: int|
                0 <= i < old(self).middleware@.len() ==> logging_timings(
                    &#[trigger] final(self).middleware@[i],
                ) == finished(logging_timings(&old(self).middleware@[i]), request_id),
            forall|i: int|
                0 <= i < old(self).middleware@.len() ==> #[trigger] taken_view(r@)[i] == taken(
                    logging_timings(&old(self).middleware@[i]),
                    request_id,
                    now,
                ),
            match *old(result) {
                Ok(l) => *final(result) matches Ok(m) && tools_view(m.tools@) == chain_tools(
                    client_kinds(old(self).middleware@),
                    tools_view(l.tools@),
                ) && m.next_cursor == l.next_cursor,
                Err(e) => *final(result) == Err::<ListToolsResult, String>(e),
            },
    {
        let r = self.finish_operation(request_id, now);
        match result {
            Ok(listing) => modify_list_tools_chain(&self.middleware, request_id, listing),
            Err(_) => {},
        }
        r
    }
}

} // verus!
