//! Logging middleware that logs all client operations with timing.
//!
//! The library keeps the per-request timing records; the clock readings are
//! handed in as ticks (for instance nanoseconds since a fixed instant) and
//! the log lines are written by the caller.
use crate::config::MiddlewareSettings;
use crate::error::ProxyError;
use crate::middleware::client::{client_kind, logging_timings, ClientKind, ClientMiddlewareInstance};
use crate::text::{concat3, decimal, decimal_text, owned, text_eq};
use std::collections::HashMap;
use vstd::prelude::*;
use vstd::std_specs::hash::*;
use vstd::string::*;
use vstd::arithmetic::power::pow;

verus! {

broadcast use group_hash_axioms;

/// Request timing information with operation context.
pub struct RequestTiming {
    /// The operation that started.
    pub operation: String,
    /// The clock reading when it started.
    pub start: u64,
}

/// Per-request timing records, keyed by request id.
pub struct RequestTimings {
    timings: HashMap<u128, RequestTiming>,
}

impl View for RequestTimings {
    type V = Map<u128, (Seq<char>, u64)>;

    closed spec fn view(&self) -> Map<u128, (Seq<char>, u64)> {
        self.timings@.map_values(|t: RequestTiming| (t.operation@, t.start))
    }
}

impl RequestTimings {
    /// No records.
    pub fn new() -> (r: Self)
        ensures
            r@ == Map::<u128, (Seq<char>, u64)>::empty(),
    {
        let r = RequestTimings { timings: HashMap::new() };
        proof {
            assert(r@ =~= Map::<u128, (Seq<char>, u64)>::empty());
        }
        r
    }

    /// Records that `operation` started at `now` for the request.
    pub fn set_start_time(&mut self, request_id: u128, operation: &str, now: u64)
        ensures
            final(self)@ == old(self)@.insert(request_id, (operation@, now)),
    {
        let t = RequestTiming { operation: owned(operation), start: now };
        self.timings.insert(request_id, t);
        proof {
            assert(self@ =~= old(self)@.insert(request_id, (operation@, now)));
        }
    }

    /// Removes the record of the request and gives its operation and the time
    /// elapsed from its start to `now` (zero if the clock reads earlier).
    pub fn take_duration(&mut self, request_id: u128, now: u64) -> (r: Option<(String, u64)>)
        ensures
            final(self)@ == old(self)@.remove(request_id),
            match r {
                Some((op, elapsed)) => old(self)@.contains_key(request_id) && op@ == old(
                    self,
                )@[request_id].0 && elapsed == if now >= old(self)@[request_id].1 {
                    (now - old(self)@[request_id].1) as u64
                } else {
                    0u64
                },
                None => !old(self)@.contains_key(request_id),
            },
    {
        let removed = self.timings.remove(&request_id);
        proof {
            assert(self@ =~= old(self)@.remove(request_id));
        }
        match removed {
            Some(t) => {
                let elapsed = if now >= t.start {
                    now - t.start
                } else {
                    0
                };
                Some((t.operation, elapsed))
            },
            None => None,
        }
    }
}

/// Records of different requests do not disturb each other: after request
/// `a` starts and then request `b` starts, the record of `a` is the one its
/// start wrote, and taking `b`'s record leaves it there.
pub proof fn lemma_request_records_independent(
    t: Map<u128, (Seq<char>, u64)>,
    a: u128,
    record_a: (Seq<char>, u64),
    b: u128,
    record_b: (Seq<char>, u64),
)
    requires
        a != b,
    ensures
        t.insert(a, record_a).insert(b, record_b).contains_key(a),
        t.insert(a, record_a).insert(b, record_b)[a] == record_a,
        t.insert(a, record_a).insert(b, record_b).remove(b).contains_key(a),
        t.insert(a, record_a).insert(b, record_b).remove(b)[a] == record_a,
{
}

/// A human-readable description of an operation.
pub open spec fn operation_description_text(operation: Seq<char>) -> Seq<char> {
    if operation == "list_tools"@ {
        "Listing tools"@
    } else if operation == "call_tool"@ {
        "Tool call"@
    } else if operation == "list_prompts"@ {
        "Listing prompts"@
    } else if operation == "list_resources"@ {
        "Listing resources"@
    } else {
        "Operation"@
    }
}

/// The symbol that starts the log line of an operation.
pub open spec fn operation_emoji(operation: Seq<char>) -> Seq<char> {
    if operation == "list_tools"@ {
        "📋"@
    } else if operation == "call_tool"@ {
        "🔧"@
    } else if operation == "list_prompts"@ {
        "💬"@
    } else if operation == "list_resources"@ {
        "📁"@
    } else {
        "🔄"@
    }
}

/// The lowercase hexadecimal digit of a value below sixteen.
pub open spec fn hex_digit(n: int) -> char {
    if n < 10 {
        ('0' as int + n) as char
    } else {
        ('a' as int + (n - 10)) as char
    }
}

/// The 32 hexadecimal digits of a 128-bit value, most significant first.
pub open spec fn hex_digits(id: u128) -> Seq<char> {
    Seq::new(32, |i: int| hex_digit((id as int / pow(16, (31 - i) as nat)) % 16))
}

/// The text of a request id: the UUID with those 128 bits, in the
/// hyphenated form: lowercase hexadecimal digits grouped 8-4-4-4-12.
pub open spec fn uuid_text(id: u128) -> Seq<char> {
    let h = hex_digits(id);
    h.subrange(0, 8) + seq!['-'] + h.subrange(8, 12) + seq!['-'] + h.subrange(12, 16) + seq!['-']
        + h.subrange(16, 20) + seq!['-'] + h.subrange(20, 32)
}

/// `uuid::Uuid::from_u128(id).to_string()`: the UUID whose bytes are those of
/// `id`, most significant first, written hyphenated in lowercase.
#[verifier::external_body]
pub(crate) fn uuid_string(id: u128) -> (r: String)
    ensures
        r@ == uuid_text(id),
{
    uuid::Uuid::from_u128(id).to_string()
}

/// The short form of a request id in log lines: its first eight characters.
pub open spec fn short_id_text(id: u128) -> Seq<char> {
    uuid_text(id).take(8)
}

/// The line logged when an operation starts.
pub open spec fn start_line(server: Seq<char>, operation: Seq<char>, id: u128) -> Seq<char> {
    operation_emoji(operation) + " ["@ + server + "] "@ + operation_description_text(operation)
        + " ("@ + short_id_text(id) + ")"@
}

/// The line logged when a timed operation completes, `duration` being the
/// text of the elapsed time.
pub open spec fn completion_line(
    server: Seq<char>,
    operation: Seq<char>,
    id: u128,
    duration: Seq<char>,
    success: bool,
    details: Seq<char>,
) -> Seq<char> {
    (if success {
        "✅"@
    } else {
        "❌"@
    }) + " ["@ + server + "] "@ + operation_description_text(operation) + " "@ + (if success {
        "completed"@
    } else {
        "failed"@
    }) + " in "@ + duration + " - "@ + details + " ("@ + short_id_text(id) + ")"@
}

/// The operations whose outcome is logged.
#[derive(Clone, Copy, Debug)]
pub enum Operation {
    ListTools,
    CallTool,
    ListPrompts,
    ListResources,
}

/// The name by which an operation's timing is recorded.
pub open spec fn operation_name(operation: Operation) -> Seq<char> {
    match operation {
        Operation::ListTools => "list_tools"@,
        Operation::CallTool => "call_tool"@,
        Operation::ListPrompts => "list_prompts"@,
        Operation::ListResources => "list_resources"@,
    }
}

impl Operation {
    /// The name by which the operation's timing is recorded.
    pub fn name(&self) -> (r: &'static str)
        ensures
            r@ == operation_name(*self),
    {
        match self {
            Operation::ListTools => "list_tools",
            Operation::CallTool => "call_tool",
            Operation::ListPrompts => "list_prompts",
            Operation::ListResources => "list_resources",
        }
    }
}

/// The line logged when an operation completes without a timing record:
/// the number of items listed, or the text of the error.
pub open spec fn untimed_line(server: Seq<char>, operation: Operation, id: u128, outcome: Result<nat, Seq<char>>) -> Seq<char> {
    let tail = " ("@ + short_id_text(id) + ")"@;
    match outcome {
        Ok(n) => "✅ ["@ + server + "] "@ + match operation {
            Operation::ListTools => "Listed "@ + decimal(n) + " tools successfully"@,
            Operation::CallTool => "Tool call successful"@,
            Operation::ListPrompts => "Listed "@ + decimal(n) + " prompts successfully"@,
            Operation::ListResources => "Listed "@ + decimal(n) + " resources successfully"@,
        } + tail,
        Err(e) => "❌ ["@ + server + "] "@ + match operation {
            Operation::ListTools => "Failed to list tools: "@,
            Operation::CallTool => "Tool call failed: "@,
            Operation::ListPrompts => "Failed to list prompts: "@,
            Operation::ListResources => "Failed to list resources: "@,
        } + e + tail,
    }
}

/// Logging middleware that logs all client operations with timing.
///
/// Each request id gets its own timing record, so concurrent requests
/// do not disturb each other's timing.
pub struct LoggingClientMiddleware {
    server_name: String,
    request_timings: RequestTimings,
}

impl LoggingClientMiddleware {
    /// The name of the server whose operations are logged.
    pub closed spec fn server(&self) -> Seq<char> {
        self.server_name@
    }

    /// The timing records of the requests in flight.
    pub closed spec fn timings(&self) -> Map<u128, (Seq<char>, u64)> {
        self.request_timings@
    }

    /// A logging middleware for the server, with no request in flight.
    pub fn new(server_name: String) -> (r: Self)
        ensures
            r.server() == server_name@,
            r.timings() == Map::<u128, (Seq<char>, u64)>::empty(),
    {
        LoggingClientMiddleware { server_name, request_timings: RequestTimings::new() }
    }

    /// The name of the server whose operations are logged.
    pub fn server_name(&self) -> (r: &String)
        ensures
            r@ == self.server(),
    {
        &self.server_name
    }

    /// Records the start of an operation.
    pub fn set_start_time(&mut self, request_id: u128, operation: &str, now: u64)
        ensures
            final(self).timings() == old(self).timings().insert(
                request_id,
                (operation@, now),
            ),
            final(self).server() == old(self).server(),
    {
        self.request_timings.set_start_time(request_id, operation, now);
    }

    /// Gets and removes the operation and elapsed time of a request.
    pub fn take_duration(&mut self, request_id: u128, now: u64) -> (r: Option<(String, u64)>)
        ensures
            final(self).timings() == old(self).timings().remove(request_id),
            final(self).server() == old(self).server(),
            match r {
                Some((op, elapsed)) => old(self).timings().contains_key(request_id)
                    && op@ == old(self).timings()[request_id].0 && elapsed == if now
                    >= old(self).timings()[request_id].1 {
                    (now - old(self).timings()[request_id].1) as u64
                } else {
                    0u64
                },
                None => !old(self).timings().contains_key(request_id),
            },
    {
        self.request_timings.take_duration(request_id, now)
    }

    /// The short form of a request id: the first eight characters of its UUID text.
    pub fn short_id(request_id: u128) -> (r: String)
        ensures
            r@ == short_id_text(request_id),
    {
        let full = uuid_string(request_id);
        let r = owned(full.as_str().substring_char(0, 8));
        proof {
            assert(full@.subrange(0, 8) =~= full@.take(8));
        }
        r
    }

    /// The line to log when an operation starts.
    pub fn log_start(&self, operation: &str, request_id: u128) -> (r: String)
        ensures
            r@ == start_line(self.server(), operation@, request_id),
    {
        let emoji = if text_eq(operation, "list_tools") {
            "📋"
        } else if text_eq(operation, "call_tool") {
            "🔧"
        } else if text_eq(operation, "list_prompts") {
            "💬"
        } else if text_eq(operation, "list_resources") {
            "📁"
        } else {
            "🔄"
        };
        let mut r = concat3(emoji, " [", self.server_name.as_str());
        r.append("] ");
        r.append(Self::operation_description(operation));
        r.append(" (");
        r.append(Self::short_id(request_id).as_str());
        r.append(")");
        r
    }

    /// The line to log when a timed operation completes; `duration` is the
    /// text of the elapsed time.
    pub fn log_completion(
        &self,
        operation: &str,
        request_id: u128,
        duration: &str,
        success: bool,
        details: &str,
    ) -> (r: String)
        ensures
            r@ == completion_line(self.server(), operation@, request_id, duration@, success, details@),
    {
        let mut r = concat3(if success {
            "✅"
        } else {
            "❌"
        }, " [", self.server_name.as_str());
        r.append("] ");
        r.append(Self::operation_description(operation));
        r.append(" ");
        r.append(if success {
            "completed"
        } else {
            "failed"
        });
        r.append(" in ");
        r.append(duration);
        r.append(" - ");
        r.append(details);
        r.append(" (");
        r.append(Self::short_id(request_id).as_str());
        r.append(")");
        r
    }

    /// The line to log when a tool call starts.
    pub fn call_start(&self, tool_name: &str, request_id: u128) -> (r: String)
        ensures
            r@ == "🔧 ["@ + self.server() + "] Calling tool: "@ + tool_name@ + " ("@ + short_id_text(
                request_id,
            ) + ")"@,
    {
        let mut r = concat3("🔧 [", self.server_name.as_str(), "] Calling tool: ");
        r.append(tool_name);
        r.append(" (");
        r.append(Self::short_id(request_id).as_str());
        r.append(")");
        r
    }

    /// The details of a successful listing: the number of items and their kind.
    pub fn listing_details(count: usize, noun: &str) -> (r: String)
        ensures
            r@ == decimal(count as nat) + " "@ + noun@,
    {
        let n = decimal_text(count as u64);
        concat3(n.as_str(), " ", noun)
    }

    /// The line to log when an operation completes without a timing record.
    pub fn untimed_completion(&self, operation: Operation, request_id: u128, outcome: &Result<usize, String>) -> (r: String)
        ensures
            r@ == untimed_line(
                self.server(),
                operation,
                request_id,
                match outcome {
                    Ok(n) => Ok(*n as nat),
                    Err(e) => Err(e@),
                },
            ),
    {
        let mut r = match outcome {
            Ok(_) => concat3("✅ [", self.server_name.as_str(), "] "),
            Err(_) => concat3("❌ [", self.server_name.as_str(), "] "),
        };
        match outcome {
            Ok(n) => match operation {
                Operation::ListTools => {
                    r.append("Listed ");
                    r.append(decimal_text(*n as u64).as_str());
                    r.append(" tools successfully");
                },
                Operation::CallTool => r.append("Tool call successful"),
                Operation::ListPrompts => {
                    r.append("Listed ");
                    r.append(decimal_text(*n as u64).as_str());
                    r.append(" prompts successfully");
                },
                Operation::ListResources => {
                    r.append("Listed ");
                    r.append(decimal_text(*n as u64).as_str());
                    r.append(" resources successfully");
                },
            },
            Err(e) => {
                match operation {
                    Operation::ListTools => r.append("Failed to list tools: "),
                    Operation::CallTool => r.append("Tool call failed: "),
                    Operation::ListPrompts => r.append("Failed to list prompts: "),
                    Operation::ListResources => r.append("Failed to list resources: "),
                }
                r.append(e.as_str());
            },
        }
        r.append(" (");
        r.append(Self::short_id(request_id).as_str());
        r.append(")");
        r
    }

    /// A human-readable description for an operation.
    pub fn operation_description(operation: &str) -> (r: &'static str)
        ensures
            r@ == operation_description_text(operation@),
    {
        if text_eq(operation, "list_tools") {
            "Listing tools"
        } else if text_eq(operation, "call_tool") {
            "Tool call"
        } else if text_eq(operation, "list_prompts") {
            "Listing prompts"
        } else if text_eq(operation, "list_resources") {
            "Listing resources"
        } else {
            "Operation"
        }
    }
}

/// Factory for creating LoggingClientMiddleware from configuration.
pub struct LoggingClientFactory;

impl LoggingClientFactory {
    /// Creates the middleware for a server; the configuration is not read.
    pub fn create(&self, server_name: &str, config: &MiddlewareSettings) -> (r: Result<
        ClientMiddlewareInstance,
        ProxyError,
    >)
        ensures
            r matches Ok(m) && client_kind(&m) == ClientKind::Logging(server_name@) && logging_timings(
                &m,
            ) == Some(Map::<u128, (Seq<char>, u64)>::empty()),
    {
        Ok(ClientMiddlewareInstance::Logging(LoggingClientMiddleware::new(owned(server_name))))
    }

    /// The type name this factory handles.
    pub fn middleware_type(&self) -> (r: &'static str)
        ensures
            r@ == "logging"@,
    {
        "logging"
    }
}

} // verus!
