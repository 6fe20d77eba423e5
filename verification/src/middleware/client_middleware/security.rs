//! Security middleware that inspects tool call inputs and blocks unsafe calls.
use crate::error::{is_config_error, ProxyError};
use crate::matching::{compile_regex, is_match, regex_compile_error, regex_matches, CompiledRegex};
use crate::config::{MiddlewareSettings, MiddlewareSettingsView};
use crate::middleware::client::{client_kind, ClientKind, ClientMiddlewareInstance, MiddlewareResult};
use crate::model::CallToolRequestParam;
use crate::text::{concat2, concat3, owned};
use crate::middleware::client_middleware::logging::{uuid_string, uuid_text};
use vstd::prelude::*;
use vstd::string::*;

verus! {

/// Whether blocked calls are logged when a configuration does not say: yes.
pub fn default_log_blocked() -> (r: bool)
    ensures
        r == true,
{
    true
}

/// Whether a rule is enabled when a configuration does not say: yes.
pub fn default_enabled() -> (r: bool)
    ensures
        r == true,
{
    true
}

/// A security rule that checks tool call inputs.
pub struct SecurityRule {
    /// Name of the rule.
    pub name: String,
    /// Description of what the rule checks.
    pub description: String,
    /// Regex pattern to match against tool call inputs.
    pub pattern: String,
    /// Message to return when the rule is violated.
    pub block_message: String,
    /// Whether the rule is enabled.
    pub enabled: bool,
}

/// The mathematical value of a [`SecurityRule`].
pub struct SecurityRuleView {
    pub name: Seq<char>,
    pub description: Seq<char>,
    pub pattern: Seq<char>,
    pub block_message: Seq<char>,
    pub enabled: bool,
}

impl View for SecurityRule {
    type V = SecurityRuleView;

    open spec fn view(&self) -> SecurityRuleView {
        SecurityRuleView {
            name: self.name@,
            description: self.description@,
            pattern: self.pattern@,
            block_message: self.block_message@,
            enabled: self.enabled,
        }
    }
}

impl Clone for SecurityRule {
    fn clone(&self) -> (r: Self)
        ensures
            r@ == self@,
    {
        SecurityRule {
            name: self.name.clone(),
            description: self.description.clone(),
            pattern: self.pattern.clone(),
            block_message: self.block_message.clone(),
            enabled: self.enabled,
        }
    }
}

/// The values of a sequence of rules.
pub open spec fn rules_view(s: Seq<SecurityRule>) -> Seq<SecurityRuleView> {
    s.map_values(|r: SecurityRule| r@)
}

/// Configuration for security middleware.
pub struct SecurityConfig {
    /// List of security rules to check.
    pub rules: Vec<SecurityRule>,
    /// Whether to log blocked calls.
    pub log_blocked: bool,
}

impl Clone for SecurityConfig {
    fn clone(&self) -> (r: Self)
        ensures
            rules_view(r.rules@) == rules_view(self.rules@),
            r.log_blocked == self.log_blocked,
    {
        let mut rules: Vec<SecurityRule> = Vec::new();
        for i in 0..self.rules.len()
            invariant
                rules_view(rules@) == rules_view(self.rules@.take(i as int)),
        {
            let r = self.rules[i].clone();
            rules.push(r);
            proof {
                assert(rules_view(self.rules@.take(i + 1)) == rules_view(
                    self.rules@.take(i as int),
                ).push(self.rules@[i as int]@));
                assert(rules_view(rules@) == rules_view(rules@.drop_last()).push(r@));
            }
        }
        proof {
            assert(self.rules@.take(self.rules@.len() as int) == self.rules@);
        }
        SecurityConfig { rules, log_blocked: self.log_blocked }
    }
}

/// A rule built from its parts.
fn rule(name: &str, description: &str, pattern: &str, block_message: &str) -> (r: SecurityRule)
    ensures
        r@ == (SecurityRuleView {
            name: name@,
            description: description@,
            pattern: pattern@,
            block_message: block_message@,
            enabled: true,
        }),
{
    SecurityRule {
        name: owned(name),
        description: owned(description),
        pattern: owned(pattern),
        block_message: owned(block_message),
        enabled: true,
    }
}

/// The rules of the default security configuration.
pub open spec fn default_security_rules() -> Seq<SecurityRuleView> {
    seq![
        SecurityRuleView {
            name: "no_system_commands"@,
            description: "Block system commands and shell injection attempts"@,
            pattern: r"(?i)(rm\s+-rf|sudo\s+|passwd\s+|shutdown|reboot|format|del\s+/|rd\s+/s)"@,
            block_message: "System commands are not allowed"@,
            enabled: true,
        },
        SecurityRuleView {
            name: "no_sensitive_files"@,
            description: "Block access to sensitive system files"@,
            pattern: r"(?i)(/etc/passwd|/etc/shadow|\.ssh/|\.aws/|\.env|config\.json|secrets?)"@,
            block_message: "Access to sensitive files is not allowed"@,
            enabled: true,
        },
        SecurityRuleView {
            name: "no_network_commands"@,
            description: "Block network-related commands"@,
            pattern: r"(?i)(curl|wget|nc|netcat|telnet|ssh|ftp|sftp)\s+"@,
            block_message: "Network commands are not allowed"@,
            enabled: true,
        },
    ]
}

/// The searchable content of a call begins with `tool_name:` and the tool's
/// name, whatever its arguments; the arguments' text follows it.
pub proof fn lemma_searchable_content_starts_with_name(name: Seq<char>, arguments: Option<Seq<char>>)
    ensures
        searchable_content(name, arguments).take(10 + name.len() as int) == "tool_name:"@ + name,
        arguments matches Some(a) ==> searchable_content(name, arguments).len() >= a.len() && searchable_content(
            name,
            arguments,
        ).subrange(searchable_content(name, arguments).len() - a.len(), searchable_content(name, arguments).len() as int)
            == a,
{
    reveal_strlit("tool_name:");
    reveal_strlit(" args:");
    let c = searchable_content(name, arguments);
    assert(c.take(10 + name.len() as int) =~= "tool_name:"@ + name);
    match arguments {
        Some(a) => {
            assert(c.subrange(c.len() - a.len(), c.len() as int) =~= a);
        },
        None => {},
    }
}

/// A pattern with no anchor (`^` or `$`): it may match anywhere in a text.
pub open spec fn unanchored(pattern: Seq<char>) -> bool {
    forall|c: int| 0 <= c < pattern.len() ==> #[trigger] pattern[c] != '^' && pattern[c] != '$'
}

/// The default rules are the three that the documentation lists, in order,
/// all enabled: system commands, sensitive files and network commands, with
/// their patterns and block messages. None of their patterns is anchored, so
/// each matches wherever a listed command or path occurs in a call's
/// searchable content, which begins with `tool_name:`.
pub proof fn lemma_default_rules()
    ensures
        default_security_rules().len() == 3,
        default_security_rules()[0].name == "no_system_commands"@,
        default_security_rules()[0].pattern
            == r"(?i)(rm\s+-rf|sudo\s+|passwd\s+|shutdown|reboot|format|del\s+/|rd\s+/s)"@,
        default_security_rules()[0].block_message == "System commands are not allowed"@,
        default_security_rules()[1].name == "no_sensitive_files"@,
        default_security_rules()[1].pattern
            == r"(?i)(/etc/passwd|/etc/shadow|\.ssh/|\.aws/|\.env|config\.json|secrets?)"@,
        default_security_rules()[1].block_message == "Access to sensitive files is not allowed"@,
        default_security_rules()[2].name == "no_network_commands"@,
        default_security_rules()[2].pattern == r"(?i)(curl|wget|nc|netcat|telnet|ssh|ftp|sftp)\s+"@,
        default_security_rules()[2].block_message == "Network commands are not allowed"@,
        forall|i: int| 0 <= i < 3 ==> (#[trigger] default_security_rules()[i]).enabled,
        forall|i: int| 0 <= i < 3 ==> unanchored(#[trigger] default_security_rules()[i].pattern),
{
    reveal_strlit(r"(?i)(rm\s+-rf|sudo\s+|passwd\s+|shutdown|reboot|format|del\s+/|rd\s+/s)");
    reveal_strlit(r"(?i)(/etc/passwd|/etc/shadow|\.ssh/|\.aws/|\.env|config\.json|secrets?)");
    reveal_strlit(r"(?i)(curl|wget|nc|netcat|telnet|ssh|ftp|sftp)\s+");
    let d = default_security_rules();
    assert(unanchored(d[0].pattern));
    assert(unanchored(d[1].pattern));
    assert(unanchored(d[2].pattern));
}

impl Default for SecurityConfig {
    /// Three rules, all enabled: no system commands, no sensitive files, no
    /// network commands; blocked calls are logged.
    fn default() -> (r: Self)
        ensures
            rules_view(r.rules@) == default_security_rules(),
            r.log_blocked,
    {
        let mut rules: Vec<SecurityRule> = Vec::new();
        rules.push(
            rule(
                "no_system_commands",
                "Block system commands and shell injection attempts",
                r"(?i)(rm\s+-rf|sudo\s+|passwd\s+|shutdown|reboot|format|del\s+/|rd\s+/s)",
                "System commands are not allowed",
            ),
        );
        rules.push(
            rule(
                "no_sensitive_files",
                "Block access to sensitive system files",
                r"(?i)(/etc/passwd|/etc/shadow|\.ssh/|\.aws/|\.env|config\.json|secrets?)",
                "Access to sensitive files is not allowed",
            ),
        );
        rules.push(
            rule(
                "no_network_commands",
                "Block network-related commands",
                r"(?i)(curl|wget|nc|netcat|telnet|ssh|ftp|sftp)\s+",
                "Network commands are not allowed",
            ),
        );
        proof {
            assert(rules_view(rules@) =~= seq![rules@[0]@, rules@[1]@, rules@[2]@]);
        }
        SecurityConfig { rules, log_blocked: default_log_blocked() }
    }
}

/// The message of the configuration error for a rule whose pattern does not compile.
pub open spec fn rule_error_message(r: SecurityRuleView, err: Seq<char>) -> Seq<char> {
    "Invalid security rule '"@ + r.name + "' regex pattern '"@ + r.pattern + "': "@ + err
}

/// The configuration error that compiling `rules` gives: that of the first
/// enabled rule whose pattern does not compile.
pub open spec fn rules_error(rules: Seq<SecurityRuleView>) -> Option<Seq<char>>
    decreases rules.len(),
{
    if rules.len() == 0 {
        None
    } else {
        let before = rules_error(rules.drop_last());
        let r = rules.last();
        if before is Some {
            before
        } else if r.enabled && regex_compile_error(r.pattern) is Some {
            Some(rule_error_message(r, regex_compile_error(r.pattern)->0))
        } else {
            None
        }
    }
}

/// The text that the rules are matched against: the tool name, then the
/// arguments' JSON text when there are arguments.
pub open spec fn searchable_content(name: Seq<char>, arguments: Option<Seq<char>>) -> Seq<char> {
    match arguments {
        Some(a) => "tool_name:"@ + name + " args:"@ + a,
        None => "tool_name:"@ + name,
    }
}

/// The first enabled rule, in order, whose pattern matches `content`.
pub open spec fn blocking_rule(rules: Seq<SecurityRuleView>, content: Seq<char>) -> Option<SecurityRuleView>
    decreases rules.len(),
{
    if rules.len() == 0 {
        None
    } else {
        let before = blocking_rule(rules.drop_last(), content);
        let r = rules.last();
        if before is Some {
            before
        } else if r.enabled && regex_matches(r.pattern, content) {
            Some(r)
        } else {
            None
        }
    }
}

/// The block message of the first enabled rule whose pattern matches `content`.
pub open spec fn first_block(rules: Seq<SecurityRuleView>, content: Seq<char>) -> Option<Seq<char>> {
    match blocking_rule(rules, content) {
        Some(r) => Some(r.block_message),
        None => None,
    }
}

/// The searchable content as a blocked-call line shows it: its first 200
/// characters and an ellipsis where it is longer.
pub open spec fn content_preview(content: Seq<char>) -> Seq<char> {
    if content.len() > 200 {
        content.take(200) + "..."@
    } else {
        content
    }
}

/// The line logged when `rule` of the security middleware of `server`
/// blocks a call of `tool` whose searchable content is `content`.
pub open spec fn blocked_line(server: Seq<char>, rule: SecurityRuleView, tool: Seq<char>, content: Seq<char>) -> Seq<char> {
    "🚫 ["@ + server + "] Security rule '"@ + rule.name + "' blocked tool call: "@ + tool + " - "@
        + rule.block_message + " | Blocked content: "@ + content_preview(content)
}

/// The line logged when the security middleware of `server` checks a call
/// of `tool` with the given request id.
pub open spec fn check_line(server: Seq<char>, tool: Seq<char>, id: u128) -> Seq<char> {
    "🔒 ["@ + server + "] Security check for tool: "@ + tool + " ("@ + uuid_text(id) + ")"@
}

/// A compiled security rule with regex pattern.
struct CompiledSecurityRule {
    name: String,
    description: String,
    pattern: CompiledRegex,
    block_message: String,
    enabled: bool,
}

impl CompiledSecurityRule {
    /// The rule this was compiled from.
    spec fn rule_view(&self) -> SecurityRuleView {
        SecurityRuleView {
            name: self.name@,
            description: self.description@,
            pattern: self.pattern.source(),
            block_message: self.block_message@,
            enabled: self.enabled,
        }
    }
}

/// The rules that compiled rules were made from.
spec fn compiled_view(s: Seq<CompiledSecurityRule>) -> Seq<SecurityRuleView> {
    s.map_values(|r: CompiledSecurityRule| r.rule_view())
}

/// Security middleware that inspects tool call inputs and blocks unsafe calls.
///
/// This middleware checks tool call arguments against a set of configurable security rules.
/// If any rule matches, the call is blocked and a security error is returned.
pub struct SecurityClientMiddleware {
    server_name: String,
    rules: Vec<CompiledSecurityRule>,
    log_blocked: bool,
}

impl SecurityClientMiddleware {
    /// The rules in force, in order.
    pub closed spec fn active_rules(&self) -> Seq<SecurityRuleView> {
        compiled_view(self.rules@)
    }

    /// Whether blocked calls are logged.
    pub closed spec fn logs_blocked(&self) -> bool {
        self.log_blocked
    }

    /// The name of the server whose calls are checked.
    pub closed spec fn server(&self) -> Seq<char> {
        self.server_name@
    }

    /// Creates a new SecurityClientMiddleware with the given configuration:
    /// the enabled rules are compiled, in order; disabled rules are dropped.
    pub fn new(server_name: String, config: SecurityConfig) -> (r: Result<Self, ProxyError>)
        ensures
            match rules_error(rules_view(config.rules@)) {
                None => r matches Ok(m) && m.active_rules() == rules_view(config.rules@).filter(
                    |x: SecurityRuleView| x.enabled,
                ) && m.logs_blocked() == config.log_blocked && m.server() == server_name@,
                Some(msg) => r matches Err(e) && is_config_error(&e, msg),
            },
    {
        let ghost input = rules_view(config.rules@);
        let mut rules: Vec<CompiledSecurityRule> = Vec::new();
        let n = config.rules.len();
        for i in 0..n
            invariant
                n == config.rules@.len(),
                input == rules_view(config.rules@),
                rules_error(input.take(i as int)) is None,
                compiled_view(rules@) == input.take(i as int).filter(|x: SecurityRuleView| x.enabled),
        {
            let rule = &config.rules[i];
            proof {
                reveal(Seq::filter);
                assert(input.take(i + 1).drop_last() == input.take(i as int));
                assert(input.take(i + 1).last() == rule@);
            }
            if rule.enabled {
                match compile_regex(rule.pattern.as_str()) {
                    Ok(compiled) => {
                        let c = CompiledSecurityRule {
                            name: rule.name.clone(),
                            description: rule.description.clone(),
                            pattern: compiled,
                            block_message: rule.block_message.clone(),
                            enabled: rule.enabled,
                        };
                        rules.push(c);
                        proof {
                            assert(compiled_view(rules@) == compiled_view(rules@.drop_last()).push(
                                c.rule_view(),
                            ));
                        }
                    },
                    Err(e) => {
                        let mut msg = concat3(
                            "Invalid security rule '",
                            rule.name.as_str(),
                            "' regex pattern '",
                        );
                        msg.append(rule.pattern.as_str());
                        msg.append("': ");
                        msg.append(e.as_str());
                        proof {
                            lemma_rules_error_prefix(input, i as int + 1);
                        }
                        return Err(ProxyError::config(msg));
                    },
                }
            }
        }
        proof {
            assert(input.take(n as int) == input);
        }
        Ok(SecurityClientMiddleware { server_name, rules, log_blocked: config.log_blocked })
    }

    /// The position of the first rule, in order, whose pattern matches `content`.
    fn find_blocking_rule(&self, content: &str) -> (r: Option<usize>)
        ensures
            match r {
                Some(i) => i < self.active_rules().len() && blocking_rule(self.active_rules(), content@)
                    == Some(self.active_rules()[i as int]),
                None => blocking_rule(self.active_rules(), content@) is None,
            },
    {
        let ghost rules = self.active_rules();
        let mut found: Option<usize> = None;
        for i in 0..self.rules.len()
            invariant
                rules == self.active_rules(),
                rules.len() == self.rules@.len(),
                match found {
                    Some(k) => k < i && blocking_rule(rules.take(i as int), content@) == Some(rules[k as int]),
                    None => blocking_rule(rules.take(i as int), content@) is None,
                },
        {
            let rule = &self.rules[i];
            proof {
                assert(rules.take(i + 1).drop_last() == rules.take(i as int));
                assert(rules.take(i + 1).last() == rule.rule_view());
                assert(rules[i as int] == rule.rule_view());
            }
            if found.is_none() && rule.enabled && is_match(&rule.pattern, content) {
                found = Some(i);
            }
        }
        proof {
            assert(rules.take(self.rules@.len() as int) == rules);
        }
        found
    }

    /// The first rule, in order, whose pattern matches the call's searchable
    /// content decides: its block message is returned.
    pub fn check_security_rules(&self, request: &CallToolRequestParam) -> (r: Option<String>)
        ensures
            match first_block(
                self.active_rules(),
                searchable_content(request.name@, crate::model::opt_view(request.arguments)),
            ) {
                Some(m) => r matches Some(s) && s@ == m,
                None => r is None,
            },
    {
        let search_content = self.extract_searchable_content(request);
        match self.find_blocking_rule(search_content.as_str()) {
            Some(i) => Some(self.rules[i].block_message.clone()),
            None => None,
        }
    }

    /// The line to log when a rule blocks the call, where blocked calls are
    /// logged: the rule, the tool, the block message and a preview of the
    /// searchable content. None where no rule blocks or nothing is logged.
    pub fn blocked_call_line(&self, request: &CallToolRequestParam) -> (r: Option<String>)
        ensures
            match blocking_rule(
                self.active_rules(),
                searchable_content(request.name@, crate::model::opt_view(request.arguments)),
            ) {
                Some(rule) => if self.logs_blocked() {
                    r matches Some(s) && s@ == blocked_line(
                        self.server(),
                        rule,
                        request.name@,
                        searchable_content(request.name@, crate::model::opt_view(request.arguments)),
                    )
                } else {
                    r is None
                },
                None => r is None,
            },
    {
        if !self.log_blocked {
            return None;
        }
        let search_content = self.extract_searchable_content(request);
        match self.find_blocking_rule(search_content.as_str()) {
            Some(i) => {
                let rule = &self.rules[i];
                let len = search_content.as_str().unicode_len();
                let preview = if len > 200 {
                    concat2(search_content.as_str().substring_char(0, 200), "...")
                } else {
                    search_content.clone()
                };
                proof {
                    if len > 200 {
                        assert(search_content@.subrange(0, 200) =~= search_content@.take(200));
                    }
                }
                let mut line = concat3("🚫 [", self.server_name.as_str(), "] Security rule '");
                line.append(rule.name.as_str());
                line.append("' blocked tool call: ");
                line.append(request.name.as_str());
                line.append(" - ");
                line.append(rule.block_message.as_str());
                line.append(" | Blocked content: ");
                line.append(preview.as_str());
                Some(line)
            },
            None => None,
        }
    }

    /// The line to log when the middleware checks a call, where blocked
    /// calls are logged: the server, the tool and the full request id.
    pub fn security_check_line(&self, request: &CallToolRequestParam, request_id: u128) -> (r: Option<String>)
        ensures
            if self.logs_blocked() {
                r matches Some(s) && s@ == check_line(self.server(), request.name@, request_id)
            } else {
                r is None
            },
    {
        if !self.log_blocked {
            return None;
        }
        let mut line = concat3("🔒 [", self.server_name.as_str(), "] Security check for tool: ");
        line.append(request.name.as_str());
        line.append(" (");
        line.append(uuid_string(request_id).as_str());
        line.append(")");
        Some(line)
    }

    /// Extracts searchable content from a tool call request.
    pub fn extract_searchable_content(&self, request: &CallToolRequestParam) -> (r: String)
        ensures
            r@ == searchable_content(request.name@, crate::model::opt_view(request.arguments)),
    {
        let mut content = concat2("tool_name:", request.name.as_str());
        match &request.arguments {
            Some(args) => {
                content.append(" args:");
                content.append(args.as_str());
            },
            None => {},
        }
        content
    }

    /// Blocks the call with the first matching rule's message, or lets it continue.
    pub fn before_call_tool(&self, request_id: u128, request: &CallToolRequestParam) -> (r:
        MiddlewareResult)
        ensures
            match first_block(
                self.active_rules(),
                searchable_content(request.name@, crate::model::opt_view(request.arguments)),
            ) {
                Some(m) => r matches MiddlewareResult::Block(s) && s@ == m,
                None => r is Continue,
            },
    {
        match self.check_security_rules(request) {
            Some(block_message) => MiddlewareResult::Block(block_message),
            None => MiddlewareResult::Continue,
        }
    }
}

/// Once some prefix of the rules gives an error, every longer prefix gives the same one.
proof fn lemma_rules_error_prefix(rules: Seq<SecurityRuleView>, k: int)
    requires
        0 <= k <= rules.len(),
        rules_error(rules.take(k)) is Some,
    ensures
        rules_error(rules) == rules_error(rules.take(k)),
    decreases rules.len() - k,
{
    if k < rules.len() {
        assert(rules.take(k + 1).drop_last() == rules.take(k));
        lemma_rules_error_prefix(rules, k + 1);
    } else {
        assert(rules.take(k) == rules);
    }
}

/// The outcome of creating a security middleware for `server` from `settings`:
/// a `null` configuration means the default one.
pub open spec fn security_create_outcome(server: Seq<char>, settings: MiddlewareSettingsView) -> Result<
    ClientKind,
    Seq<char>,
> {
    let cfg: Result<(Seq<SecurityRuleView>, bool), Seq<char>> = if settings.is_null {
        Ok((default_security_rules(), true))
    } else {
        match settings.as_security {
            Ok(c) => Ok(c),
            Err(t) => Err("Invalid security configuration: "@ + t),
        }
    };
    match cfg {
        Err(m) => Err(m),
        Ok((rules, log_blocked)) => match rules_error(rules) {
            Some(m) => Err(m),
            None => Ok(
                ClientKind::Security(server, rules.filter(|x: SecurityRuleView| x.enabled), log_blocked),
            ),
        },
    }
}

/// A security middleware created from a `null` configuration has all the
/// default rules in force, in order, and logs blocked calls.
pub proof fn lemma_null_security_has_default_rules(server: Seq<char>, settings: MiddlewareSettingsView)
    requires
        settings.is_null,
    ensures
        match security_create_outcome(server, settings) {
            Ok(k) => k == ClientKind::Security(server, default_security_rules(), true),
            Err(_) => rules_error(default_security_rules()) is Some,
        },
{
    let d = default_security_rules();
    reveal(Seq::filter);
    let d1 = d.drop_last();
    let d2 = d1.drop_last();
    let d3 = d2.drop_last();
    assert(d3 =~= Seq::<SecurityRuleView>::empty());
    assert(d3.filter(|x: SecurityRuleView| x.enabled) =~= Seq::<SecurityRuleView>::empty());
    assert(d2.filter(|x: SecurityRuleView| x.enabled) =~= seq![d[0]]);
    assert(d1.filter(|x: SecurityRuleView| x.enabled) =~= seq![d[0], d[1]]);
    assert(d.filter(|x: SecurityRuleView| x.enabled) =~= d);
}

/// Factory for creating SecurityClientMiddleware from configuration.
pub struct SecurityClientFactory;

impl SecurityClientFactory {
    /// Creates the middleware for a server.
    pub fn create(&self, server_name: &str, config: &MiddlewareSettings) -> (r: Result<
        ClientMiddlewareInstance,
        ProxyError,
    >)
        ensures
            match security_create_outcome(server_name@, config@) {
                Ok(k) => r matches Ok(m) && client_kind(&m) == k,
                Err(msg) => r matches Err(e) && is_config_error(&e, msg),
            },
    {
        let security_config = if config.is_null {
            SecurityConfig::default()
        } else {
            match &config.as_security {
                Ok(c) => c.clone(),
                Err(t) => {
                    return Err(ProxyError::config(concat2("Invalid security configuration: ", t.as_str())));
                },
            }
        };
        match SecurityClientMiddleware::new(owned(server_name), security_config) {
            Ok(m) => Ok(ClientMiddlewareInstance::Security(m)),
            Err(e) => Err(e),
        }
    }

    /// The type name this factory handles.
    pub fn middleware_type(&self) -> (r: &'static str)
        ensures
            r@ == "security"@,
    {
        "security"
    }
}

} // verus!
