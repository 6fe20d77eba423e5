//! Overrides of the HTTP server settings by environment variables
//! (`MCPROXY_HTTP_HOST`, `MCPROXY_HTTP_PORT`, `MCPROXY_CORS_ENABLED`,
//! `MCPROXY_CORS_ORIGINS`, `MCPROXY_SHUTDOWN_TIMEOUT`).
use crate::config::{HttpServerConfig, McpConfig};
use crate::model::{opt_view, strings_view};
use crate::text::{
    lowercase, parse_unsigned_at_most, parsed_at_most, split_on, split_text, text_eq,
    to_lowercase, trim, trimmed,
};
use vstd::prelude::*;

verus! {

/// The values of the override variables, each `None` where it is not set.
pub struct EnvOverrides {
    /// `MCPROXY_HTTP_HOST`.
    pub host: Option<String>,
    /// `MCPROXY_HTTP_PORT`.
    pub port: Option<String>,
    /// `MCPROXY_CORS_ENABLED`.
    pub cors_enabled: Option<String>,
    /// `MCPROXY_CORS_ORIGINS`.
    pub cors_origins: Option<String>,
    /// `MCPROXY_SHUTDOWN_TIMEOUT`.
    pub shutdown_timeout: Option<String>,
}

/// The mathematical value of [`EnvOverrides`].
pub struct EnvOverridesView {
    pub host: Option<Seq<char>>,
    pub port: Option<Seq<char>>,
    pub cors_enabled: Option<Seq<char>>,
    pub cors_origins: Option<Seq<char>>,
    pub shutdown_timeout: Option<Seq<char>>,
}

impl View for EnvOverrides {
    type V = EnvOverridesView;

    open spec fn view(&self) -> EnvOverridesView {
        EnvOverridesView {
            host: opt_view(self.host),
            port: opt_view(self.port),
            cors_enabled: opt_view(self.cors_enabled),
            cors_origins: opt_view(self.cors_origins),
            shutdown_timeout: opt_view(self.shutdown_timeout),
        }
    }
}

/// A set variable whose value could not be used; the setting keeps its value.
pub enum EnvOverrideIssue {
    /// `MCPROXY_HTTP_PORT` is not a port number.
    InvalidPort(String),
    /// `MCPROXY_CORS_ENABLED` is not one of the accepted words.
    InvalidCorsEnabled(String),
    /// `MCPROXY_SHUTDOWN_TIMEOUT` is not a number of seconds.
    InvalidShutdownTimeout(String),
}

/// The mathematical value of an [`EnvOverrideIssue`].
pub enum EnvOverrideIssueView {
    InvalidPort(Seq<char>),
    InvalidCorsEnabled(Seq<char>),
    InvalidShutdownTimeout(Seq<char>),
}

impl View for EnvOverrideIssue {
    type V = EnvOverrideIssueView;

    open spec fn view(&self) -> EnvOverrideIssueView {
        match self {
            EnvOverrideIssue::InvalidPort(s) => EnvOverrideIssueView::InvalidPort(s@),
            EnvOverrideIssue::InvalidCorsEnabled(s) => EnvOverrideIssueView::InvalidCorsEnabled(s@),
            EnvOverrideIssue::InvalidShutdownTimeout(s) => EnvOverrideIssueView::InvalidShutdownTimeout(
                s@,
            ),
        }
    }
}

/// The values of a sequence of issues.
pub open spec fn issues_view(s: Seq<EnvOverrideIssue>) -> Seq<EnvOverrideIssueView> {
    s.map_values(|i: EnvOverrideIssue| i@)
}

/// The settings of the HTTP server that the environment can override.
pub struct HttpSettingsView {
    pub host: Seq<char>,
    pub port: u16,
    pub cors_enabled: bool,
    pub cors_origins: Seq<Seq<char>>,
    pub shutdown_timeout: u64,
}

/// The overridable settings of an HTTP server configuration.
pub open spec fn http_settings(h: HttpServerConfig) -> HttpSettingsView {
    HttpSettingsView {
        host: h.host@,
        port: h.port,
        cors_enabled: h.cors_enabled,
        cors_origins: strings_view(h.cors_origins@),
        shutdown_timeout: h.shutdown_timeout,
    }
}

/// The settings of the default HTTP server configuration.
pub open spec fn default_http_settings() -> HttpSettingsView {
    HttpSettingsView {
        host: "127.0.0.1"@,
        port: 8080,
        cors_enabled: true,
        cors_origins: seq!["*"@],
        shutdown_timeout: 5,
    }
}

/// The largest port number.
pub const MAX_PORT: u64 = 65535;

/// A port number, where `s` is one.
pub open spec fn port_value(s: Seq<char>) -> Option<u16> {
    match parsed_at_most(s, MAX_PORT as nat) {
        Some(v) => Some(v as u16),
        None => None,
    }
}

/// A number of seconds, where `s` is one that fits in a `u64`.
pub open spec fn seconds_value(s: Seq<char>) -> Option<u64> {
    match parsed_at_most(s, u64::MAX as nat) {
        Some(v) => Some(v as u64),
        None => None,
    }
}

/// What a `MCPROXY_CORS_ENABLED` value switches CORS to: `true`, `1`, `yes`
/// or `on` enable it, `false`, `0`, `no` or `off` disable it, in any case;
/// any other value is refused.
pub open spec fn cors_switch(s: Seq<char>) -> Option<bool> {
    let w = lowercase(s);
    if w == "true"@ || w == "1"@ || w == "yes"@ || w == "on"@ {
        Some(true)
    } else if w == "false"@ || w == "0"@ || w == "no"@ || w == "off"@ {
        Some(false)
    } else {
        None
    }
}

/// The origins listed in a `MCPROXY_CORS_ORIGINS` value: its comma-separated
/// pieces, trimmed, without the empty ones.
pub open spec fn origin_list(s: Seq<char>) -> Seq<Seq<char>> {
    split_on(s, ',').map_values(|p: Seq<char>| trimmed(p)).filter(|p: Seq<char>| p.len() > 0)
}

/// A setting after an override: the value that `read` gives for the set
/// variable, or the current value where the variable is unset or unusable.
pub open spec fn overridden<T>(current: T, var: Option<Seq<char>>, read: spec_fn(Seq<char>) -> Option<T>) -> T {
    match var {
        Some(s) => match read(s) {
            Some(v) => v,
            None => current,
        },
        None => current,
    }
}

/// The origins after a `MCPROXY_CORS_ORIGINS` override: an origin list with
/// no origin in it changes nothing.
pub open spec fn overridden_origins(current: Seq<Seq<char>>, var: Option<Seq<char>>) -> Seq<Seq<char>> {
    match var {
        Some(o) => if origin_list(o).len() > 0 {
            origin_list(o)
        } else {
            current
        },
        None => current,
    }
}

/// The settings after the overrides: a variable that is set and valid
/// replaces its setting.
pub open spec fn overridden_settings(b: HttpSettingsView, e: EnvOverridesView) -> HttpSettingsView {
    HttpSettingsView {
        host: overridden(b.host, e.host, |s: Seq<char>| Some(s)),
        port: overridden(b.port, e.port, |s: Seq<char>| port_value(s)),
        cors_enabled: overridden(b.cors_enabled, e.cors_enabled, |s: Seq<char>| cors_switch(s)),
        cors_origins: overridden_origins(b.cors_origins, e.cors_origins),
        shutdown_timeout: overridden(b.shutdown_timeout, e.shutdown_timeout, |s: Seq<char>| seconds_value(s)),
    }
}

/// The issue with one variable, as a sequence of at most one: `issue` of its
/// value where it is set and `read` refuses it.
pub open spec fn var_issue<T>(
    var: Option<Seq<char>>,
    read: spec_fn(Seq<char>) -> Option<T>,
    issue: spec_fn(Seq<char>) -> EnvOverrideIssueView,
) -> Seq<EnvOverrideIssueView> {
    match var {
        Some(s) => if read(s) is None {
            seq![issue(s)]
        } else {
            seq![]
        },
        None => seq![],
    }
}

/// The issues with the set variables, in the order port, CORS switch, timeout.
pub open spec fn override_issues(e: EnvOverridesView) -> Seq<EnvOverrideIssueView> {
    var_issue(
        e.port,
        |s: Seq<char>| port_value(s),
        |s: Seq<char>| EnvOverrideIssueView::InvalidPort(s),
    ) + var_issue(
        e.cors_enabled,
        |s: Seq<char>| cors_switch(s),
        |s: Seq<char>| EnvOverrideIssueView::InvalidCorsEnabled(s),
    ) + var_issue(
        e.shutdown_timeout,
        |s: Seq<char>| seconds_value(s),
        |s: Seq<char>| EnvOverrideIssueView::InvalidShutdownTimeout(s),
    )
}

/// Reads a port number.
pub fn parse_port(s: &str) -> (r: Option<u16>)
    ensures
        r == port_value(s@),
{
    match parse_unsigned_at_most(s, MAX_PORT) {
        Some(v) => Some(v as u16),
        None => None,
    }
}

/// Reads a number of seconds.
pub fn parse_seconds(s: &str) -> (r: Option<u64>)
    ensures
        r == seconds_value(s@),
{
    parse_unsigned_at_most(s, u64::MAX)
}

/// Reads a `MCPROXY_CORS_ENABLED` value.
pub fn parse_cors_switch(s: &str) -> (r: Option<bool>)
    ensures
        r == cors_switch(s@),
{
    let w = to_lowercase(s);
    let w = w.as_str();
    if text_eq(w, "true") || text_eq(w, "1") || text_eq(w, "yes") || text_eq(w, "on") {
        Some(true)
    } else if text_eq(w, "false") || text_eq(w, "0") || text_eq(w, "no") || text_eq(w, "off") {
        Some(false)
    } else {
        None
    }
}

/// Reads a `MCPROXY_CORS_ORIGINS` value into a list of origins.
pub fn parse_origin_list(s: &str) -> (r: Vec<String>)
    ensures
        strings_view(r@) == origin_list(s@),
{
    let pieces = split_text(s, ',');
    let ghost all = split_on(s@, ',');
    let ghost trimmed_all = all.map_values(|p: Seq<char>| trimmed(p));
    let mut out: Vec<String> = Vec::new();
    let mut i: usize = 0;
    assert(trimmed_all.take(0).filter(|p: Seq<char>| p.len() > 0) =~= Seq::<Seq<char>>::empty())
        by {
        reveal(Seq::filter);
    }
    while i < pieces.len()
        invariant
            i <= pieces.len(),
            strings_view(pieces@) == all,
            trimmed_all == all.map_values(|p: Seq<char>| trimmed(p)),
            strings_view(out@) == trimmed_all.take(i as int).filter(|p: Seq<char>| p.len() > 0),
        decreases pieces.len() - i,
    {
        let t = trim(pieces[i].as_str());
        let ghost before = strings_view(out@);
        assert(pieces@[i as int]@ == all[i as int]);
        assert(t@ == trimmed_all[i as int]);
        assert(trimmed_all.take(i + 1).drop_last() =~= trimmed_all.take(i as int));
        assert(trimmed_all.take(i + 1).last() == t@);
        proof {
            reveal(Seq::filter);
        }
        if t.as_str().unicode_len() > 0 {
            out.push(t);
            assert(strings_view(out@) =~= before.push(trimmed_all[i as int]));
        }
        i = i + 1;
    }
    assert(trimmed_all.take(pieces.len() as int) =~= trimmed_all);
    out
}

/// Appends the issue, if any, to `issues`.
fn push_issue(issues: &mut Vec<EnvOverrideIssue>, issue: Option<EnvOverrideIssue>)
    ensures
        issues_view(final(issues)@) == issues_view(old(issues)@) + match issue {
            Some(i) => seq![i@],
            None => seq![],
        },
{
    let ghost before = issues_view(issues@);
    if let Some(i) = issue {
        issues.push(i);
        assert(issues_view(issues@) =~= before + seq![i@]);
    } else {
        assert(before + seq![] =~= before);
    }
}

/// The port after a `MCPROXY_HTTP_PORT` override, and the issue with its value.
fn override_port(current: u16, var: &Option<String>) -> (r: (u16, Option<EnvOverrideIssue>))
    ensures
        r.0 == overridden(current, opt_view(*var), |s: Seq<char>| port_value(s)),
        match r.1 {
            Some(i) => seq![i@],
            None => seq![],
        } == var_issue(
            opt_view(*var),
            |s: Seq<char>| port_value(s),
            |s: Seq<char>| EnvOverrideIssueView::InvalidPort(s),
        ),
{
    match var {
        Some(v) => match parse_port(v.as_str()) {
            Some(p) => (p, None),
            None => (current, Some(EnvOverrideIssue::InvalidPort(v.clone()))),
        },
        None => (current, None),
    }
}

/// The CORS switch after a `MCPROXY_CORS_ENABLED` override, and the issue with its value.
fn override_cors_switch(current: bool, var: &Option<String>) -> (r: (bool, Option<EnvOverrideIssue>))
    ensures
        r.0 == overridden(current, opt_view(*var), |s: Seq<char>| cors_switch(s)),
        match r.1 {
            Some(i) => seq![i@],
            None => seq![],
        } == var_issue(
            opt_view(*var),
            |s: Seq<char>| cors_switch(s),
            |s: Seq<char>| EnvOverrideIssueView::InvalidCorsEnabled(s),
        ),
{
    match var {
        Some(v) => match parse_cors_switch(v.as_str()) {
            Some(b) => (b, None),
            None => (current, Some(EnvOverrideIssue::InvalidCorsEnabled(v.clone()))),
        },
        None => (current, None),
    }
}

/// The shutdown timeout after a `MCPROXY_SHUTDOWN_TIMEOUT` override, and the issue with its value.
fn override_seconds(current: u64, var: &Option<String>) -> (r: (u64, Option<EnvOverrideIssue>))
    ensures
        r.0 == overridden(current, opt_view(*var), |s: Seq<char>| seconds_value(s)),
        match r.1 {
            Some(i) => seq![i@],
            None => seq![],
        } == var_issue(
            opt_view(*var),
            |s: Seq<char>| seconds_value(s),
            |s: Seq<char>| EnvOverrideIssueView::InvalidShutdownTimeout(s),
        ),
{
    match var {
        Some(v) => match parse_seconds(v.as_str()) {
            Some(t) => (t, None),
            None => (current, Some(EnvOverrideIssue::InvalidShutdownTimeout(v.clone()))),
        },
        None => (current, None),
    }
}

/// Applies the environment overrides to the HTTP server settings, creating
/// the default HTTP server configuration first where there is none, and
/// returns the variables that were set but could not be used.
pub fn apply_env_overrides(config: &mut McpConfig, env: &EnvOverrides) -> (issues: Vec<
    EnvOverrideIssue,
>)
    ensures
        final(config).mcp_servers == old(config).mcp_servers,
        old(config).well_formed() ==> final(config).well_formed(),
        final(config).http_server matches Some(h) && http_settings(h) == overridden_settings(
            match old(config).http_server {
                Some(o) => http_settings(o),
                None => default_http_settings(),
            },
            env@,
        ) && match old(config).http_server {
            Some(o) => h.middleware == o.middleware,
            None => h.middleware.proxy@.len() == 0 && h.middleware.client.default@.len() == 0
                && h.middleware.client.servers@.len() == 0,
        },
        issues_view(issues@) == override_issues(env@),
{
    let mut http = match config.http_server.take() {
        Some(h) => h,
        None => HttpServerConfig::default(),
    };
    let ghost base = http_settings(http);
    let host = match &env.host {
        Some(h) => h.clone(),
        None => http.host.clone(),
    };
    let (port, port_issue) = override_port(http.port, &env.port);
    let (cors_enabled, cors_issue) = override_cors_switch(http.cors_enabled, &env.cors_enabled);
    let origins = match &env.cors_origins {
        Some(o) => parse_origin_list(o.as_str()),
        None => Vec::new(),
    };
    let (shutdown_timeout, timeout_issue) = override_seconds(
        http.shutdown_timeout,
        &env.shutdown_timeout,
    );
    http.host = host;
    http.port = port;
    http.cors_enabled = cors_enabled;
    if origins.len() > 0 {
        http.cors_origins = origins;
    }
    http.shutdown_timeout = shutdown_timeout;
    assert(http_settings(http) == overridden_settings(base, env@));
    let mut issues: Vec<EnvOverrideIssue> = Vec::new();
    push_issue(&mut issues, port_issue);
    push_issue(&mut issues, cors_issue);
    push_issue(&mut issues, timeout_issue);
    assert(issues_view(issues@) =~= override_issues(env@));
    config.http_server = Some(http);
    issues
}

} // verus!
