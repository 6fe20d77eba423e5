# mcproxy

A proxy for the Model Context Protocol: it connects to several MCP servers
(child processes over stdio, or HTTP endpoints) and offers their tools,
prompts and resources through one HTTP endpoint, under names prefixed with the
server's name (`server___tool`). Middleware filters, enriches, limits and
guards what passes through.

## Layout

- `src/` — the library, verified with Verus:
  - `proxy.rs`: aggregation of the servers' lists under prefixed names,
    routing of tool calls back to their server, start-up outcome, and the
    decisions of shutting down;
  - `naming.rs`: prefixed names and their splitting;
  - `config.rs`, `overrides.rs`: the configuration and its overrides by
    environment variables;
  - `cors.rs`: the CORS headers of the HTTP server's responses;
  - `middleware/`: client middleware (logging, security rules, tool
    filtering), proxy middleware (description enrichment, test-tool
    filtering, tool search), the registry of factories and the manager that
    builds middleware from the configuration, and the steps that run a
    server's client middleware around each operation on it (`client.rs`);
  - `text.rs`, `sorting.rs`: verified string, number and sorting helpers;
  - `matching.rs`, `fuzzy.rs`, `json.rs`: regular expressions (`regex`),
    fuzzy matching (`fuzzy-matcher`) and reading JSON fields (`serde_json`),
    behind contracts that name their results.
- `tests/` — tests of the library.
- `app/` — the executable: reading the configuration file and the
  environment, the connections to the servers (`rmcp`), and the HTTP server
  (`axum`).

## Running

```
mcproxy <config_file>
```

`MCPROXY_HTTP_HOST`, `MCPROXY_HTTP_PORT`, `MCPROXY_CORS_ENABLED`,
`MCPROXY_CORS_ORIGINS` and `MCPROXY_SHUTDOWN_TIMEOUT` override the HTTP
server settings of the file.
