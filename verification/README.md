# mcp_guard

A Layer 7 guard for Model Context Protocol (MCP) traffic: it sits between an
MCP client and an MCP server, holds each `tools/call` and `resources/read`
request against a policy, asks a human where the policy says so, writes an
audit record, and answers denied requests with a JSON-RPC error.

## Layout

- `src/` — the verified library.
  - `json.rs`: the JSON values the guard reads, and their content.
  - `rpc.rs`: JSON-RPC messages; reading MCP request parameters; error responses.
  - `pattern.rs`: regular-expression matching through the `regex` crate.
  - `policy.rs`: the rules per tool, their evaluation, and the laws of the policy.
  - `hitl.rs`: the approval flow as steps and events; it fails closed.
  - `proxy.rs`: what the proxy does with each client message.
  - `audit.rs`: audit records and the audit log listing.
  - `text.rs`: white space, line splitting, decimal numbers and padding.
  - `cli.rs`: the command-line types.
- `app/` — the program: argument parsing, policy files, JSON text, the
  audit log writer, the terminal and dialog prompts, and the async proxy loop.
- `tests/` — tests of the library.
