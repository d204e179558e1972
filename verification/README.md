# mcp_runtime

The decisions behind a Model Context Protocol (MCP) client and behind the project rules of
repositories, written in Rust and verified with Verus.

- `src/` is the verified library. Every function states in its contract what it returns; the
  public proof functions named `law_..` state what holds across functions.
  - `spawn` starts a server, one event at a time; `transport` decides how a remote server is
    reached, `child` how a child process is started; `capabilities` which lists are asked for;
    `server_info` holds what is known of a connected server.
  - `headers` and `client` build the HTTP client and the first request; `message_log` and
    `error` say what is logged and what the user is told.
  - `rule_files` finds and reads project rules; `project_rules` keeps them up to date.
- `tests/` runs the library with the crates it calls.
- `app/` performs what the library decides: processes, sockets, files.
