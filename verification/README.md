# commander_mcp

A background-process manager served over the Model Context Protocol. The
library under `src/` holds its logic, verified with Verus; `app/` is the
program around it (the MCP server, the process daemon, the clock, signals and
`/proc`).

- `src/naming.rs` — process names derived from command lines, launch plans.
- `src/startup.rs` — the watch over a fresh launch (five one-second checks).
- `src/procfs.rs` — parent PIDs, process states and liveness from `/proc/<pid>/stat`.
- `src/registry.rs` — the commands launched, by process name.
- `src/status.rs` — the library's record of a managed process; lookups and
  start-up clean-up decisions.
- `src/responses.rs`, `src/errors.rs`, `src/params.rs` — answers, failures and
  request parameters.
- `src/times.rs` — instants as plain values; start times in words and uptimes.
- `src/text.rs` — word splitting and searching over characters.
