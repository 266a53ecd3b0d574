# grafana_watch_dog

A read-only operations watchdog for Grafana: it starts the official `mcp-grafana`
server, queries Prometheus through it on a schedule, raises and clears alerts with
consecutive-check and cooldown rules, builds a daily health report, and asks an
OpenAI-compatible model to explain recent alerts.

The decisions are a library verified with Verus; the process, file, database,
network and clock work, and everything that computes with floating-point
readings, is ordinary Rust around it.

## Layout

- `src/` — the verified library.
  - `text`, `json`: character-level text helpers and the JSON model the library reads.
  - `samples`: Prometheus samples out of MCP query results.
  - `monitor`: alert rules, per-check evaluation, firing and recovery notices.
  - `report`: gathering query outcomes, grouping by instance, scoring the day.
  - `settings`, `credentials`, `keychain`: defaults, secrets in the OS keychain (with
    receipts of what each save handed to it), read-only checks.
  - `mcp`, `discovery`, `diagnose`, `installer`: the MCP server's replies, resource
    discovery, the staged connection diagnosis and the install sequence.
  - `retry`, `schedule`, `ai`: back-off plans, the background scheduler's decisions,
    and the chat-completions request's checks and reply.
- `tests/` — tests of the library on concrete values.
- `app/` — the application's commands as plain functions (no window shell): the MCP
  child process, SQLite storage, the HTTP request to the model, the scheduler thread,
  floating-point work on readings, and serializable copies of the library's types.
