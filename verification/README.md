# alice

The verified core of Alice, a collaborative AI agent runtime, written in Verus.

`src/` is the library. Every function in it carries a contract that Verus checks:

- `runtime_state` — identity bindings, one-time bind tokens, active sessions and
  scheduled tasks, modelled as maps; the service, the storage port with an in-memory
  store, and the laws that span operations (single-use tokens, read after write,
  listing order).
- `identity` — cross-channel identity resolution and `/bind` handling.
- `scheduler` — one scheduler tick, split into the steps around the agent turns:
  planning the due tasks, then recording each one's execution in due order.
- `orchestration` — the manager/worker profile registry, the turns an orchestration
  run asks for, and the whole run assembled from the backends' replies.
- `commands`, `bootstrap`, `config` — command-line commands, runtime wiring decisions
  and configuration values with their defaults.
- `handle_input`, `chat_events`, `cli_repl`, `channel_dispatch`, `agent_backend` — how
  an input is routed, what goes back to a chat thread, and the decisions around chat
  services and external agents.
- `memory`, `reflection`, `common` — memory records and recall text, FTS query
  sanitizing, learned-skill documents.
- `text`, `keyed`, `clock` — character-sequence utilities, sequences viewed as maps, and
  the system clock and local time zone offset (daily schedules run on local time).

`app/` is the `alice` program: command-line parsing, the configuration file and the
runtime-state database. `tests/` runs the library.
