# agent_kernel

A kernel for tool-using agents, verified with Verus: a turn loop, context
management, permission checks, tool dispatch and the protocols around them. What
the library decides is stated in contracts over mathematical models and proved;
what touches the world is left to a thin program around it.

## How it is laid out

`src/` is the library. It performs no I/O: where something has to be done in the
world, a function says what, and another takes in what came of it.

| Modules | What they hold |
|---|---|
| `policy`, `permission` | Which capabilities a tool may use: first match wins, nothing is allowed without a rule, one denial denies the call |
| `context`, `context_store`, `session_events`, `event_log` | The conversation, its token budget, compaction, and the event stream from which a session can be replayed |
| `turn_loop`, `session`, `event_loop`, `in_process`, `router` | Turns as steps: complete a prompt, ask, execute, go on; sessions and how requests reach them |
| `protocol`, `framing`, `proxy_frontend`, `proxy_tool` | Requests, events and their frames |
| `mcp_stdio`, `mcp_server`, `workspace_local`, `toolset_pool` | Tools in subprocesses, and the workspace tools |
| `anthropic`, `sse`, `echo`, `provider` | Requests to a model and what comes back |
| `manifest`, `settings`, `prompt` | What an agent is made of |
| `tui`, `driver`, `repl`, `distro`, `tool_display` | What the user sees and does |
| `json`, `members`, `text`, `paths`, `types`, `tool`, `frontend`, `testutil` | Shared ground |

Each module ends with its laws, where it has any: proof functions that state what
holds across calls. Calls into outside crates (serde_json, pulldown-cmark,
unicode-width) and into std stand behind small wrappers whose contracts say what
is taken for granted.

`app/` holds the programs: the agent, a daemon, its client, and the workspace
server. `tests/` runs the library on concrete values.
