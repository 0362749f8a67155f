# ambient_fs

Filesystem awareness for projects: a daemon watches project directories,
logs every file event with who caused it (user, AI agent, git, build,
voice), keeps per-file awareness (last change, active agent, TODO counts,
change frequency) and answers JSON-RPC queries over a Unix socket.

## Layout

- `src/` — the library, verified with Verus. Every module states its
  behaviour in `requires`/`ensures` over spec functions and views:
  - `text`, `assoc`: text and key-value helpers the rest is built on.
  - `event`, `filter`, `tree`, `tree_state`, `analysis`, `awareness`:
    events, ignore patterns, the project tree and its patches, per-file
    analysis and awareness.
  - `analyzer`, `languages`, `llm_analyzer`, `llm`, `pipeline`: tier-one
    content analysis, language detection, model prompts and replies.
  - `watcher`, `attribution`, `dedup`, `agents`: watch bookkeeping and
    per-path debouncing, source attribution, content hashing, agent
    activity tracking.
  - `protocol`, `requests`, `subscriptions`, `state`, `client`, `reader`:
    JSON-RPC messages, request decoding and validation, subscriptions,
    shared daemon state, client-side message routing and the client's
    reader state machine.
  - `store`, `prune`: the event log's rows and queries, retention cutoffs.
  - `grpc`, `gateway`, `sync`: inter-daemon event messages, the relay's
    routing table and bounded buffer, peer sync decisions.
  - `config`, `daemon`, `service`, `cli`: configuration, PID file and
    process control, service files, command-line parsing.
- `app/` — the `ambient-fsd` binary: command dispatch, the socket server,
  SQLite storage, OS file watching, the config file, and the client I/O.
- `tests/` — tests of the library.
