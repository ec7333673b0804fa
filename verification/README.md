# hahi_agent

The decision logic of an AI agent runtime, with its behaviour stated in
contracts and proved with Verus.

The runtime runs LLM + tool loops: the model streams a response, tool calls
are checked against permissions and hooks and run as soon as their input is
complete, errors are recovered from, and the context is compressed when it
fills up. Everything the loop decides between two awaits is a verified
function of the library; the program around it performs the I/O.

## Layout

- `src/` — the verified library.
  - `kernel/` — the turn loop's step functions (`turn.rs`), error recovery,
    permissions, hooks, plan mode, context pressure, collapse, and event
    forwarding for sub-agents.
  - `prompt/` — system prompt sections, the section cache, instructions and
    rules.
  - `tools/` — the two-tier tool registry and its search; built-in tool
    input handling and output formatting.
  - `memory/` — the write policy, memory formatting, and what a write hands
    to the store.
  - `multi/` — sub-agent isolation, forked histories, spawn events.
  - `skill/` — skill listing, discovery and execution.
  - `adapters/` — SSE framing, provider selection, MCP tool entries and
    results.
  - `common/`, `infra/`, `run.rs`, `config.rs` — messages, JSON text,
    checkpoints, metrics, store keys, the run pipeline's decisions, and
    configuration checks.
- `tests/` — tests of the library.
- `app/` — the service around the library: configuration from the
  environment, the event bus, the model provider interface, SSE streams,
  tool execution, the loop driver, sub-agent spawning, and the metrics
  endpoint.

## What this build does not include

The chat service (generated from the `hahi_proto` service definitions), the
PostgreSQL/Redis store, the MCP client, the run pipeline's I/O and memory
reflection are not part of this build: the program serves the metrics
endpoint only. Their decisions (store keys, what a memory write hands to the
store, MCP tool entries and results, the run pipeline's steps) are in the
library.
