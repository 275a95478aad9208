# arcana

The decision logic of the Arcana agent runtime, written in Verus and proved
against its contracts.

- `src/` — the verified library:
  - `text` — string helpers with exact specifications (lines, trimming,
    prefixes, decimal formatting, path joining);
  - `hitl` — line diffs of proposed changes, their display and the human
    correction message; the session index (start, update, remove, prune,
    crash detection);
  - `skills` — skill manifests, event names, priority ordering and the skill
    daemon's rule and semantic trigger tiers;
  - `agents` — the sub-agent orchestrator: spawning, freezing, resuming,
    turn budgets and the checkpoint files each request calls for;
  - `memory` — the tokenizer of the embedding model, eviction and flush
    rules, configuration defaults and paths;
  - `authority` — the authority program's command line, record-log lines
    and the recovery confirmation;
  - `tui` — the terminal UI's state machines: approval and diff panels, the
    UTF-8 input composer, the conversation viewport with scrolling, the task
    panel, markdown structure and the decoding of the model's event stream.
- `tests/` — tests of the library on concrete values.
- `app/` — the parts that talk to the outside world: files, the terminal
  (ratatui, crossterm, syntect), SQLite with sqlite-vec, the ONNX embedding
  model, the chat API (reqwest) and serde forms of the library's types.
