# mewcode

The verified core of the mewcode coding agent, written in Verus.

`src/` is the library; every function there carries a `requires`/`ensures`
contract that Verus proves:

- `compaction`, `harness` – history compaction (splitting, pruning, the
  four-section summary schema, chunked delivery) and the turn pipeline (file
  mentions, compaction checkpoints, turn history planning, reply events).
- `agent` – the fold of a model stream into events, usage and a reply; provider
  routing and the engine configuration.
- `tools` – Plan-mode guards, the approval rules and approval flow, the todo
  list tool, the tool registry layout.
- `context`, `credential`, `mcp`, `skills`, `error` – memory and todo stores,
  stored credentials, MCP tool naming and results, the skill catalogue, error
  classification.
- `view` – the terminal screen's layout and text: widths, wrapping, scrolling,
  overlays, tool cards and diffs.
- `text`, `json`, `message`, `wc` – strings, JSON values and chat messages as
  the contracts see them.

Calls into `unicode-width`, `unicode-segmentation` and `similar`, and std
functions without a vstd specification, sit behind small trusted wrappers whose
contracts name or state what those functions return.

`app/` is the unverified host: files, the environment, JSON/YAML encoding,
floating-point cost formatting, and the loops that drive the library's step
functions. `tests/` runs the library on concrete inputs.
