# the_light_core

A Bible reader's core, verified with Verus: reference parsing and scanning,
the reading position and plans, cross-reference ranking, user preferences,
the AI study layer (prompts, anchors `[V:…]`/`[W:…]`, citations and their
footnotes, the provenance footer, and the guided study as a step function:
refinement rounds, grounding, deepening, export), the providers' request bodies and the
reading of their answers, and the layout of the terminal reader.

- `src/` — the library. Every function carries a contract that Verus proves;
  the calls into `serde_json`, `regex` and `chrono` stand behind a few trusted
  wrappers whose contracts say what those crates document.
- `tests/` — the library's tests, run against the compiled crate.
- `app/` — the terminal program around the library: files, the SQLite store,
  HTTP, the drawing with ratatui and the event loop.
