# aidoc

A verified library for AIDoc, an AI-native structured document format: every
edit is a typed operation, every operation produces an immutable revision,
and reverts, branches and merges only ever add revisions.

- `src/` — the library, written in Verus. The store (`store.rs`) models the
  document tables; `check.rs`, `engine.rs`, `handler.rs` and `apply.rs` are the
  operation engine; `preview.rs`, `history.rs`, `branching.rs` and `import.rs`
  build on it; `render.rs` and `export.rs` turn a document into HTML and
  Markdown; `package.rs` holds the manifest and asset inlining;
  `commands.rs` and `templates.rs` hold the logic behind the command line.
  `laws.rs` states and proves what holds of the library as a whole.
- `tests/` — tests of the library on concrete values.
- `app/` — the `aidoc` command line: package files (zip, SQLite, JSON) and
  argument handling around the library.
