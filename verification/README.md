# magic_core

The core of the MagicBevy editor, written in Verus and proved against its
contracts.

- `src/` is the verified library:
  - `menu` — the top-bar menu registry, kept in name order;
  - `status`, `indicator` — the compile status and what the status lamp shows;
  - `compiler` — the engine-wide watcher lock and recompile request;
  - `compile` — the compile pipeline's reports and the one-compile-at-a-time gate;
  - `watcher` — which file changes count and how bursts of changes are debounced;
  - `profiles` — which packages get profile crates, and the text of those crates;
  - `systems` — the editor system interface and its lifecycle manager;
  - `pkg_cli` — argument parsing and output formatting of `magic_pkg`;
  - `text` — the string operations these rest on (order, search, split, padding).
- `app/` is the editor program: egui drawing, file watching with `notify`,
  loading the editor library with `libloading`, running `cargo`, file I/O and
  coloured logging, and the `magic_pkg` command glue.
- `tests/` runs the library on concrete values.
