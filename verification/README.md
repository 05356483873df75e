# code-intel-kernel

A read-only, evidence-backed code intelligence kernel, verified with Verus.

The library (`src/`) computes structured repository facts from what was read of a
repository, and proves what it computes:

- `repo_graph`: inspection of manifests and build files (Rust, Node, Python, Go,
  Make/just, containers, workflows) into components, commands, tests, workspaces and
  relationships, each backed by evidence; parsing of TOML and JSON manifests (with
  the `toml` and `serde_json` crates); impact analysis of changed files.
- `symbol_graph`: top-level Rust declarations, parsed with tree-sitter.
- `source_evidence`: evidence assembly for a query over both graphs, with refusal
  when evidence is missing.
- `source_context`: bounded, read-only source slices for explicit selectors.
- `lsp_bridge`: the decisions of a rust-analyzer diagnostics session.
- `evaluation`: fixture-based checks of inspection and impact output.
- `cli`: the command line's arguments as commands.
- `laws`: properties that relate several functions.

`app/` is the command-line program: it walks the file system, reads files, runs
rust-analyzer, and prints JSON. `tests/` exercises the library.
