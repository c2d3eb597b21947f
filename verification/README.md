# PTConductor

PTConductor orchestrates typed, versioned workflows of AI prompt steps for
authorized penetration testing: it validates workflows, resolves and type-checks
their inputs, renders prompts with secrets redacted in everything it stores, runs
the steps through a provider, and keeps a run record that reports are rendered from.

## Layout

- `src/` — the library, verified with Verus: workflow validation, input resolution
  and rendering, the run state machine, provider configuration and the reading of
  provider answers, the file names and ordering of repositories, Markdown reports,
  and command-line field parsing. Every public function states its result in its
  contract; `src/laws.rs` proves the properties that relate several operations.
- `app/` — the `ptconductor` command-line program: file and network I/O, the Codex
  process, the asynchronous run loop around the library's run state, and the JSON
  documents that workflows and runs are stored as.
- `tests/` — tests of the library on concrete values.
