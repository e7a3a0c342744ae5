# coda_cli

The logic of an agent-first command-line client for Coda's MCP tool endpoint,
written in Verus: every function in `src/` carries a contract that Verus proves.

## Layout

- `src/` — the verified library.
  - `json.rs`, `json_text.rs`, `text.rs` — a JSON value type with its view, and the
    string helpers the rest builds on.
  - `slug.rs`, `validate.rs`, `cell.rs`, `output.rs`, `sanitize.rs`, `trace.rs`,
    `schema_cache.rs`, `error.rs`, `auth.rs`, `cli.rs`, `polish.rs`, `client.rs`,
    `tool_registry.rs` — slugs and Coda URLs, input checks, cell and row
    flattening, `--pick`, prompt-injection redaction, trace events, client-side
    payload validation, error kinds, token precedence, argument helpers,
    markdown polishing, request bodies, error parsing and pagination.
  - `commands/` — discovery listings, the shell and MCP servers' routing, the
    compound operations (`doc_scaffold`, `page_create_with_content`,
    `doc_summarize`, `table_search`) and the `.coda/` sync. Work that alternates
    calls and decisions is a state machine: the library decides the next call and
    what to write, the caller performs it and hands back the outcome.
- `tests/` — tests on concrete values, run against the compiled library.
- `app/` — the program around the library: argument parsing, HTTP, files,
  terminal output, and the loops that drive the state machines.

Public proof functions named `law_*` state properties of the library as a whole
(for example, that resolving a document reference twice gives what resolving it
once gives, or that a tables-only sync writes no page files).
