# bo

`bo` keeps a local knowledge tree: it collects sources (web pages, YouTube
transcripts, local Markdown notes) as leaf files, and compiles them into
branches with the help of a language model. This crate is its core, written
in Verus: the decisions of the commands, taken apart from their I/O, are
verified functions with `requires`/`ensures` contracts. The caller reads
files, calls the model and the network, and hands the library plain values.

## Layout

- `src/` — the verified library.
  - `collect/` — expanding inputs, de-duplicating URLs, committing leaves,
    local notes, the collect report.
  - `compile/` — cluster discovery and validation, prompts, the compile
    plan, the manifest delta, repair, the agent tools, rendering.
  - `synthesize/`, `agent.rs` — the synthesis agent's state and tool calls.
  - `search/`, `list.rs`, `show.rs`, `status.rs` — reading the tree.
  - `seed.rs`, `config.rs`, `raze.rs`, `journal.rs`, `query.rs` — the other
    commands' decisions.
  - `youtube/` — URL classification, caption-track choice, the transcript.
  - `tree.rs`, `text.rs`, `json.rs`, `envelope.rs` — shared models.
- `tests/` — tests of the library on concrete values.
- `app/` — some of the I/O around the library: the YouTube HTTP calls, the
  file reads of `search` and `show`, and the JSON envelopes. The plumbing of
  the other commands (state files and their transactions, model calls, the
  journal file, the configuration file, the agent loop) is not part of this
  crate.

Calls into outside crates (`url`, `quick-xml`, `chrono`, `serde_json`,
`serde_yaml_ng`) stand behind small trusted wrappers in `src/`, each with a
doc comment saying what its contract claims.
