# lacon_core

The engine of `lacon`, a wrapper that runs a command and filters its output
through a rule's pipeline before an assistant reads it. This crate is
verified with Verus: the code under `src/` is checked against contracts over
mathematical models, and properties that span several calls (stream behaviour of the primitives, the
`keep_regex` merge, pipeline composition, replay of captured output, the
configuration layers, the command rewrite) are proved as `law_*` proof
functions.

Calls into outside crates go through small trusted wrappers whose contracts
name what the crate computes: regex compilation, matching and replacement
(`regex`), and parsing and hermetic evaluation of `post_process` scripts
(`starlark`). The evaluation of a script is one named result; the
interpreter calls it is made of carry no contracts of their own. Patterns are held as text and compiled on each evaluation; a
well-formed stage holds only patterns that compile.

## Layout

- `src/pipeline/` — the line primitives (`stages.rs`), the pipeline that
  drives them and its load-time `keep_regex` OR-merge (`mod.rs`), the regex
  calls (`patterns.rs`), and the stream-level laws (`laws.rs`).
- `src/rules/` — the rule-file model, the command rewrite and its validity
  check, the resolved rule, and the bundled-rules archive.
- `src/runtime/` — which pipeline filters a run's output and the script that
  post-processes it, the capture/replay byte form of raw output
  (`replay.rs`), the exit code reported for a signal, and the bytes written.
- `src/starlark_host/` — Starlark scripts: parsing, hermetic evaluation, and
  the mapping of the interpreter's outcome to lines or errors.
- `src/config/` — the three-layer, key-by-key configuration merge.
- `src/tracking/` — grouping keys, the privacy notice, the prune plan, the
  text and bound values of history statements.
- `src/validate/` — which validator a file goes to.
- `src/error.rs`, `src/text.rs` — error values and their renderings,
  verified string helpers.
- `app/` — the I/O around the library: reading files, YAML decoding, spawning
  commands, signal forwarding, SQLite.
- `tests/` — scenario tests of the library.
