# kron

A Git-native task tracker for AI-assisted development, with its core
verified by Verus.

- `src/` is the library: the Markdown framing of task files (front matter
  boundaries, description and body blocks), task states, the vertex
  registry and the current-vertex pointer, project-root discovery,
  `kron init`'s layout plan, important-file synchronisation and conflict
  handling, the generated context documents, configuration keys, output
  modes and the command layer's decisions. Its functions carry contracts
  that Verus proves; the few calls into std and outside crates (the clock,
  MD5, serde_json, UTF-8 decoding, lower-casing, path parents) sit behind
  small trusted wrappers whose contracts are stated, not proved. The laws
  that relate several operations (the framing of a task file reads back
  what was written, a conflict resolves once, a set configuration value
  reads back, ...) are public proof functions.
- `app/` is the `kron` binary: argument parsing, file system access, `git`
  invocations, the YAML of task front matter, JSON files and printing.
- `tests/` exercises the library on concrete values.
