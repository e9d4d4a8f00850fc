# rumon

A file watcher and process runner whose logic is a Verus-verified library.

- `src/` — the verified library: command-line parsing (`cli`), configuration merging,
  validation and loading (`config`), line, inline and binary diffs (`diff`), lifecycle and
  rule-based event hooks with their rule lexer, parser, matcher and variables (`hooks`),
  media type detection and metadata extraction (`media`), path semantics (`paths`), change
  details, the snapshot store, plain output and the watch loop's decisions (`runtime`).
- `tests/` — the test suite of the library.
- `app/` — the program around it: argument handling, file and process I/O, the watcher,
  runner, terminal UI, HTTP and IPC servers, and the floating-point evaluation of rules.

Every public function of `src/` states what it returns in its contract, and the laws that
span functions (for example that a line diff reconstructs both texts) are proof functions.
