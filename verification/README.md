# slack-deputy

A personal Slack agent: a daemon that captures what concerns its human and serves it as a
queue, asks the human before it acts, and acts under the human's own name; and a CLI that
drives the daemon over HTTP.

- `src/` is the library, verified with Verus: the queue and its store, what is captured and
  what is dropped as an echo, the asks and what comes of their answers, the replies of the
  HTTP API, the commands of the CLI, and the configuration. `src/laws.rs` states what holds
  across these.
- `app/` is the program around it: SQLite, Slack, HTTP, the environment and the clock. It
  hands the library plain values and carries out what the library answers.
- `tests/` runs the library on concrete values.

The library rests on a few facts about code that it does not verify: what `serde_json`
reads and writes (`src/json.rs`), and what std says of white space and of equal strings
(`src/text.rs`). Each stands next to the item that uses it.
