# obsidian-mcp

The decision logic of an Obsidian vault server, written in Rust and proved with
Verus: the note tools, the embedding store with its cache and its runtime, the
lifecycle of the semantic daemon, and in-place upgrades of the installed program.

- `src/` is the library. It computes on plain values, and every function states
  in its contract what it returns. Where work in the outside world and decisions
  alternate, a type holds the next action, and a method takes in what came of it.
- `tests/` runs the library on concrete values.
- `app/` does the outside work: files, sockets, processes, the embedding service
  and the tool protocol.

| Module | About |
|---|---|
| `text`, `number`, `order`, `path`, `keyed`, `json`, `version`, `error` | what the rest is built on |
| `tools` | reading many notes within limits, listings and trees, checks on parameters |
| `vault` | vectors and their cache, the runtime that keeps them up to date, file events, the text index |
| `daemon` | finding, starting, stopping and reconciling the semantic daemon; the open vaults |
| `upgrade` | the Cargo installation, service managers, running processes, the course of an upgrade |

What is taken from elsewhere without proof is marked `external_body` or stands in
an `assume_specification`, with a comment that names the function and what is
claimed of it.
