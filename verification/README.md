# shell-use (verified core)

The client-side logic of the `shell-use` headless terminal CLI, written in
Verus with its behaviour stated as contracts and proved.

- `src/backend.rs` — emulator backends, their wire names and name parsing.
- `src/client.rs` — the parsed command line and how it becomes a daemon request;
  `KEY=VALUE` environment pairs; the usage summary.
- `src/config.rs` — where a session's pid, log, socket and recording live.
- `src/protocol.rs` — requests, responses and the process exit-code taxonomy.
- `src/render/svg.rs` — the SVG screenshot of a terminal grid.
- `src/render/layout.rs` — the screenshot's vertical geometry in single-precision arithmetic.
- `src/xterm.rs` — decoding of the packed cell grid the xterm.js backend returns.
- `src/text.rs` — decimal/hex digits, whitespace, trimming and lowercasing.
- `app/` — the command-line program: argument parsing, environment, sockets,
  files and the JSON wire forms of the protocol types.
