# seeyue_mcp

The logic of an MCP server for coding agents, written in Verus: exact-string
edits of files, batch and cross-file edits that validate every edit before
anything is written, readings of `git` output, append-only logs of
approvals, questions and input requests, a memory store with an index,
registries of tools and packages, and the answers each tool gives.

- `src/` is the verified library. Every public function states in its
  contract what it returns; the `law_*` proof functions state what holds
  across calls (a written memory is read back, the last record of a request
  is its current state, listings are newest first, a kept package answer is
  read back while it is fresh, a file is backed up once per session).
  Calls into `regex`, `globset` and `chrono` go through a few small trusted
  wrappers whose contracts name what those crates compute.
  The edit matcher's retry with tab/space-normalized text and its hints
  about look-alike Unicode characters, and the language id of each file of
  a dependency graph, come from an encoding layer and a language table
  outside the library: its functions take those results as arguments.
- `tests/` runs the library on concrete values.
- `app/` is a command-line front end (`seeyue-mcp <workspace> <tool>
  [json-params]`) that reads and writes files, runs `git`, `tasklist` and
  `netstat`, keeps checkpoints in SQLite and asks package registries over
  HTTP, handing plain values to the library and printing its answers.
