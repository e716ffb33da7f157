# toolshed

A registry and executor for command-line tools and MCP servers, with its
logic verified by Verus.

- `src/` is the verified library: tool manifests and their rules, the
  registries of tools, skills, agents, rules and workflows, the front-matter
  and workflow step formats, environment interpolation, output truncation,
  the MCP messages the client and the server exchange, the hash-chained
  audit trail, the report and prompt texts, and the decisions of the
  daemon (which tools to probe, what a probe changes, how a recovery
  proceeds). Outside crates (`sha2`, `regex`, `chrono`, `dirs`) are called
  through small trusted wrappers whose contracts are documented where they
  stand.
- `app/` is the `toolshed` command around it: the command line, the file
  system, processes, HTTP, the server and the daemon's background tasks.
- `tests/` runs the library on concrete values.
