# rdump

A code-aware file search tool. The library in `src/` is written in Verus:
each function carries a contract that the verifier proves.

- `src/text.rs`: string and character helpers with their specifications.
- `src/contracts.rs`, `src/model.rs`: the request/response types and the
  library's result model.
- `src/request.rs`: limit resolution, option mapping, error
  classification, shaping of results into response items, and paging.
- `src/engine.rs`: the search state between candidates, loading of matched
  files, and report assembly.
- `src/backend.rs`, `src/content.rs`: discovery decisions, ignore rules,
  content classification and loading through a backend.
- `src/config.rs`, `src/profiles.rs`, `src/semantic.rs`,
  `src/predicates.rs`: presets, language profiles, language and SQL
  dialect selection, and the metadata predicates.
- `src/report.rs`, `src/docs.rs`, `src/support_matrix.rs`, `src/cli.rs`,
  `src/mcp.rs`: rendering of reports and references, and the command-line
  and MCP argument mapping.

`app/` holds the command-line program around the library: argument
parsing, configuration files and the real file-system backend.

Parsing source files with tree-sitter grammars and running the semantic
queries on the parsed trees are not part of this crate: the language
profiles carry the query texts, and the library decides which profile, and
which predicates, apply; the query evaluator itself is outside it.
