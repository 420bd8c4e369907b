# aiken_mcp

The verified core of an MCP server that gives coding assistants tools for
writing [Aiken](https://aiken-lang.org) smart contracts: compile, test,
format, LSP queries, reference-corpus search, blueprint inspection, docs
lookup and error explanations.

`src/` is the library, checked by Verus. It holds everything the server
decides: parsing of the Aiken CLI's output, the `.ak` symbol extractor and
its doc-comment rules, ripgrep hit parsing, the LSP `Content-Length`
framing, the docs URL and cache key, project-root discovery, blueprint
reading, and the selection logic of the pattern, corpus and error catalogs.
Calls into `regex`, `sha2`, `url`, `serde_json` and `std::path` go through
small trusted wrappers whose contracts name what the crate returns.

`app/` is the server itself: process spawning, the language-server session,
HTTP fetching, file walking, JSON rendering and the rmcp tool router. It
calls the library for every decision.

Catalog data (`corpora.toml`, `errors.toml`, `patterns.toml`) is read at
start-up from the directory named by `AIKEN_MCP_DATA_DIR` (default `data`).
