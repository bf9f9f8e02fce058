# surrealdb-docs-mcp

A minimal MCP server that exposes two tools: `search_docs` for ranked search in the SurrealDB
documentation, and `fetch_doc` for the full content of a page.

- `src/` is the library, verified with Verus: what a request means, which URLs are accepted, which
  files of the documentation repository hold a page, what its metadata says, where the local copy
  of the repository lies, and when it is cloned, pulled or left alone.
- `app/` is the program around it: the environment, files, git, HTTP and the protocol.
- `tests/` runs the library.

URLs are parsed by the `url` crate, behind two functions of `src/doc_url.rs` whose contracts say
what the library relies on.
