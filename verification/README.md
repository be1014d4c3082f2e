# fetter_mcp

An MCP server that gives coding agents Python package vulnerability data
(PyPI releases, OSV advisories, CVSS scores) through three tools:
`lookup`, `most_recent_not_vulnerable` and `is_vulnerable`.

- `src/` is the verified library:
  - `text` — Unicode whitespace, trimming and whitespace-separated words;
  - `summary` — per-version summaries of a lookup, each vulnerability
    summarized once for the whole lookup;
  - `requests` — the bounds on the tools' arguments and the lookups they ask for;
  - `tools` — what `most_recent_not_vulnerable` and `is_vulnerable` ask for
    and answer, with package specifiers parsed by `fetter`.
- `app/` runs the server: argument deserialization, the network lookups
  through `fetter`, and the HTTP transport.
- `tests/` exercises the library, including lookups against mocked PyPI and
  OSV responses.
