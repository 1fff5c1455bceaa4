# kb

A personal knowledge base for "delta knowledge": facts, problem/solution
pairs, lessons, decisions and heuristics, each deduplicated by a natural key
and searchable by full text. It is served over HTTP and MCP, with a small
command-line client.

## Layout

- `src/` — the library, verified with Verus:
  - `entry` — the entry schema (five kinds and their data);
  - `normalize` — text normalization (NFKC, lowercase, whitespace collapse),
    natural keys and their SHA-256 hashes;
  - `dedup` — how the two duplicate-check layers are combined, and the
    proceed token that lets a forced write through;
  - `store` — the search and listing statements, the write gate, the
    entries that writes and updates produce, deprecation and counts;
  - `purge` / `refs` — purge planning over the supersede chain and the
    rewriting of `[[<ulid>]]` references, with the proof that no reference
    to a purged entry survives;
  - `ids` — ULIDs as 128-bit values and their Crockford base-32 text;
  - `rest`, `mcp`, `skill`, `config`, `cli`, `error`, `text` — request
    helpers, the install plan, configuration, client helpers, errors and
    character-level utilities.
- `tests/` — tests of the library.
- `app/` — the programs around it: SQLite storage and migrations, the axum
  routes, the MCP tools, the skill endpoints and the `kb` client. The binary
  runs as the server when invoked as `kb-server`.

The server's install plan names the agent client it is written for through
`--agent-name` / `KB_AGENT_NAME` (its display name) and `--agent-dir` /
`KB_AGENT_DIR` (the name of its per-user and per-project configuration
directory). No client is built in: both are given at start-up, and
`/skill/install` answers 404 until they are.
