# codegraph

Class-hierarchy analysis and call-graph bookkeeping for multi-language source
trees, written in Verus: each public function carries a `requires`/`ensures`
contract that the verifier proves, and the properties that span several
functions are stated and proved as `law_*` proof functions.

## Layout

- `src/cha/` — class hierarchy (inheritance graph, subtyping, base classes,
  cycle detection), call-site extraction and resolution of calls by kind
  (virtual, static, constructor, function), language-specific resolvers.
- `src/cha_simple/` — the simple class-hierarchy analysis: classes by parent
  link, resolution by name over a receiver and its descendants.
- `src/http/` — request and response records and the computations behind the
  HTTP queries: call graphs with expanded call chains, call trees, chart data,
  code snippets, file outlines, project identifiers.
- `src/analyzers/`, `src/queries/` — what the language analyzers do with the
  definitions, scopes and calls a syntax tree gives them: callers of calls,
  classes of definitions, functions per file, registries and reports.
- `src/languages.rs`, `src/parser.rs`, `src/parsers.rs` — languages by file
  name, analyzer choice, the parser's caches and snippet extraction.
- `src/text.rs`, `src/table.rs` — strings (decimal numbers, joining,
  splitting) and name-keyed tables.
- `app/` — the command line, configuration loading and file-system walks
  around the library.
- `tests/` — tests run against the compiled library.
