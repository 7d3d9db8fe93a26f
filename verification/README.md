# Codebase Explorer

A local-first code base explorer: it scans a project folder, parses Python,
JavaScript and TypeScript files with tree-sitter, extracts their symbols,
counts lines, reads dependency manifests, ranks search results, builds a
dependency graph and generates Markdown/HTML/PDF documentation with Mermaid
diagrams. An optional AI assistant explains files and symbols.

## Layout

- `src/` — the library, written in Verus and verified:
  - `project/` — paths, language detection and the scan state machine;
  - `analysis/` — syntax trees read in pre-order, symbol and import extraction,
    statistics, manifests, import resolution plans and the session cache;
  - `languages/` — which syntax nodes declare symbols in each language;
  - `search/` — ranking and the project index;
  - `documentation/` — Markdown, Mermaid, HTML and PDF page contents;
  - `ai/` — provider settings, bounded source context and prompts;
  - `text.rs`, `order.rs`, `digest.rs` — text operations, string order and
    sorting, BLAKE3 digests.
- `app/` — the I/O around the library: walking folders, reading files,
  the credential store, HTTP requests and writing exports.
- `tests/` — tests of the library.
