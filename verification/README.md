# asn1_ir

Parsing of ASN.1 modules into a concrete syntax tree, and lowering of parsed
modules into a resolved intermediate representation, with the behaviour of
each step stated in Verus contracts and proved.

## Layout

- `src/lexer.rs` — the tokenizer; `lex_s` states the token stream of a text.
- `src/productions.rs` — the grammar as spec functions from a token stream and
  a position to what is read there; `module_s` is a whole module.
- `src/grammar.rs` — the recursive-descent parser, proved equal to the grammar
  (a parse succeeds exactly where the grammar reads a module, and gives it).
- `src/syntax.rs` — the syntax tree as mathematical values.
- `src/cst.rs`, `src/diagnostics.rs` — syntax tree types, source map, spans and
  parse errors.
- `src/resolve.rs` — module and symbol resolution (object identifiers,
  successor versions, re-exports).
- `src/lower.rs`, `src/ir.rs` — lowering to the intermediate representation.
- `src/query.rs`, `src/render.rs` — lookups, diagnostics and text rendering.
- `src/laws.rs` — properties that relate several functions.
- `app/` — serde-enabled copies of the IR types and `Display` for diagnostics.
