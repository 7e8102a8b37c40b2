# queryscript

The DuckDB engine of QueryScript and the errors of its parser and type system, verified with Verus.

- `src/parser` holds the parser's errors: what they say, where they are, how several of them are
  put together and taken apart, and how an error is reported next to its source.
- `src/types` holds the type system's errors and relations of Arrow record batches.
- `src/runtime` holds the parameters of queries and the engine: how parameters are bound (relations
  by name, scalars by position), which relation replaces a table that DuckDB does not know, how a
  relation's batches are read, and which connections share a database.
- `src/text.rs` writes numbers and orders names; `src/style.rs` styles text for terminals.
- The `laws` modules, and the functions named `law_` elsewhere, state what holds of several
  functions together.
- `app` opens the connections, talks to DuckDB through its C interface and gives the errors their
  `std::error::Error` values.

What is taken on trust stands in `src/style.rs` (the `colored` crate), `src/types/relation.rs` (the
`arrow` crate and `Arc::clone`) and `src/runtime/duckdb/scan.rs` (`std::str::from_utf8`), each with
what is claimed of it.
