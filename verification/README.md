# facet_formats

Serialization formats and code-generation helpers for reflected Rust types,
written in Verus: every function in `src/` carries a contract that Verus
proves.

## Layout

- `src/format.rs`, `src/encode.rs`, `src/decode.rs`, `src/errors.rs`,
  `src/schema.rs`, `src/deserialize.rs`: MessagePack. The writers, the
  byte-level decoder, and reading a value of a given schema; `laws.rs` and
  `roundtrip.rs` prove that what is written reads back as itself.
- `src/jsonschema.rs`, `src/text.rs`: the JSON-schema text of a type.
- `src/kdl_reader.rs`: reading a KDL document into a struct of child nodes.
- `src/tokens.rs`, `src/generics.rs`, `src/derive_tokens.rs`,
  `src/signature.rs`: token streams for derive code generation: generic
  parameter lists, the `where` clause and type-parameter list of a `Facet`
  implementation, the `type_name` function, and function signatures.
- `src/build_state.rs`, `src/partial.rs`, `src/wip.rs`,
  `src/tracked_wip.rs`: building a value part by part: the frames, what
  each part's initialization stands at, the steps of the builders and the
  errors they report, and what dropping a builder cleans up. The memory
  work that a step names is left to the caller.
- `app/`: the glue to the `facet` crates (shapes, values, serializer traits)
  and the I/O around the library.
- `tests/`: the tests, run against the compiled library.
