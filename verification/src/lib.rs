//! MessagePack encoding and decoding, JSON-schema text, and the generic
//! parameter lists that code generation for reflected types works with.
pub mod format;
pub mod encode;
pub mod errors;
pub mod decode;
pub mod schema;
pub mod deserialize;
pub mod laws;
pub mod roundtrip;
pub mod tokens;
pub mod generics;
pub mod derive_tokens;
pub mod text;
pub mod jsonschema;
pub mod signature;
pub mod kdl_reader;
pub mod build_state;
pub mod partial;
pub mod wip;
pub mod tracked_wip;
