//! Native runtime of the THZ language: an arena allocator, text and number helpers
//! for the C interface, cryptographic primitives, text embeddings and a local
//! language-model backend.

pub mod arena;
pub mod numero;
pub mod texto;
pub mod ml;
pub mod llm;
pub mod crypto;
pub mod wasm;
