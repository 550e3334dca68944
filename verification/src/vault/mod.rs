//! The vault's own state: embeddings, their cache and runtime, and file watching.

pub mod backend;
pub mod batch;
pub mod cache;
pub mod codec;
pub mod digest;
pub mod embedding_runtime;
pub mod embeddings;
pub mod runtime_laws;
pub mod runtime_state;
pub mod tantivy_index;
pub mod watcher;
