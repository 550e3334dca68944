//! The decision logic of an Obsidian vault server: note tools, the embedding
//! store and its runtime, the lifecycle of the semantic daemon, and in-place
//! upgrades of the installed binary.
//!
//! Everything here computes on plain values. Reading files, sockets and
//! processes, and sending what was decided, is left to the program around it.

pub mod daemon;
pub mod error;
pub mod json;
pub mod keyed;
pub mod number;
pub mod order;
pub mod path;
pub mod text;
pub mod tools;
pub mod upgrade;
pub mod vault;
pub mod version;
