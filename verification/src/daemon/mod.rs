//! The lifecycle of the semantic daemon and the vaults that it serves.

pub mod archive;
pub mod bootstrap;
pub mod ensure;
pub mod home;
pub mod manifest;
pub mod protocol;
pub mod reconcile;
pub mod shutdown;
pub mod vault_context;
pub mod vault_registry;
