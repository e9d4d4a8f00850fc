//! Configuration: schema, TOML-subset merging, CLI and environment overrides, validation.

pub mod schema;
pub mod merge;
pub mod validation;
pub mod loader;
pub mod init;
