//! Rumon: a file watcher and process runner, with its diff engine,
//! configuration, hook rules and media inspection verified.

pub mod paths;
pub mod text;
pub mod diff;
pub mod config;
pub mod cli;
pub mod shared;
pub mod hooks;
pub mod media;
pub mod runtime;
pub mod plugins;
