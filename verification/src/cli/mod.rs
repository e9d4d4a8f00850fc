//! Command line parsing.

pub mod commands;
pub mod args;
