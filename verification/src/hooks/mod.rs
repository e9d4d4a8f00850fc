//! Lifecycle hooks and rule-based event hooks.

pub mod lifecycle;
pub mod events;
pub mod lexer;
pub mod parser;
pub mod matcher;
pub mod variables;
