//! Runtime logic: change details, the snapshot store, and terminal output.

pub mod detail;
pub mod inspector;
pub mod output;
pub mod watch;
