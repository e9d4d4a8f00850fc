//! Diff engine: line, inline, binary diffs and previews.

pub mod column;
pub mod line;
pub mod engine;
pub mod binary;
pub mod preview;
pub mod textdiff;
pub mod formatter;
pub mod sides;
pub mod rows;
pub mod pairing;
