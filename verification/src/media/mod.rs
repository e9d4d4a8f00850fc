//! Media detection and header metadata.

pub mod bytes;
pub mod metadata;
pub mod mime;
pub mod extract;
