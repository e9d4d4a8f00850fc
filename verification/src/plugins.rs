//! Plugin manifest metadata.

use vstd::prelude::*;

use crate::text::owned;

verus! {

/// Minimal plugin manifest metadata.
#[derive(Clone, Debug, PartialEq, Eq)]
pub struct PluginManifest {
    /// Plugin name.
    pub name: String,
    /// Plugin version.
    pub version: String,
}

impl PluginManifest {
    /// Creates a plugin manifest.
    pub fn new(name: &str, version: &str) -> (m: Self)
        ensures
            m.name@ == name@,
            m.version@ == version@,
    {
        PluginManifest { name: owned(name), version: owned(version) }
    }
}

} // verus!
