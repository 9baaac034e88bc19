//! What a plugin reports about itself. The program loads the shared
//! libraries and calls them.

use vstd::prelude::*;

verus! {

/// Information a plugin provides about itself: its name and version as
/// fixed-size byte fields.
#[derive(Debug, Clone, Copy)]
pub struct PluginInfo {
    pub name: [u8; 64],
    pub version: [u8; 16],
}

} // verus!
