//! Arguments of the `scope` command.

use vstd::prelude::*;

verus! {

/// The scopes of the hierarchy, depth first.
#[derive(Debug)]
pub struct ScopeArgs {
    /// Path to the VCD/FST waveform file.
    pub waves: String,
    /// Maximum number of entries in the output.
    pub max: usize,
    /// Maximum traversal depth.
    pub max_depth: usize,
    /// Regex filter for the scope path.
    pub filter: String,
    /// Render the hierarchy as a tree.
    pub tree: bool,
    /// Strict JSON envelope output.
    pub json: bool,
}

} // verus!
