//! Arguments of the `at` command.

use vstd::prelude::*;

verus! {

/// Signal values at one point in time.
#[derive(Debug)]
pub struct AtArgs {
    /// Path to the VCD/FST waveform file.
    pub waves: String,
    /// Time point with units (for example, 1337ns).
    pub time: String,
    /// Scope for short signal names.
    pub scope: Option<String>,
    /// Signal names.
    pub signals: Vec<String>,
    /// Strict JSON envelope output.
    pub json: bool,
}

} // verus!
