//! Arguments of the `signal` command.

use vstd::prelude::*;

verus! {

/// The signals of one scope.
#[derive(Debug)]
pub struct SignalArgs {
    /// Path to the VCD/FST waveform file.
    pub waves: String,
    /// Exact scope path (for example, top.cpu).
    pub scope: String,
    /// Maximum number of entries in the output.
    pub max: usize,
    /// Regex filter for the signal name.
    pub filter: String,
    /// Show absolute signal paths.
    pub abs: bool,
    /// Strict JSON envelope output.
    pub json: bool,
}

} // verus!
