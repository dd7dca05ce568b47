//! Arguments of the `change` command.

use vstd::prelude::*;

verus! {

/// Value snapshots over a time range.
#[derive(Debug)]
pub struct ChangeArgs {
    /// Path to the VCD/FST waveform file.
    pub waves: String,
    /// Start of the time range (inclusive).
    pub from: Option<String>,
    /// End of the time range (inclusive).
    pub to: Option<String>,
    /// Scope for short signal and clock names.
    pub scope: Option<String>,
    /// Signal names.
    pub signals: Vec<String>,
    /// Clock signal for posedge snapshots.
    pub clk: Option<String>,
    /// Maximum number of snapshot rows.
    pub max: usize,
    /// Strict JSON envelope output.
    pub json: bool,
}

} // verus!
