//! Arguments of the `when` command.

use vstd::prelude::*;

verus! {

/// Cycles in which a condition holds.
#[derive(Debug)]
pub struct WhenArgs {
    /// Path to the VCD/FST waveform file.
    pub waves: String,
    /// Clock signal for posedge sampling.
    pub clk: String,
    /// Start of the time range (inclusive).
    pub from: Option<String>,
    /// End of the time range (inclusive).
    pub to: Option<String>,
    /// Scope for short signal and clock names.
    pub scope: Option<String>,
    /// Boolean expression in the expression language.
    pub cond: String,
    /// Return the first N matches.
    pub first: Option<usize>,
    /// Return the last N matches.
    pub last: Option<usize>,
    /// Maximum number of matches when no qualifier is used.
    pub max: Option<usize>,
    /// Strict JSON envelope output.
    pub json: bool,
}

} // verus!
