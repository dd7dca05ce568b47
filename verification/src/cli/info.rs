//! Arguments of the `info` command.

use vstd::prelude::*;

verus! {

/// Dump metadata: time unit and bounds.
#[derive(Debug)]
pub struct InfoArgs {
    /// Path to the VCD/FST waveform file.
    pub waves: String,
    /// Strict JSON envelope output.
    pub json: bool,
}

} // verus!
