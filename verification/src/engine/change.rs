//! The `change` command: value snapshots over a time range.

use vstd::prelude::*;
use crate::cli::change::ChangeArgs;
use crate::engine::{unimplemented, unimplemented_failure, CommandResult};
use crate::error::WavepeekError;

verus! {

/// Not implemented: always fails with an Unimplemented error that names
/// the command.
pub fn run(_args: ChangeArgs) -> (r: Result<CommandResult, WavepeekError>)
    ensures
        r matches Err(e) && e@ == unimplemented_failure("change"@),
{
    Err(unimplemented("change"))
}

} // verus!
