//! The `at` command: signal values at one point in time.

use vstd::prelude::*;
use crate::cli::at::AtArgs;
use crate::engine::{unimplemented, unimplemented_failure, CommandResult};
use crate::error::WavepeekError;

verus! {

/// Not implemented: always fails with an Unimplemented error that names
/// the command.
pub fn run(_args: AtArgs) -> (r: Result<CommandResult, WavepeekError>)
    ensures
        r matches Err(e) && e@ == unimplemented_failure("at"@),
{
    Err(unimplemented("at"))
}

} // verus!
