//! The `when` command: cycles in which a condition holds.

use vstd::prelude::*;
use crate::cli::when::WhenArgs;
use crate::engine::{unimplemented, unimplemented_failure, CommandResult};
use crate::error::WavepeekError;

verus! {

/// Not implemented: always fails with an Unimplemented error that names
/// the command.
pub fn run(_args: WhenArgs) -> (r: Result<CommandResult, WavepeekError>)
    ensures
        r matches Err(e) && e@ == unimplemented_failure("when"@),
{
    Err(unimplemented("when"))
}

} // verus!
