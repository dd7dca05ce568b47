//! Arguments of the `schema` command.

use vstd::prelude::*;

verus! {

/// The JSON schema of the structured output.
#[derive(Debug)]
pub struct SchemaArgs {
    /// Strict JSON envelope output.
    pub json: bool,
}

} // verus!
