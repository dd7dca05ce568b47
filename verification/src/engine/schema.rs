//! The `schema` command: the JSON schema of the structured output.

use vstd::prelude::*;
use vstd::string::StringExecFns;
use crate::cli::schema::SchemaArgs;
use crate::engine::{CommandData, CommandName, CommandResult, DataView, HumanRenderOptions, ResultView};
use crate::error::WavepeekError;
use crate::schema_contract::canonical_schema_json;

verus! {

/// What `schema` reports: the canonical schema, always for a human reader,
/// so that it is printed as it stands.
pub open spec fn schema_report() -> ResultView {
    ResultView {
        command: CommandName::Schema,
        json: false,
        human_options: HumanRenderOptions { scope_tree: false, signals_abs: false },
        data: DataView::Schema(crate::schema_contract::canonical_schema_text()),
        warnings: Seq::empty(),
    }
}

/// Reports the canonical schema. Never fails.
pub fn run(_args: SchemaArgs) -> (r: Result<CommandResult, WavepeekError>)
    ensures
        r matches Ok(result) && result@ == schema_report(),
{
    let warnings: Vec<String> = Vec::new();
    proof {
        assert(crate::text::string_views(warnings@) =~= Seq::<Seq<char>>::empty());
    }
    Ok(
        CommandResult {
            command: CommandName::Schema,
            json: false,
            human_options: HumanRenderOptions { scope_tree: false, signals_abs: false },
            data: CommandData::Schema(String::from_str(canonical_schema_json())),
            warnings,
        },
    )
}

} // verus!
