//! The `info` command: the time unit and the time bounds of a dump.

use vstd::prelude::*;
use crate::cli::info::InfoArgs;
use crate::engine::{CommandData, CommandName, CommandResult, DataView, HumanRenderOptions, ResultView};
use crate::error::{ErrorView, WavepeekError};
use crate::metadata::metadata_of;
use crate::waveform::{opened, DumpFile, DumpView, Waveform};

verus! {

/// The metadata of a dump, as the `info` command reports it.
#[derive(Debug, Clone, PartialEq, Eq)]
pub struct InfoData {
    /// The timescale, as `<factor><unit>`.
    pub time_unit: String,
    /// The first timestamp, scaled, with the unit.
    pub time_start: String,
    /// The last timestamp, scaled, with the unit.
    pub time_end: String,
}

/// The mathematical value of an `InfoData`.
pub struct InfoView {
    pub time_unit: Seq<char>,
    pub time_start: Seq<char>,
    pub time_end: Seq<char>,
}

impl View for InfoData {
    type V = InfoView;

    open spec fn view(&self) -> InfoView {
        InfoView {
            time_unit: self.time_unit@,
            time_start: self.time_start@,
            time_end: self.time_end@,
        }
    }
}

/// What `info` reports of a dump: its metadata, without warnings, or the
/// failure that the metadata met.
pub open spec fn info_report(json: bool, dump: DumpView) -> Result<ResultView, ErrorView> {
    match metadata_of(dump.timescale, dump.time_table) {
        Ok(metadata) => Ok(
            ResultView {
                command: CommandName::Info,
                json,
                human_options: HumanRenderOptions { scope_tree: false, signals_abs: false },
                data: DataView::Info(
                    InfoView {
                        time_unit: metadata.time_unit,
                        time_start: metadata.time_start,
                        time_end: metadata.time_end,
                    },
                ),
                warnings: Seq::empty(),
            },
        ),
        Err(failure) => Err(failure),
    }
}

/// Reports the metadata of an open dump.
pub fn report(args: &InfoArgs, waveform: &Waveform) -> (r: Result<CommandResult, WavepeekError>)
    ensures
        crate::error::outcome_view(r) == info_report(args.json, waveform@),
{
    match waveform.metadata() {
        Err(error) => Err(error),
        Ok(metadata) => {
            let warnings: Vec<String> = Vec::new();
            proof {
                assert(crate::text::string_views(warnings@) =~= Seq::<Seq<char>>::empty());
            }
            Ok(
                CommandResult {
                    command: CommandName::Info,
                    json: args.json,
                    human_options: HumanRenderOptions { scope_tree: false, signals_abs: false },
                    data: CommandData::Info(
                        InfoData {
                            time_unit: metadata.time_unit,
                            time_start: metadata.time_start,
                            time_end: metadata.time_end,
                        },
                    ),
                    warnings,
                },
            )
        },
    }
}

/// What `info` gives for each thing that the file gave: the failure of
/// opening, or the report of the dump that was opened.
pub open spec fn run_outcome(args: InfoArgs, file: DumpFile) -> Result<ResultView, ErrorView> {
    match opened(args.waves@, file) {
        Err(failure) => Err(failure),
        Ok(dump) => info_report(args.json, dump),
    }
}

/// Opens the dump of `args.waves` from what the file gave and reports its
/// metadata. Every failure is a File error.
pub fn run(args: InfoArgs, file: DumpFile) -> (r: Result<CommandResult, WavepeekError>)
    ensures
        crate::error::outcome_view(r) == run_outcome(args, file),
        r matches Err(e) ==> e@ is File,
{
    let waveform = match Waveform::open(args.waves.as_str(), file) {
        Err(error) => {
            return Err(error);
        },
        Ok(waveform) => waveform,
    };
    report(&args, &waveform)
}

} // verus!
