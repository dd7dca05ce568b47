//! The `signal` command: the signals of one scope.

use vstd::prelude::*;
use vstd::string::StringExecFns;
use crate::cli::signal::SignalArgs;
use crate::engine::{CommandData, CommandName, CommandResult, DataView, HumanRenderOptions, ResultView};
use crate::error::{ErrorView, WavepeekError};
use crate::shape::{
    cap_warnings, capped, filter_refusal, is_match, limit, pattern_language,
    prepare_filter, regex_language,
};
use crate::kinds::signal_kind_text;
use crate::listing::{signal_entry_views, signals_of, SignalEntryView};
use crate::waveform::{opened, DumpFile, DumpView, Waveform};

verus! {

/// One signal of a scope, as the `signal` command reports it.
#[derive(Debug, Clone, PartialEq, Eq)]
pub struct SignalEntry {
    /// The signal's own name.
    pub name: String,
    /// The dot-joined full path of the signal.
    pub path: String,
    /// The word for the kind of signal.
    pub kind: String,
    /// The width in bits, where the decoder reports one.
    pub width: Option<u32>,
}

/// The mathematical value of a `SignalEntry`.
pub struct SignalRow {
    pub name: Seq<char>,
    pub path: Seq<char>,
    pub kind: Seq<char>,
    pub width: Option<u32>,
}

impl View for SignalEntry {
    type V = SignalRow;

    open spec fn view(&self) -> SignalRow {
        SignalRow { name: self.name@, path: self.path@, kind: self.kind@, width: self.width }
    }
}

/// The views of a list of signal entries.
pub open spec fn signal_rows(entries: Seq<SignalEntry>) -> Seq<SignalRow> {
    entries.map_values(|e: SignalEntry| e@)
}

/// The row that reports an entry of a listing: the kind is spelled out.
pub open spec fn row_of(entry: SignalEntryView) -> SignalRow {
    SignalRow {
        name: entry.name,
        path: entry.path,
        kind: signal_kind_text(entry.kind),
        width: entry.width,
    }
}

/// The rows of `listing` whose name lies in `language`, the texts that the
/// filter matches, in the order of the listing.
pub open spec fn matching_signals(
    listing: Seq<SignalEntryView>,
    language: Set<Seq<char>>,
) -> Seq<SignalRow> {
    listing.map_values(|e: SignalEntryView| row_of(e)).filter(
        |row: SignalRow| language.contains(row.name),
    )
}

/// What `signal` reports of a dump: the matching rows of the listing of
/// `args.scope`, cut down to `args.max`, with the truncation warning where
/// rows were cut; or the Scope failure where the path leads to no scope.
pub open spec fn signal_report(args: SignalArgs, dump: DumpView, language: Set<Seq<char>>) -> Result<
    ResultView,
    ErrorView,
> {
    match signals_of(dump, args.scope@) {
        Err(failure) => Err(failure),
        Ok(listing) => {
            let matching = matching_signals(listing, language);
            Ok(
                ResultView {
                    command: CommandName::Signal,
                    json: args.json,
                    human_options: HumanRenderOptions { scope_tree: false, signals_abs: args.abs },
                    data: DataView::Signal(capped(matching, args.max as nat)),
                    warnings: cap_warnings(matching.len(), args.max as nat),
                },
            )
        },
    }
}

/// Lists the signals of `args.scope` in an open dump, keeps those whose
/// name `filter` matches, and cuts the result down to `args.max`.
pub fn report(args: &SignalArgs, waveform: &Waveform, filter: &regex::Regex) -> (r: Result<
    CommandResult,
    WavepeekError,
>)
    ensures
        crate::error::outcome_view(r) == signal_report(*args, waveform@, regex_language(*filter)),
{
    let listed = match waveform.signals_in_scope(args.scope.as_str()) {
        Err(error) => {
            return Err(error);
        },
        Ok(listed) => listed,
    };
    let ghost language = regex_language(*filter);
    let ghost keep = |row: SignalRow| language.contains(row.name);
    let ghost rows = signal_entry_views(listed@).map_values(
        |e: SignalEntryView| row_of(e),
    );
    let mut entries: Vec<SignalEntry> = Vec::new();
    let mut i: usize = 0;
    while i < listed.len()
        invariant
            0 <= i <= listed.len(),
            rows.len() == listed@.len(),
            forall|k: int| 0 <= k < listed@.len() ==> row_of((#[trigger] listed@[k])@) == rows[k],
            signal_rows(entries@) == rows.take(i as int).filter(keep),
            keep == |row: SignalRow| language.contains(row.name),
            language == regex_language(*filter),
        decreases listed.len() - i,
    {
        let entry = &listed[i];
        proof {
            reveal(Seq::filter);
            assert(rows.take(i + 1).drop_last() =~= rows.take(i as int));
            assert(rows.take(i + 1).last() == row_of(entry@));
        }
        if is_match(filter, entry.name.as_str()) {
            let ghost earlier = signal_rows(entries@);
            entries.push(
                SignalEntry {
                    name: entry.name.clone(),
                    path: entry.path.clone(),
                    kind: String::from_str(entry.kind.as_str()),
                    width: entry.width,
                },
            );
            proof {
                assert(signal_rows(entries@) =~= earlier.push(row_of(entry@)));
            }
        }
        i += 1;
    }
    proof {
        assert(rows.take(listed.len() as int) =~= rows);
    }
    let ghost matching = signal_rows(entries@);
    let warnings = limit(&mut entries, args.max);
    proof {
        assert(signal_rows(entries@) =~= capped(matching, args.max as nat));
    }
    Ok(
        CommandResult {
            command: CommandName::Signal,
            json: args.json,
            human_options: HumanRenderOptions { scope_tree: false, signals_abs: args.abs },
            data: CommandData::Signal(entries),
            warnings,
        },
    )
}

/// What `execute` gives for each thing that the file gave: the failure of
/// opening, or the report of the dump that was opened, under the filter
/// that matches the texts in `language`.
pub open spec fn execute_outcome(
    args: SignalArgs,
    language: Set<Seq<char>>,
    file: DumpFile,
) -> Result<ResultView, ErrorView> {
    match opened(args.waves@, file) {
        Err(failure) => Err(failure),
        Ok(dump) => signal_report(args, dump, language),
    }
}

/// What `run` gives: the failure that stands in the way of the filter,
/// found before the dump is opened; otherwise the outcome of `execute`
/// under `args.filter`.
pub open spec fn run_outcome(args: SignalArgs, file: DumpFile) -> Result<ResultView, ErrorView> {
    match filter_refusal(args.max, args.filter@, "signal"@) {
        Some(failure) => Err(failure),
        None => execute_outcome(args, pattern_language(args.filter@), file),
    }
}

/// Checks the cap and compiles the filter, before any dump is opened.
pub fn prepare(args: &SignalArgs) -> (r: Result<regex::Regex, WavepeekError>)
    ensures
        match r {
            Ok(filter) => filter_refusal(args.max, args.filter@, "signal"@) is None
                && regex_language(filter) == pattern_language(args.filter@),
            Err(e) => filter_refusal(args.max, args.filter@, "signal"@) == Some(e@),
        },
{
    prepare_filter(args.max, args.filter.as_str(), "signal")
}

/// Opens the dump of `args.waves` from what the file gave and reports the
/// signals of `args.scope` under a prepared filter.
pub fn execute(args: SignalArgs, filter: regex::Regex, file: DumpFile) -> (r: Result<
    CommandResult,
    WavepeekError,
>)
    ensures
        crate::error::outcome_view(r) == execute_outcome(args, regex_language(filter), file),
{
    let waveform = match Waveform::open(args.waves.as_str(), file) {
        Err(error) => {
            return Err(error);
        },
        Ok(waveform) => waveform,
    };
    report(&args, &waveform, &filter)
}

/// Runs the `signal` command on what the file of `args.waves` gave.
///
/// A cap of zero is an Args error, and so is a filter that is not
/// accepted; both are found before the dump is opened. A dump that cannot
/// be opened is a File error, and a scope path that leads to no scope is a
/// Scope error. No other failure occurs.
pub fn run(args: SignalArgs, file: DumpFile) -> (r: Result<CommandResult, WavepeekError>)
    ensures
        crate::error::outcome_view(r) == run_outcome(args, file),
{
    match prepare(&args) {
        Err(error) => Err(error),
        Ok(filter) => execute(args, filter, file),
    }
}

} // verus!
