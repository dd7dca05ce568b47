//! The `scope` command: the scopes of the hierarchy, depth first.

use vstd::prelude::*;
use vstd::string::StringExecFns;
use crate::cli::scope::ScopeArgs;
use crate::engine::{CommandData, CommandName, CommandResult, DataView, HumanRenderOptions, ResultView};
use crate::error::WavepeekError;
use crate::error::ErrorView;
use crate::shape::{
    cap_warnings, capped, filter_refusal, is_match, limit, pattern_language,
    prepare_filter, regex_language,
};
use crate::kinds::scope_kind_text;
use crate::walk::{traversal, ScopeEntryView};
use crate::waveform::{opened, DumpFile, DumpView, Waveform};

verus! {

/// One scope of the hierarchy, as the `scope` command reports it.
#[derive(Debug, Clone, PartialEq, Eq)]
pub struct ScopeEntry {
    /// The dot-joined full path of the scope.
    pub path: String,
    /// The depth below the top-level scopes, which are at depth 0.
    pub depth: usize,
    /// The word for the kind of scope.
    pub kind: String,
}

/// The mathematical value of a `ScopeEntry`.
pub struct ScopeRow {
    pub path: Seq<char>,
    pub depth: nat,
    pub kind: Seq<char>,
}

impl View for ScopeEntry {
    type V = ScopeRow;

    open spec fn view(&self) -> ScopeRow {
        ScopeRow { path: self.path@, depth: self.depth as nat, kind: self.kind@ }
    }
}

/// The views of a list of scope entries.
pub open spec fn scope_rows(entries: Seq<ScopeEntry>) -> Seq<ScopeRow> {
    entries.map_values(|e: ScopeEntry| e@)
}

/// The row that reports an entry of the walk: the kind is spelled out.
pub open spec fn row_of(entry: ScopeEntryView) -> ScopeRow {
    ScopeRow { path: entry.path, depth: entry.depth, kind: scope_kind_text(entry.kind) }
}

/// The rows of the walk of `dump` down to `max_depth` whose path lies in
/// `language`, the texts that the filter matches, in the order of the walk.
pub open spec fn matching_scopes(dump: DumpView, max_depth: nat, language: Set<Seq<char>>) -> Seq<ScopeRow> {
    traversal(dump, max_depth).map_values(|e: ScopeEntryView| row_of(e)).filter(
        |row: ScopeRow| language.contains(row.path),
    )
}

/// What `scope` reports of a dump: the matching rows of the walk, cut down
/// to `args.max`, with the truncation warning where rows were cut.
pub open spec fn scope_report(args: ScopeArgs, dump: DumpView, language: Set<Seq<char>>) -> ResultView {
    let matching = matching_scopes(dump, args.max_depth as nat, language);
    ResultView {
        command: CommandName::Scope,
        json: args.json,
        human_options: HumanRenderOptions { scope_tree: args.tree, signals_abs: false },
        data: DataView::Scope(capped(matching, args.max as nat)),
        warnings: cap_warnings(matching.len(), args.max as nat),
    }
}

/// The rows of a walk have the shape of a walk, and so have the first rows
/// of a walk: a report that no filter has thinned is drawn as a tree with
/// every row below its true ancestors.
pub proof fn law_rows_of_walk_are_shaped(dump: DumpView, max_depth: nat, max: nat)
    ensures
        crate::output::rows_walk_shaped(
            capped(
                traversal(dump, max_depth).map_values(
                    |e: ScopeEntryView| row_of(e),
                ),
                max,
            ),
        ),
{
    crate::walk::law_walk_is_shaped(dump, max_depth);
    let walk = traversal(dump, max_depth);
    let rows = walk.map_values(|e: ScopeEntryView| row_of(e));
    let kept = capped(rows, max);
    assert forall|i: int| 0 <= i < kept.len() - 1 implies (#[trigger] kept[i + 1]).depth
        <= kept[i].depth + 1 by {
        assert(kept[i] == rows[i] && kept[i + 1] == rows[i + 1]);
        assert(walk[i + 1].depth <= walk[i].depth + 1);
    }
    if kept.len() > 0 {
        assert(kept[0] == rows[0]);
    }
}

/// Walks an open dump, keeps the scopes whose path `filter` matches, and
/// cuts the result down to `args.max`.
pub fn report(args: &ScopeArgs, waveform: &Waveform, filter: &regex::Regex) -> (r: CommandResult)
    ensures
        r@ == scope_report(*args, waveform@, regex_language(*filter)),
{
    let ghost language = regex_language(*filter);
    let ghost keep = |row: ScopeRow| language.contains(row.path);
    let ghost walk = traversal(waveform@, args.max_depth as nat).map_values(
        |e: ScopeEntryView| row_of(e),
    );
    let walked = waveform.scopes_depth_first(args.max_depth);
    let mut entries: Vec<ScopeEntry> = Vec::new();
    let mut i: usize = 0;
    while i < walked.len()
        invariant
            0 <= i <= walked.len(),
            walk.len() == walked@.len(),
            forall|k: int| 0 <= k < walked@.len() ==> row_of((#[trigger] walked@[k])@) == walk[k],
            scope_rows(entries@) == walk.take(i as int).filter(keep),
            keep == |row: ScopeRow| language.contains(row.path),
            language == regex_language(*filter),
        decreases walked.len() - i,
    {
        let entry = &walked[i];
        proof {
            reveal(Seq::filter);
            assert(walk.take(i + 1).drop_last() =~= walk.take(i as int));
            assert(walk.take(i + 1).last() == row_of(entry@));
        }
        if is_match(filter, entry.path.as_str()) {
            let ghost earlier = scope_rows(entries@);
            entries.push(
                ScopeEntry {
                    path: entry.path.clone(),
                    depth: entry.depth,
                    kind: String::from_str(entry.kind.as_str()),
                },
            );
            proof {
                assert(scope_rows(entries@) =~= earlier.push(row_of(entry@)));
            }
        }
        i += 1;
    }
    proof {
        assert(walk.take(walked.len() as int) =~= walk);
    }
    let ghost matching = scope_rows(entries@);
    let warnings = limit(&mut entries, args.max);
    proof {
        assert(scope_rows(entries@) =~= capped(matching, args.max as nat));
    }
    CommandResult {
        command: CommandName::Scope,
        json: args.json,
        human_options: HumanRenderOptions { scope_tree: args.tree, signals_abs: false },
        data: CommandData::Scope(entries),
        warnings,
    }
}

/// What `execute` gives for each thing that the file gave: the failure of
/// opening, or the report of the dump that was opened, under the filter
/// that matches the texts in `language`.
pub open spec fn execute_outcome(
    args: ScopeArgs,
    language: Set<Seq<char>>,
    file: DumpFile,
) -> Result<ResultView, ErrorView> {
    match opened(args.waves@, file) {
        Err(failure) => Err(failure),
        Ok(dump) => Ok(scope_report(args, dump, language)),
    }
}

/// What `run` gives: the failure that stands in the way of the filter,
/// found before the dump is opened; otherwise the outcome of `execute`
/// under `args.filter`.
pub open spec fn run_outcome(args: ScopeArgs, file: DumpFile) -> Result<ResultView, ErrorView> {
    match filter_refusal(args.max, args.filter@, "scope"@) {
        Some(failure) => Err(failure),
        None => execute_outcome(args, pattern_language(args.filter@), file),
    }
}

/// Checks the cap and compiles the filter, before any dump is opened.
pub fn prepare(args: &ScopeArgs) -> (r: Result<regex::Regex, WavepeekError>)
    ensures
        match r {
            Ok(filter) => filter_refusal(args.max, args.filter@, "scope"@) is None
                && regex_language(filter) == pattern_language(args.filter@),
            Err(e) => filter_refusal(args.max, args.filter@, "scope"@) == Some(e@),
        },
{
    prepare_filter(args.max, args.filter.as_str(), "scope")
}

/// Opens the dump of `args.waves` from what the file gave and reports its
/// scopes under a prepared filter.
pub fn execute(args: ScopeArgs, filter: regex::Regex, file: DumpFile) -> (r: Result<
    CommandResult,
    WavepeekError,
>)
    ensures
        crate::error::outcome_view(r) == execute_outcome(args, regex_language(filter), file),
{
    let waveform = match Waveform::open(args.waves.as_str(), file) {
        Err(error) => {
            return Err(error);
        },
        Ok(waveform) => waveform,
    };
    Ok(report(&args, &waveform, &filter))
}

/// Runs the `scope` command on what the file of `args.waves` gave.
///
/// A cap of zero is an Args error, and so is a filter that is not
/// accepted; both are found before the dump is opened. A dump that cannot
/// be opened is a File error. No other failure occurs.
pub fn run(args: ScopeArgs, file: DumpFile) -> (r: Result<CommandResult, WavepeekError>)
    ensures
        crate::error::outcome_view(r) == run_outcome(args, file),
{
    match prepare(&args) {
        Err(error) => Err(error),
        Ok(filter) => execute(args, filter, file),
    }
}

} // verus!
