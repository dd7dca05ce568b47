//! The waveform query engine: a decoded dump and the three queries on it,
//! the metadata, the walk over the scopes, and the listing of the signals
//! of one scope.

use vstd::prelude::*;
use vstd::string::StringExecFns;
use crate::decoder::{
    all_scopes_of, all_vars_of, child_scopes, hierarchy_roots, hierarchy_scopes,
    hierarchy_timescale, hierarchy_vars, lookup_scope, named_below, root_scopes,
    scope_full_name, scope_name,
    scope_type, scope_vars, timescale, var_full_name, var_length, var_name, var_type, ScopeModel,
    VarModel,
};
use crate::error::{outcome_view, ErrorView, WavepeekError};
use crate::kinds::{map_scope_kind, map_signal_kind};
use crate::listing::{
    entries_ascend, law_signal_listing_ascends, listing_view, signal_entry_of, signal_entry_views,
    signals_of, var_keys, SignalEntry,
};
use crate::metadata::{format_timescale, metadata_of, normalize_time, WaveformMetadata};
use crate::order::{all_among, key_views, order_siblings, positions, SortKey, SortKeyView};
use crate::scan::{flat, flatten, holds_no, law_flat_is_single_line};
use crate::text::split;
use crate::walk::{
    all_well_named, forest, law_depth_bound, law_paths_follow_parents, law_walk_is_shaped,
    ordered_scopes, paths_follow_parents, scope_entry_of, scope_entry_views, scope_keys,
    subtree, traversal, walk_shaped, well_named_within, ScopeEntry,
};

verus! {

/// A decoded dump. It is opened once and never changed.
pub struct Waveform {
    hierarchy: wellen::Hierarchy,
    time_table: Vec<u64>,
}

/// What a decoded dump holds, as far as the queries read it.
pub struct DumpView {
    /// The declared timescale, if any.
    pub timescale: Option<wellen::Timescale>,
    /// The raw timestamps, in order.
    pub time_table: Seq<u64>,
    /// The top-level scopes, in the decoder's order.
    pub roots: Seq<usize>,
    /// The scopes, by index.
    pub scopes: Map<usize, ScopeModel>,
    /// The variables, by index.
    pub vars: Map<usize, VarModel>,
}

/// What a hierarchy and a time table hold together, as far as the queries
/// read them.
pub open spec fn dump_view(hierarchy: wellen::Hierarchy, time_table: Seq<u64>) -> DumpView {
    DumpView {
        timescale: hierarchy_timescale(hierarchy),
        time_table,
        roots: hierarchy_roots(hierarchy),
        scopes: hierarchy_scopes(hierarchy),
        vars: hierarchy_vars(hierarchy),
    }
}

impl View for Waveform {
    type V = DumpView;

    closed spec fn view(&self) -> DumpView {
        dump_view(self.hierarchy, self.time_table@)
    }
}

/// Why the decoder rejected a dump: the words of an I/O failure, or the
/// words of any other failure.
pub enum DecodeFailure {
    Io(String),
    Format(String),
}

/// What reading and decoding the file that holds a dump gave.
pub enum DumpFile {
    /// There is no file at the path.
    Missing,
    /// The file is there but could not be read; the text says why.
    Unreadable(String),
    /// The decoder rejected the file.
    Rejected(DecodeFailure),
    /// The hierarchy and the time table that the decoder made of the file.
    Decoded(wellen::Hierarchy, Vec<u64>),
}

/// The failure reported for a dump that cannot be opened. The message is
/// put together and then flattened, so that it stays on a single line
/// whatever the reason says.
pub open spec fn cannot_open(path: Seq<char>, detail: Seq<char>) -> ErrorView {
    ErrorView::File(flat("cannot open '"@ + path + "': "@ + detail))
}

/// The failure reported for a dump that the decoder cannot parse,
/// flattened likewise.
pub open spec fn cannot_parse(path: Seq<char>, detail: Seq<char>) -> ErrorView {
    ErrorView::File(flat("cannot parse '"@ + path + "': "@ + detail))
}

/// The failure reported for each way in which the decoder rejects a dump.
pub open spec fn decode_failure(path: Seq<char>, failure: DecodeFailure) -> ErrorView {
    match failure {
        DecodeFailure::Io(detail) => cannot_open(path, detail@),
        DecodeFailure::Format(detail) => cannot_parse(path, detail@),
    }
}

/// What opening gives for each thing that the file gave: the decoded dump,
/// or the File failure of a file that is missing, unreadable or rejected.
pub open spec fn opened(path: Seq<char>, file: DumpFile) -> Result<DumpView, ErrorView> {
    match file {
        DumpFile::Missing => Err(cannot_open(path, "No such file or directory"@)),
        DumpFile::Unreadable(detail) => Err(cannot_open(path, detail@)),
        DumpFile::Rejected(failure) => Err(decode_failure(path, failure)),
        DumpFile::Decoded(hierarchy, time_table) => Ok(dump_view(hierarchy, time_table@)),
    }
}

/// Every failure of opening is a File error on a single line: its message
/// holds no line feed, whatever the path and the reason are.
pub proof fn law_open_failure_is_single_line(path: Seq<char>, file: DumpFile)
    ensures
        opened(path, file) matches Err(e) ==> e matches ErrorView::File(message) && holds_no(
            message,
            '\n',
        ),
{
    match file {
        DumpFile::Missing => {
            law_flat_is_single_line("cannot open '"@ + path + "': "@ + "No such file or directory"@);
        },
        DumpFile::Unreadable(detail) => {
            law_flat_is_single_line("cannot open '"@ + path + "': "@ + detail@);
        },
        DumpFile::Rejected(failure) => {
            match failure {
                DecodeFailure::Io(detail) => {
                    law_flat_is_single_line("cannot open '"@ + path + "': "@ + detail@);
                },
                DecodeFailure::Format(detail) => {
                    law_flat_is_single_line("cannot parse '"@ + path + "': "@ + detail@);
                },
            }
        },
        DumpFile::Decoded(_, _) => {},
    }
}

fn file_failure(lead: &str, path: &str, detail: &str) -> (r: WavepeekError)
    ensures
        r@ == ErrorView::File(flat(lead@ + path@ + "': "@ + detail@)),
{
    let mut message = String::from_str(lead);
    message.append(path);
    message.append("': ");
    message.append(detail);
    WavepeekError::File(flatten(message.as_str()))
}

/// Turns a rejection by the decoder into a File error that names the dump:
/// an I/O failure reads "cannot open", any other "cannot parse".
pub fn map_wellen_error(path: &str, failure: DecodeFailure) -> (r: WavepeekError)
    ensures
        r@ == decode_failure(path@, failure),
{
    match failure {
        DecodeFailure::Io(detail) => file_failure("cannot open '", path, detail.as_str()),
        DecodeFailure::Format(detail) => file_failure("cannot parse '", path, detail.as_str()),
    }
}

impl Waveform {
    /// Opens the dump of the file at `path`, from what reading and decoding
    /// the file gave. A decoded file opens as the dump that the decoder
    /// made of it. A missing or unreadable file fails with a File error
    /// that reads "cannot open"; a rejected file with one that reads
    /// "cannot open" or "cannot parse", with the decoder's own words.
    pub fn open(path: &str, file: DumpFile) -> (r: Result<Waveform, WavepeekError>)
        ensures
            outcome_view(r) == opened(path@, file),
    {
        match file {
            DumpFile::Missing => Err(
                file_failure("cannot open '", path, "No such file or directory"),
            ),
            DumpFile::Unreadable(detail) => Err(
                file_failure("cannot open '", path, detail.as_str()),
            ),
            DumpFile::Rejected(failure) => Err(map_wellen_error(path, failure)),
            DumpFile::Decoded(hierarchy, time_table) => Ok(Waveform { hierarchy, time_table }),
        }
    }

    /// Lists the signals that the scope at `scope_path` owns directly, not
    /// those of its descendants, ascending by (name, path). The path is
    /// matched exactly, segment by segment. A path that leads to no scope
    /// fails with a Scope error, never with another category.
    pub fn signals_in_scope(&self, scope_path: &str) -> (r: Result<Vec<SignalEntry>, WavepeekError>)
        ensures
            listing_view(r) == signals_of(self@, scope_path@),
            r matches Ok(entries) ==> entries_ascend(signal_entry_views(entries@)),
            r matches Err(e) ==> e@ is Scope,
    {
        let names = split(scope_path, '.');
        let scope = match lookup_scope(&self.hierarchy, &names) {
            Some(scope) => scope,
            None => {
                let mut message = String::from_str("scope '");
                message.append(scope_path);
                message.append("' not found in dump");
                return Err(WavepeekError::Scope(message));
            },
        };
        let ghost model = hierarchy_vars(self.hierarchy);
        let vars = scope_vars(&self.hierarchy, scope);
        let mut listed: Vec<SignalEntry> = Vec::new();
        let mut keys: Vec<SortKey> = Vec::new();
        let mut i: usize = 0;
        while i < vars.len()
            invariant
                0 <= i <= vars.len(),
                model == hierarchy_vars(self.hierarchy),
                all_vars_of(self.hierarchy, vars@),
                listed@.len() == i,
                keys@.len() == i,
                forall|k: int| 0 <= k < i ==> (#[trigger] listed@[k])@ == signal_entry_of(model, vars@[k]),
                forall|k: int|
                    0 <= k < i ==> (#[trigger] keys@[k])@ == (SortKeyView {
                        name: model[vars@[k]].name,
                        path: model[vars@[k]].path,
                    }),
            decreases vars.len() - i,
        {
            let var = vars[i];
            let name = var_name(&self.hierarchy, var);
            let path = var_full_name(&self.hierarchy, var);
            let kind = map_signal_kind(var_type(&self.hierarchy, var));
            let width = var_length(&self.hierarchy, var);
            keys.push(SortKey { name: name.clone(), path: path.clone() });
            listed.push(SignalEntry { name, path, kind, width });
            i += 1;
        }
        proof {
            assert(key_views(keys@) =~= var_keys(model, vars@));
            crate::order::law_sibling_order_sorted(key_views(keys@));
        }
        let order = order_siblings(&keys);
        let mut signals: Vec<SignalEntry> = Vec::new();
        let mut j: usize = 0;
        while j < order.len()
            invariant
                0 <= j <= order.len(),
                listed@.len() == vars@.len(),
                crate::order::lists_each_once(positions(order@), vars@.len()),
                forall|k: int|
                    0 <= k < listed@.len() ==> (#[trigger] listed@[k])@ == signal_entry_of(
                        model,
                        vars@[k],
                    ),
                signal_entry_views(signals@) == positions(order@).take(j as int).map_values(
                    |p: int| signal_entry_of(model, vars@[p]),
                ),
            decreases order.len() - j,
        {
            let ghost earlier = signal_entry_views(signals@);
            proof {
                assert(positions(order@)[j as int] == order@[j as int] as int);
            }
            signals.push(listed[order[j]].duplicate());
            proof {
                let held = positions(order@);
                assert(held.take(j + 1) =~= held.take(j as int).push(held[j as int]));
                assert(signal_entry_views(signals@) =~= earlier.push(
                    signal_entry_of(model, vars@[held[j as int]]),
                ));
                assert(signal_entry_views(signals@) =~= held.take(j + 1).map_values(
                    |p: int| signal_entry_of(model, vars@[p]),
                ));
            }
            j += 1;
        }
        proof {
            assert(positions(order@).take(order.len() as int) =~= positions(order@));
            law_signal_listing_ascends(self@, scope);
        }
        Ok(signals)
    }

    /// Walks the scopes of the dump depth first, in preorder, siblings in
    /// ascending order of (name, path), and no deeper than `max_depth`. A
    /// scope at `max_depth` is reported; its children are not visited. The
    /// result begins at depth 0, no entry lies more than one level below
    /// the entry before it, and the path of every entry below depth 0 is
    /// the path of its parent, a dot, and a name.
    pub fn scopes_depth_first(&self, max_depth: usize) -> (r: Vec<ScopeEntry>)
        ensures
            scope_entry_views(r@) == traversal(self@, max_depth as nat),
            walk_shaped(scope_entry_views(r@)),
            forall|i: int| 0 <= i < r@.len() ==> (#[trigger] r@[i]).depth <= max_depth,
            paths_follow_parents(scope_entry_views(r@)),
    {
        let ghost model = hierarchy_scopes(self.hierarchy);
        let mut roots = root_scopes(&self.hierarchy);
        sort_scope_refs(&self.hierarchy, &mut roots);
        let mut entries: Vec<ScopeEntry> = Vec::new();
        let mut i: usize = 0;
        while i < roots.len()
            invariant
                0 <= i <= roots.len(),
                model == hierarchy_scopes(self.hierarchy),
                all_scopes_of(self.hierarchy, roots@),
                forall|k: int|
                    0 <= k < i ==> well_named_within(model, #[trigger] roots@[k], max_depth as nat),
                scope_entry_views(entries@) == forest(
                    model,
                    roots@.take(i as int),
                    0,
                    max_depth as nat,
                ),
            decreases roots.len() - i,
        {
            collect_scope_entries(&self.hierarchy, roots[i], 0, max_depth, &mut entries);
            proof {
                assert(roots@.take(i + 1).drop_last() =~= roots@.take(i as int));
                assert(roots@.take(i + 1).last() == roots@[i as int]);
            }
            i += 1;
        }
        proof {
            assert(roots@.take(roots.len() as int) =~= roots@);
            law_walk_is_shaped(self@, max_depth as nat);
            law_depth_bound(self@, max_depth as nat);
            assert forall|i: int| 0 <= i < entries@.len() implies (#[trigger] entries@[i]).depth
                <= max_depth by {
                assert(scope_entry_views(entries@)[i] == entries@[i]@);
            }
            assert(all_well_named(model, roots@, max_depth as nat));
            law_paths_follow_parents(self@, max_depth as nat);
        }
        entries
    }

    /// The timescale and the bounds of the time table, in display form.
    /// Fails with a File error if the dump declares no timescale, if the
    /// unit of its timescale is unknown, or if a bound overflows when
    /// scaled.
    pub fn metadata(&self) -> (r: Result<WaveformMetadata, WavepeekError>)
        ensures
            outcome_view(r) == metadata_of(self@.timescale, self@.time_table),
    {
        let scale = match timescale(&self.hierarchy) {
            None => {
                return Err(
                    WavepeekError::File(String::from_str("waveform is missing timescale metadata")),
                );
            },
            Some(scale) => scale,
        };
        let time_unit = match format_timescale(scale) {
            Err(error) => {
                return Err(error);
            },
            Ok(text) => text,
        };
        let table = self.time_table.as_slice();
        let time_start: u64 = match table.first() {
            Some(first) => *first,
            None => 0,
        };
        let time_end: u64 = match table.last() {
            Some(last) => *last,
            None => time_start,
        };
        let start_text = match normalize_time(time_start, scale) {
            Err(error) => {
                return Err(error);
            },
            Ok(text) => text,
        };
        let end_text = match normalize_time(time_end, scale) {
            Err(error) => {
                return Err(error);
            },
            Ok(text) => text,
        };
        Ok(WaveformMetadata { time_unit, time_start: start_text, time_end: end_text })
    }
}

/// Puts `scopes` into sibling order: ascending by name, then by full path.
fn sort_scope_refs(hierarchy: &wellen::Hierarchy, scopes: &mut Vec<usize>)
    requires
        all_scopes_of(*hierarchy, old(scopes)@),
    ensures
        final(scopes)@ == ordered_scopes(hierarchy_scopes(*hierarchy), old(scopes)@),
        all_scopes_of(*hierarchy, final(scopes)@),
        all_among(final(scopes)@, old(scopes)@),
{
    let ghost model = hierarchy_scopes(*hierarchy);
    let mut keys: Vec<SortKey> = Vec::new();
    let mut i: usize = 0;
    while i < scopes.len()
        invariant
            0 <= i <= scopes.len(),
            scopes@ == old(scopes)@,
            model == hierarchy_scopes(*hierarchy),
            all_scopes_of(*hierarchy, scopes@),
            keys@.len() == i,
            key_views(keys@) == scope_keys(model, scopes@.take(i as int)),
        decreases scopes.len() - i,
    {
        let name = scope_name(hierarchy, scopes[i]);
        let path = scope_full_name(hierarchy, scopes[i]);
        let ghost earlier = keys@;
        keys.push(SortKey { name, path });
        proof {
            let wanted = scope_keys(model, scopes@.take(i + 1));
            assert(key_views(keys@).len() == wanted.len());
            assert forall|k: int| 0 <= k < wanted.len() implies key_views(keys@)[k] == wanted[k] by {
                if k < i {
                    assert(keys@[k] == earlier[k]);
                    assert(key_views(earlier)[k] == scope_keys(model, scopes@.take(i as int))[k]);
                }
            }
            assert(key_views(keys@) =~= wanted);
        }
        i += 1;
    }
    proof {
        assert(scopes@.take(scopes.len() as int) =~= scopes@);
        crate::order::law_sibling_order_sorted(key_views(keys@));
    }
    let order = order_siblings(&keys);
    let mut sorted: Vec<usize> = Vec::new();
    let mut j: usize = 0;
    while j < order.len()
        invariant
            0 <= j <= order.len(),
            scopes@ == old(scopes)@,
            all_scopes_of(*hierarchy, scopes@),
            crate::order::lists_each_once(positions(order@), scopes@.len()),
            sorted@ == positions(order@).take(j as int).map_values(|p: int| scopes@[p]),
            all_scopes_of(*hierarchy, sorted@),
            all_among(sorted@, scopes@),
        decreases order.len() - j,
    {
        proof {
            assert(positions(order@)[j as int] == order@[j as int] as int);
        }
        let position = order[j];
        sorted.push(scopes[position]);
        proof {
            let held = positions(order@);
            assert(held.take(j + 1) =~= held.take(j as int).push(held[j as int]));
            assert(sorted@ =~= held.take(j + 1).map_values(|p: int| scopes@[p]));
        }
        j += 1;
    }
    proof {
        assert(positions(order@).take(order.len() as int) =~= positions(order@));
    }
    *scopes = sorted;
}

/// Walks the subtree of `scope_ref`, which stands at depth `depth`, and
/// appends what it visits to `entries`.
fn collect_scope_entries(
    hierarchy: &wellen::Hierarchy,
    scope_ref: usize,
    depth: usize,
    max_depth: usize,
    entries: &mut Vec<ScopeEntry>,
)
    requires
        hierarchy_scopes(*hierarchy).contains_key(scope_ref),
        depth <= max_depth,
    ensures
        scope_entry_views(final(entries)@) == scope_entry_views(old(entries)@) + subtree(
            hierarchy_scopes(*hierarchy),
            scope_ref,
            depth as nat,
            max_depth as nat,
        ),
        well_named_within(hierarchy_scopes(*hierarchy), scope_ref, (max_depth - depth) as nat),
    decreases max_depth - depth,
{
    let ghost model = hierarchy_scopes(*hierarchy);
    let ghost before = scope_entry_views(entries@);
    let path = scope_full_name(hierarchy, scope_ref);
    let kind = map_scope_kind(scope_type(hierarchy, scope_ref));
    entries.push(ScopeEntry { path, depth, kind });
    proof {
        assert(scope_entry_views(entries@) =~= before + seq![
            scope_entry_of(model, scope_ref, depth as nat),
        ]);
    }
    if depth >= max_depth {
        return ;
    }
    let mut children = child_scopes(hierarchy, scope_ref);
    let ghost declared = children@;
    sort_scope_refs(hierarchy, &mut children);
    proof {
        assert forall|k: int| 0 <= k < children@.len() implies model[#[trigger] children@[k]].path
            == model[scope_ref].path + seq!['.'] + model[children@[k]].name by {
            assert(declared.contains(children@[k]));
            let at = choose|at: int| 0 <= at < declared.len() && declared[at] == children@[k];
            assert(model[declared[at]].path == model[scope_ref].path + seq!['.']
                + model[declared[at]].name);
        }
    }
    let mut i: usize = 0;
    while i < children.len()
        invariant
            0 <= i <= children.len(),
            depth < max_depth,
            model == hierarchy_scopes(*hierarchy),
            all_scopes_of(*hierarchy, children@),
            forall|k: int|
                0 <= k < i ==> well_named_within(
                    model,
                    #[trigger] children@[k],
                    (max_depth - depth - 1) as nat,
                ),
            scope_entry_views(entries@) == before + seq![
                scope_entry_of(model, scope_ref, depth as nat),
            ] + forest(model, children@.take(i as int), (depth + 1) as nat, max_depth as nat),
        decreases children.len() - i,
    {
        collect_scope_entries(hierarchy, children[i], depth + 1, max_depth, entries);
        proof {
            assert(children@.take(i + 1).drop_last() =~= children@.take(i as int));
            assert(children@.take(i + 1).last() == children@[i as int]);
        }
        i += 1;
    }
    proof {
        assert(children@.take(children.len() as int) =~= children@);
        assert(named_below(model, scope_ref, children@));
        assert(well_named_within(model, scope_ref, (max_depth - depth) as nat));
    }
}

} // verus!
