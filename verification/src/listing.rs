//! The listing of the signals of one scope, as a mathematical function of
//! what a dump holds, and what holds of every listing.

use vstd::prelude::*;
use crate::decoder::{resolve, VarModel};
use crate::error::{ErrorView, WavepeekError};
use crate::kinds::{signal_kind_of, SignalKind};
use crate::order::{
    all_among, arranged, keys_differ, law_order_forgets_given_order, law_sibling_order_sorted,
    sibling_order, SortKeyView,
};
use crate::text::split_on;
use crate::waveform::DumpView;

verus! {

/// One signal of a scope, as the listing reports it.
#[derive(Debug, Clone, PartialEq, Eq)]
pub struct SignalEntry {
    /// The signal's own name.
    pub name: String,
    /// The dot-joined full path of the signal.
    pub path: String,
    /// The kind of signal.
    pub kind: SignalKind,
    /// The width in bits, where the decoder reports one.
    pub width: Option<u32>,
}

/// The mathematical value of a `SignalEntry`.
pub struct SignalEntryView {
    pub name: Seq<char>,
    pub path: Seq<char>,
    pub kind: SignalKind,
    pub width: Option<u32>,
}

impl View for SignalEntry {
    type V = SignalEntryView;

    open spec fn view(&self) -> SignalEntryView {
        SignalEntryView { name: self.name@, path: self.path@, kind: self.kind, width: self.width }
    }
}

impl SignalEntry {
    /// A copy of this entry.
    pub fn duplicate(&self) -> (r: SignalEntry)
        ensures
            r@ == self@,
    {
        SignalEntry {
            name: self.name.clone(),
            path: self.path.clone(),
            kind: self.kind,
            width: self.width,
        }
    }
}

/// The views of a list of signal entries.
pub open spec fn signal_entry_views(entries: Seq<SignalEntry>) -> Seq<SignalEntryView> {
    entries.map_values(|e: SignalEntry| e@)
}

/// The entry that the listing reports for variable `v`.
pub open spec fn signal_entry_of(vars: Map<usize, VarModel>, v: usize) -> SignalEntryView {
    SignalEntryView {
        name: vars[v].name,
        path: vars[v].path,
        kind: signal_kind_of(vars[v].var_type),
        width: vars[v].width,
    }
}

/// The keys by which the variables in `list` are ordered: name, then path.
pub open spec fn var_keys(vars: Map<usize, VarModel>, list: Seq<usize>) -> Seq<SortKeyView> {
    list.map_values(|v: usize| SortKeyView { name: vars[v].name, path: vars[v].path })
}

/// The signals that scope `scope` owns directly, ascending by
/// (name, path); signals with equal keys keep the decoder's order.
pub open spec fn signal_listing(dump: DumpView, scope: usize) -> Seq<SignalEntryView> {
    let list = dump.scopes[scope].vars;
    sibling_order(var_keys(dump.vars, list)).map_values(
        |p: int| signal_entry_of(dump.vars, list[p]),
    )
}

/// The key by which an entry of a listing is ordered.
pub open spec fn signal_key(entry: SignalEntryView) -> SortKeyView {
    SortKeyView { name: entry.name, path: entry.path }
}

/// The entries ascend by (name, path): none stands before an entry in
/// front of it.
pub open spec fn entries_ascend(entries: Seq<SignalEntryView>) -> bool {
    forall|i: int, j: int|
        0 <= i < j < entries.len() ==> !crate::order::key_before(
            signal_key(#[trigger] entries[j]),
            signal_key(#[trigger] entries[i]),
        )
}

/// A listing holds one entry for each variable of the scope, and its
/// entries ascend by (name, path), whatever the order in which the dump
/// declares the variables.
pub proof fn law_signal_listing_ascends(dump: DumpView, scope: usize)
    ensures
        signal_listing(dump, scope).len() == dump.scopes[scope].vars.len(),
        entries_ascend(signal_listing(dump, scope)),
{
    let list = dump.scopes[scope].vars;
    let keys = var_keys(dump.vars, list);
    let order = sibling_order(keys);
    law_sibling_order_sorted(keys);
    assert forall|i: int, j: int| 0 <= i < j < signal_listing(dump, scope).len() implies
        !crate::order::key_before(
        signal_key(#[trigger] signal_listing(dump, scope)[j]),
        signal_key(#[trigger] signal_listing(dump, scope)[i]),
    ) by {
        assert(signal_key(signal_listing(dump, scope)[i]) == keys[order[i]]);
        assert(signal_key(signal_listing(dump, scope)[j]) == keys[order[j]]);
    }
}

/// The entries of the variables that scope `scope` owns, in the decoder's
/// order.
pub open spec fn declared_entries(dump: DumpView, scope: usize) -> Seq<SignalEntryView> {
    dump.scopes[scope].vars.map_values(|v: usize| signal_entry_of(dump.vars, v))
}

/// A listing is the arrangement of the declared entries under their keys.
proof fn lemma_listing_is_arranged(dump: DumpView, scope: usize)
    ensures
        signal_listing(dump, scope) == arranged(
            declared_entries(dump, scope),
            |e: SignalEntryView| signal_key(e),
        ),
{
    let list = dump.scopes[scope].vars;
    let entries = declared_entries(dump, scope);
    let keys = var_keys(dump.vars, list);
    assert(entries.map_values(|e: SignalEntryView| signal_key(e)) =~= keys);
    law_sibling_order_sorted(keys);
    let order = sibling_order(keys);
    assert(signal_listing(dump, scope) =~= order.map_values(|p: int| entries[p]));
}

/// The listing does not depend on the order in which the variables are
/// declared: two scopes that own the same variables, no two of which bear
/// the same key, are listed alike, in whatever order each dump holds them.
pub proof fn law_listing_forgets_declaration_order(
    first: DumpView,
    first_scope: usize,
    second: DumpView,
    second_scope: usize,
)
    requires
        declared_entries(first, first_scope).len() == declared_entries(second, second_scope).len(),
        all_among(declared_entries(first, first_scope), declared_entries(second, second_scope)),
        all_among(declared_entries(second, second_scope), declared_entries(first, first_scope)),
        keys_differ(declared_entries(first, first_scope), |e: SignalEntryView| signal_key(e)),
        keys_differ(declared_entries(second, second_scope), |e: SignalEntryView| signal_key(e)),
    ensures
        signal_listing(first, first_scope) == signal_listing(second, second_scope),
{
    lemma_listing_is_arranged(first, first_scope);
    lemma_listing_is_arranged(second, second_scope);
    law_order_forgets_given_order(
        declared_entries(first, first_scope),
        declared_entries(second, second_scope),
        |e: SignalEntryView| signal_key(e),
    );
}

/// The failure reported for a scope path that leads to no scope.
pub open spec fn scope_not_found(scope_path: Seq<char>) -> ErrorView {
    ErrorView::Scope("scope '"@ + scope_path + "' not found in dump"@)
}

/// The scope that a dot-joined path leads to: the path is cut at its dots,
/// and the segments are followed from the top-level scopes, each by its
/// exact name.
pub open spec fn scope_at(dump: DumpView, scope_path: Seq<char>) -> Option<usize> {
    resolve(dump.roots, dump.scopes, split_on(scope_path, '.'))
}

/// The signals of the scope at `scope_path`, or the Scope failure where the
/// path leads to no scope.
pub open spec fn signals_of(dump: DumpView, scope_path: Seq<char>) -> Result<
    Seq<SignalEntryView>,
    ErrorView,
> {
    match scope_at(dump, scope_path) {
        Some(scope) => Ok(signal_listing(dump, scope)),
        None => Err(scope_not_found(scope_path)),
    }
}

/// The mathematical value of the outcome of a signal listing.
pub open spec fn listing_view(r: Result<Vec<SignalEntry>, WavepeekError>) -> Result<
    Seq<SignalEntryView>,
    ErrorView,
> {
    match r {
        Ok(entries) => Ok(signal_entry_views(entries@)),
        Err(error) => Err(error@),
    }
}

} // verus!
