//! The depth-bounded walk over the scopes, as a mathematical function of
//! what a dump holds, and what holds of every walk.

use vstd::prelude::*;
use crate::decoder::{named_below, ScopeModel};
use crate::kinds::{scope_kind_of, ScopeKind};
use crate::order::{
    all_among, arranged, keys_differ, law_order_forgets_given_order, law_sibling_order_sorted,
    sibling_order, SortKeyView,
};
use crate::waveform::DumpView;

verus! {

/// One scope of the hierarchy, as the walk reports it.
#[derive(Debug, Clone, PartialEq, Eq)]
pub struct ScopeEntry {
    /// The dot-joined full path of the scope.
    pub path: String,
    /// The depth below the top-level scopes, which are at depth 0.
    pub depth: usize,
    /// The kind of scope.
    pub kind: ScopeKind,
}

/// The mathematical value of a `ScopeEntry`.
pub struct ScopeEntryView {
    pub path: Seq<char>,
    pub depth: nat,
    pub kind: ScopeKind,
}

impl View for ScopeEntry {
    type V = ScopeEntryView;

    open spec fn view(&self) -> ScopeEntryView {
        ScopeEntryView { path: self.path@, depth: self.depth as nat, kind: self.kind }
    }
}

/// The views of a list of scope entries.
pub open spec fn scope_entry_views(entries: Seq<ScopeEntry>) -> Seq<ScopeEntryView> {
    entries.map_values(|e: ScopeEntry| e@)
}

/// The keys by which the scopes in `list` are ordered: name, then path.
pub open spec fn scope_keys(scopes: Map<usize, ScopeModel>, list: Seq<usize>) -> Seq<SortKeyView> {
    list.map_values(|s: usize| SortKeyView { name: scopes[s].name, path: scopes[s].path })
}

/// The scopes in `list`, ascending by (name, path); scopes with equal keys
/// keep the order in which `list` holds them.
pub open spec fn ordered_scopes(scopes: Map<usize, ScopeModel>, list: Seq<usize>) -> Seq<usize> {
    sibling_order(scope_keys(scopes, list)).map_values(|p: int| list[p])
}

/// The entry that the walk reports for scope `s` at depth `depth`.
pub open spec fn scope_entry_of(scopes: Map<usize, ScopeModel>, s: usize, depth: nat) -> ScopeEntryView {
    ScopeEntryView {
        path: scopes[s].path,
        depth,
        kind: scope_kind_of(scopes[s].scope_type),
    }
}

/// The preorder walk of the subtree of scope `s`, which stands at depth
/// `depth`: the scope itself, then, unless it stands at `max_depth`, the
/// subtrees of its children in sibling order.
pub open spec fn subtree(
    scopes: Map<usize, ScopeModel>,
    s: usize,
    depth: nat,
    max_depth: nat,
) -> Seq<ScopeEntryView>
    decreases max_depth - depth, 0nat,
{
    if depth < max_depth {
        seq![scope_entry_of(scopes, s, depth)] + forest(
            scopes,
            ordered_scopes(scopes, scopes[s].children),
            depth + 1,
            max_depth,
        )
    } else {
        seq![scope_entry_of(scopes, s, depth)]
    }
}

/// The walks of the subtrees of the scopes in `list`, one after the other
/// in the order of `list`, all standing at depth `depth`.
pub open spec fn forest(
    scopes: Map<usize, ScopeModel>,
    list: Seq<usize>,
    depth: nat,
    max_depth: nat,
) -> Seq<ScopeEntryView>
    decreases max_depth - depth, list.len() + 1,
{
    if list.len() == 0 || depth > max_depth {
        Seq::empty()
    } else {
        forest(scopes, list.drop_last(), depth, max_depth) + subtree(
            scopes,
            list.last(),
            depth,
            max_depth,
        )
    }
}

/// The depth-first preorder walk of a dump down to `max_depth`: the
/// subtrees of the top-level scopes, in sibling order.
pub open spec fn traversal(dump: DumpView, max_depth: nat) -> Seq<ScopeEntryView> {
    forest(dump.scopes, ordered_scopes(dump.scopes, dump.roots), 0, max_depth)
}

/// Every entry of a subtree's walk lies between the depth of its root and
/// `max_depth`, and the walk begins with the root itself.
pub proof fn lemma_subtree_depths(
    scopes: Map<usize, ScopeModel>,
    s: usize,
    depth: nat,
    max_depth: nat,
)
    requires
        depth <= max_depth,
    ensures
        subtree(scopes, s, depth, max_depth).len() >= 1,
        subtree(scopes, s, depth, max_depth)[0] == scope_entry_of(scopes, s, depth),
        forall|i: int|
            0 <= i < subtree(scopes, s, depth, max_depth).len() ==> depth <= (#[trigger] subtree(
                scopes,
                s,
                depth,
                max_depth,
            )[i]).depth <= max_depth,
    decreases max_depth - depth, 0nat,
{
    if depth < max_depth {
        lemma_forest_depths(
            scopes,
            ordered_scopes(scopes, scopes[s].children),
            depth + 1,
            max_depth,
        );
    }
}

/// Every entry of a forest's walk lies between the depth of its roots and
/// `max_depth`.
pub proof fn lemma_forest_depths(
    scopes: Map<usize, ScopeModel>,
    list: Seq<usize>,
    depth: nat,
    max_depth: nat,
)
    requires
        depth <= max_depth,
    ensures
        forall|i: int|
            0 <= i < forest(scopes, list, depth, max_depth).len() ==> depth <= (#[trigger] forest(
                scopes,
                list,
                depth,
                max_depth,
            )[i]).depth <= max_depth,
    decreases max_depth - depth, list.len() + 1,
{
    if list.len() > 0 {
        lemma_forest_depths(scopes, list.drop_last(), depth, max_depth);
        lemma_subtree_depths(scopes, list.last(), depth, max_depth);
    }
}

/// At the depth bound a forest's walk is the list of its roots: each root
/// is reported, and nothing below it.
pub proof fn lemma_forest_at_bound(scopes: Map<usize, ScopeModel>, list: Seq<usize>, depth: nat)
    ensures
        forest(scopes, list, depth, depth) == list.map_values(
            |s: usize| scope_entry_of(scopes, s, depth),
        ),
    decreases list.len(),
{
    let wanted = list.map_values(|s: usize| scope_entry_of(scopes, s, depth));
    if list.len() > 0 {
        lemma_forest_at_bound(scopes, list.drop_last(), depth);
        let front = list.drop_last().map_values(|s: usize| scope_entry_of(scopes, s, depth));
        assert(subtree(scopes, list.last(), depth, depth) =~= seq![
            scope_entry_of(scopes, list.last(), depth),
        ]);
        assert(forest(scopes, list, depth, depth) == front + seq![
            scope_entry_of(scopes, list.last(), depth),
        ]);
        assert(front + seq![scope_entry_of(scopes, list.last(), depth)] =~= wanted);
    } else {
        assert(forest(scopes, list, depth, depth) =~= wanted);
    }
}

/// Each entry lies at most one level below the entry before it.
pub open spec fn steps_down_by_one(entries: Seq<ScopeEntryView>) -> bool {
    forall|i: int|
        0 <= i < entries.len() - 1 ==> (#[trigger] entries[i + 1]).depth <= entries[i].depth + 1
}

/// The shape of a walk: it begins at depth 0, and each entry lies at most
/// one level below the entry before it.
pub open spec fn walk_shaped(entries: Seq<ScopeEntryView>) -> bool {
    &&& entries.len() > 0 ==> entries[0].depth == 0
    &&& steps_down_by_one(entries)
}

/// Two runs of entries that each step down by one do so together where
/// the second begins no deeper than one level below the end of the first.
proof fn lemma_steps_concat(a: Seq<ScopeEntryView>, b: Seq<ScopeEntryView>)
    requires
        steps_down_by_one(a),
        steps_down_by_one(b),
        a.len() > 0 && b.len() > 0 ==> b[0].depth <= a.last().depth + 1,
    ensures
        steps_down_by_one(a + b),
{
    let joined = a + b;
    assert forall|i: int| 0 <= i < joined.len() - 1 implies (#[trigger] joined[i + 1]).depth
        <= joined[i].depth + 1 by {
        if i + 1 < a.len() {
            assert(joined[i] == a[i] && joined[i + 1] == a[i + 1]);
        } else if i + 1 == a.len() {
            assert(joined[i] == a.last() && joined[i + 1] == b[0]);
        } else {
            assert(joined[i] == b[i - a.len()] && joined[i + 1] == b[i - a.len() + 1]);
        }
    }
}

/// The walk of a subtree steps down by one.
pub proof fn lemma_subtree_steps(
    scopes: Map<usize, ScopeModel>,
    s: usize,
    depth: nat,
    max_depth: nat,
)
    requires
        depth <= max_depth,
    ensures
        steps_down_by_one(subtree(scopes, s, depth, max_depth)),
    decreases max_depth - depth, 0nat,
{
    if depth < max_depth {
        let below = forest(scopes, ordered_scopes(scopes, scopes[s].children), depth + 1, max_depth);
        lemma_forest_steps(
            scopes,
            ordered_scopes(scopes, scopes[s].children),
            depth + 1,
            max_depth,
        );
        lemma_steps_concat(seq![scope_entry_of(scopes, s, depth)], below);
    }
}

/// The walk of a forest steps down by one and, where it is not empty,
/// begins at the depth of its roots.
pub proof fn lemma_forest_steps(
    scopes: Map<usize, ScopeModel>,
    list: Seq<usize>,
    depth: nat,
    max_depth: nat,
)
    requires
        depth <= max_depth,
    ensures
        steps_down_by_one(forest(scopes, list, depth, max_depth)),
        forest(scopes, list, depth, max_depth).len() > 0 ==> forest(
            scopes,
            list,
            depth,
            max_depth,
        )[0].depth == depth,
    decreases max_depth - depth, list.len() + 1,
{
    if list.len() > 0 {
        let front = forest(scopes, list.drop_last(), depth, max_depth);
        let back = subtree(scopes, list.last(), depth, max_depth);
        lemma_forest_steps(scopes, list.drop_last(), depth, max_depth);
        lemma_subtree_steps(scopes, list.last(), depth, max_depth);
        lemma_subtree_depths(scopes, list.last(), depth, max_depth);
        lemma_forest_depths(scopes, list.drop_last(), depth, max_depth);
        if front.len() > 0 {
            assert(front.last() == front[front.len() - 1]);
            assert((front + back)[0] == front[0]);
        } else {
            assert((front + back)[0] == back[0]);
        }
        lemma_steps_concat(front, back);
    }
}

/// Every walk has the shape of a walk: it begins at depth 0, and no entry
/// lies more than one level below the entry before it.
pub proof fn law_walk_is_shaped(dump: DumpView, max_depth: nat)
    ensures
        walk_shaped(traversal(dump, max_depth)),
{
    lemma_forest_steps(dump.scopes, ordered_scopes(dump.scopes, dump.roots), 0, max_depth);
}

/// The index of the nearest entry at or in front of `index` that lies at
/// depth `level`, or -1 where there is none.
pub open spec fn nearest_at_level(entries: Seq<ScopeEntryView>, index: int, level: nat) -> int
    decreases index + 1,
{
    if index < 0 {
        -1
    } else if entries[index].depth == level {
        index
    } else {
        nearest_at_level(entries, index - 1, level)
    }
}

/// In a sequence with the shape of a walk, every level down to the depth
/// of an entry has an entry at or in front of it, and everything between
/// the nearest such entry and the entry itself lies deeper than the level.
proof fn lemma_nearest_at_level(entries: Seq<ScopeEntryView>, index: int, level: nat)
    requires
        walk_shaped(entries),
        0 <= index < entries.len(),
        level <= entries[index].depth,
    ensures
        0 <= nearest_at_level(entries, index, level) <= index,
        entries[nearest_at_level(entries, index, level)].depth == level,
        forall|k: int|
            nearest_at_level(entries, index, level) < k <= index ==> (#[trigger] entries[k]).depth
                > level,
    decreases index,
{
    if entries[index].depth != level {
        assert(index > 0);
        assert(entries[index - 1 + 1].depth <= entries[index - 1].depth + 1);
        lemma_nearest_at_level(entries, index - 1, level);
    }
}

/// The index of the parent of the entry at `index`: the nearest entry in
/// front of it that lies one level above it.
pub open spec fn parent_index(entries: Seq<ScopeEntryView>, index: int) -> int {
    nearest_at_level(entries, index - 1, (entries[index].depth - 1) as nat)
}

/// In a sequence with the shape of a walk, every entry below depth 0 has
/// exactly one parent in front of it: an entry one level above it such
/// that everything between the two lies at least as deep as the entry
/// itself.
pub proof fn law_parent_stands_in_front(entries: Seq<ScopeEntryView>, index: int)
    requires
        walk_shaped(entries),
        0 <= index < entries.len(),
        entries[index].depth > 0,
    ensures
        0 <= parent_index(entries, index) < index,
        entries[parent_index(entries, index)].depth + 1 == entries[index].depth,
        forall|k: int|
            parent_index(entries, index) < k < index ==> (#[trigger] entries[k]).depth
                >= entries[index].depth,
        forall|other: int|
            0 <= other < index && (#[trigger] entries[other]).depth + 1 == entries[index].depth && (
            forall|k: int| other < k < index ==> (#[trigger] entries[k]).depth >= entries[index].depth)
                ==> other == parent_index(entries, index),
{
    assert(index > 0);
    assert(entries[index - 1 + 1].depth <= entries[index - 1].depth + 1);
    let level = (entries[index].depth - 1) as nat;
    lemma_nearest_at_level(entries, index - 1, level);
    let parent = parent_index(entries, index);
    assert forall|other: int|
        0 <= other < index && (#[trigger] entries[other]).depth + 1 == entries[index].depth && (
        forall|k: int|
            other < k < index ==> (#[trigger] entries[k]).depth
                >= entries[index].depth) implies other == parent by {
        if other < parent {
            assert(entries[parent].depth >= entries[index].depth);
        } else if other > parent {
            assert(entries[other].depth > level);
        }
    }
}

/// Every entry of a walk below depth 0 has exactly one parent in front of
/// it.
pub proof fn law_walk_is_preorder(dump: DumpView, max_depth: nat, index: int)
    requires
        0 <= index < traversal(dump, max_depth).len(),
        traversal(dump, max_depth)[index].depth > 0,
    ensures
        0 <= parent_index(traversal(dump, max_depth), index) < index,
        traversal(dump, max_depth)[parent_index(traversal(dump, max_depth), index)].depth + 1
            == traversal(dump, max_depth)[index].depth,
        forall|k: int|
            parent_index(traversal(dump, max_depth), index) < k < index ==> (#[trigger] traversal(
                dump,
                max_depth,
            )[k]).depth >= traversal(dump, max_depth)[index].depth,
{
    law_walk_is_shaped(dump, max_depth);
    law_parent_stands_in_front(traversal(dump, max_depth), index);
}

/// `path` lies below `parent`: it is `parent`, a dot, and a name.
pub open spec fn below(parent: Seq<char>, path: Seq<char>) -> bool {
    exists|name: Seq<char>| path == parent + seq!['.'] + name
}

/// The scopes from `s` down are named after their parents, as far as
/// `fuel` levels down: the path of every child is the path of its parent,
/// a dot, and the child's name.
pub open spec fn well_named_within(scopes: Map<usize, ScopeModel>, s: usize, fuel: nat) -> bool
    decreases fuel,
{
    fuel == 0 || {
        let kids = ordered_scopes(scopes, scopes[s].children);
        &&& named_below(scopes, s, kids)
        &&& forall|i: int|
            0 <= i < kids.len() ==> well_named_within(scopes, #[trigger] kids[i], (fuel - 1) as nat)
    }
}

/// Every scope in `list` is well named as far as `fuel` levels down.
pub open spec fn all_well_named(scopes: Map<usize, ScopeModel>, list: Seq<usize>, fuel: nat) -> bool {
    forall|i: int| 0 <= i < list.len() ==> well_named_within(scopes, #[trigger] list[i], fuel)
}

/// The scopes of a dump are named after their parents, as far as
/// `max_depth` levels down from the top-level scopes.
pub open spec fn well_rooted(dump: DumpView, max_depth: nat) -> bool {
    all_well_named(dump.scopes, ordered_scopes(dump.scopes, dump.roots), max_depth)
}

/// Entry `j` is the parent of entry `i`: it stands in front of it, one
/// level above it, everything between the two lies at least as deep as
/// entry `i`, and the path of entry `i` lies below its path.
pub open spec fn stands_below(entries: Seq<ScopeEntryView>, j: int, i: int) -> bool {
    &&& 0 <= j < i
    &&& entries[j].depth + 1 == entries[i].depth
    &&& forall|k: int| j < k < i ==> (#[trigger] entries[k]).depth >= entries[i].depth
    &&& below(entries[j].path, entries[i].path)
}

/// Every entry deeper than `base` has its parent among the entries.
pub open spec fn parents_within(entries: Seq<ScopeEntryView>, base: nat) -> bool {
    forall|i: int|
        0 <= i < entries.len() && (#[trigger] entries[i]).depth > base ==> exists|j: int|
            stands_below(entries, j, i)
}

/// Two runs of entries that each hold the parents of their deeper entries
/// do so together.
proof fn lemma_parents_concat(a: Seq<ScopeEntryView>, c: Seq<ScopeEntryView>, base: nat)
    requires
        parents_within(a, base),
        parents_within(c, base),
    ensures
        parents_within(a + c, base),
{
    let joined = a + c;
    assert forall|i: int| 0 <= i < joined.len() && (#[trigger] joined[i]).depth > base implies exists|
        j: int,
    | stands_below(joined, j, i) by {
        if i < a.len() {
            assert(joined[i] == a[i]);
            let j = choose|j: int| stands_below(a, j, i);
            assert(joined[j] == a[j]);
            assert forall|k: int| j < k < i implies (#[trigger] joined[k]).depth
                >= joined[i].depth by {
                assert(joined[k] == a[k]);
            }
            assert(stands_below(joined, j, i));
        } else {
            let at = i - a.len();
            assert(joined[i] == c[at]);
            let j = choose|j: int| stands_below(c, j, at);
            assert(joined[j + a.len()] == c[j]);
            assert forall|k: int| j + a.len() < k < i implies (#[trigger] joined[k]).depth
                >= joined[i].depth by {
                assert(joined[k] == c[k - a.len()]);
            }
            assert(stands_below(joined, j + a.len(), i));
        }
    }
}

/// In the walk of a well-named subtree every entry below the root has its
/// parent among the entries, and every entry but the first lies deeper
/// than the root.
proof fn lemma_subtree_parents(
    scopes: Map<usize, ScopeModel>,
    s: usize,
    depth: nat,
    max_depth: nat,
)
    requires
        depth <= max_depth,
        well_named_within(scopes, s, (max_depth - depth) as nat),
    ensures
        parents_within(subtree(scopes, s, depth, max_depth), depth),
        forall|i: int|
            0 < i < subtree(scopes, s, depth, max_depth).len() ==> (#[trigger] subtree(
                scopes,
                s,
                depth,
                max_depth,
            )[i]).depth > depth,
    decreases max_depth - depth, 0nat,
{
    let walk = subtree(scopes, s, depth, max_depth);
    if depth < max_depth {
        let kids = ordered_scopes(scopes, scopes[s].children);
        let below_root = forest(scopes, kids, depth + 1, max_depth);
        assert(all_well_named(scopes, kids, (max_depth - depth - 1) as nat));
        lemma_forest_parents(scopes, kids, depth + 1, max_depth);
        lemma_forest_depths(scopes, kids, depth + 1, max_depth);
        assert(walk == seq![scope_entry_of(scopes, s, depth)] + below_root);
        assert forall|i: int| 0 < i < walk.len() implies (#[trigger] walk[i]).depth > depth by {
            assert(walk[i] == below_root[i - 1]);
        }
        assert forall|i: int| 0 <= i < walk.len() && (#[trigger] walk[i]).depth > depth implies exists|
            j: int,
        | stands_below(walk, j, i) by {
            assert(i > 0);
            let at = i - 1;
            assert(walk[i] == below_root[at]);
            if below_root[at].depth > depth + 1 {
                let j = choose|j: int| stands_below(below_root, j, at);
                assert(walk[j + 1] == below_root[j]);
                assert forall|k: int| j + 1 < k < i implies (#[trigger] walk[k]).depth
                    >= walk[i].depth by {
                    assert(walk[k] == below_root[k - 1]);
                }
                assert(stands_below(walk, j + 1, i));
            } else {
                assert(below_root[at].depth == depth + 1);
                let k0 = choose|k0: int|
                    0 <= k0 < kids.len() && below_root[at] == scope_entry_of(
                        scopes,
                        kids[k0],
                        depth + 1,
                    );
                assert(scopes[kids[k0]].path == scopes[s].path + seq!['.'] + scopes[kids[k0]].name);
                assert(below(walk[0].path, walk[i].path));
                assert forall|k: int| 0 < k < i implies (#[trigger] walk[k]).depth
                    >= walk[i].depth by {
                    assert(walk[k] == below_root[k - 1]);
                }
                assert(stands_below(walk, 0, i));
            }
        }
    }
}

/// In the walk of a forest of well-named subtrees every entry below the
/// roots has its parent among the entries, and every entry at the depth of
/// the roots is one of the roots.
proof fn lemma_forest_parents(
    scopes: Map<usize, ScopeModel>,
    list: Seq<usize>,
    depth: nat,
    max_depth: nat,
)
    requires
        depth <= max_depth,
        all_well_named(scopes, list, (max_depth - depth) as nat),
    ensures
        parents_within(forest(scopes, list, depth, max_depth), depth),
        forall|i: int|
            0 <= i < forest(scopes, list, depth, max_depth).len() && (#[trigger] forest(
                scopes,
                list,
                depth,
                max_depth,
            )[i]).depth == depth ==> exists|k: int|
                0 <= k < list.len() && forest(scopes, list, depth, max_depth)[i] == scope_entry_of(
                    scopes,
                    #[trigger] list[k],
                    depth,
                ),
    decreases max_depth - depth, list.len() + 1,
{
    let walk = forest(scopes, list, depth, max_depth);
    if list.len() > 0 {
        let front = forest(scopes, list.drop_last(), depth, max_depth);
        let back = subtree(scopes, list.last(), depth, max_depth);
        assert forall|i: int| 0 <= i < list.drop_last().len() implies well_named_within(
            scopes,
            #[trigger] list.drop_last()[i],
            (max_depth - depth) as nat,
        ) by {
            assert(list.drop_last()[i] == list[i]);
        }
        assert(well_named_within(scopes, list[list.len() - 1], (max_depth - depth) as nat));
        lemma_forest_parents(scopes, list.drop_last(), depth, max_depth);
        lemma_subtree_parents(scopes, list.last(), depth, max_depth);
        lemma_subtree_depths(scopes, list.last(), depth, max_depth);
        lemma_parents_concat(front, back, depth);
        assert(walk == front + back);
        assert forall|i: int| 0 <= i < walk.len() && (#[trigger] walk[i]).depth == depth implies exists|
            k: int,
        |
            0 <= k < list.len() && walk[i] == scope_entry_of(scopes, #[trigger] list[k], depth) by {
            if i < front.len() {
                assert(walk[i] == front[i]);
                let k = choose|k: int|
                    0 <= k < list.drop_last().len() && front[i] == scope_entry_of(
                        scopes,
                        #[trigger] list.drop_last()[k],
                        depth,
                    );
                assert(list.drop_last()[k] == list[k]);
            } else {
                let at = i - front.len();
                assert(walk[i] == back[at]);
                assert(at == 0);
                assert(back[0] == scope_entry_of(scopes, list[list.len() - 1], depth));
            }
        }
    }
}

/// The path of entry `i` follows its parent: where the entry lies below
/// depth 0, its parent stands in front of it, and its path is the parent's
/// path, a dot, and a name.
pub open spec fn path_follows_parent(entries: Seq<ScopeEntryView>, i: int) -> bool {
    entries[i].depth > 0 ==> 0 <= parent_index(entries, i) < i && below(
        entries[parent_index(entries, i)].path,
        entries[i].path,
    )
}

/// The path of every entry follows its parent.
pub open spec fn paths_follow_parents(entries: Seq<ScopeEntryView>) -> bool {
    forall|i: int| 0 <= i < entries.len() ==> #[trigger] path_follows_parent(entries, i)
}

/// In the walk of a dump whose scopes are named after their parents, the
/// path of every entry below depth 0 lies below the path of its parent,
/// which stands in front of it: the parent's path is a strict dot-prefix
/// of the entry's path.
pub proof fn law_paths_follow_parents(dump: DumpView, max_depth: nat)
    requires
        well_rooted(dump, max_depth),
    ensures
        paths_follow_parents(traversal(dump, max_depth)),
{
    let walk = traversal(dump, max_depth);
    lemma_forest_parents(dump.scopes, ordered_scopes(dump.scopes, dump.roots), 0, max_depth);
    law_walk_is_shaped(dump, max_depth);
    assert forall|i: int| 0 <= i < walk.len() implies #[trigger] path_follows_parent(walk, i) by {
        if walk[i].depth > 0 {
            let j = choose|j: int| stands_below(walk, j, i);
            law_parent_stands_in_front(walk, i);
            assert(walk[j].depth + 1 == walk[i].depth);
            assert(j == parent_index(walk, i));
        }
    }
}

/// No entry of a walk lies deeper than `max_depth`.
pub proof fn law_depth_bound(dump: DumpView, max_depth: nat)
    ensures
        forall|i: int|
            0 <= i < traversal(dump, max_depth).len() ==> (#[trigger] traversal(
                dump,
                max_depth,
            )[i]).depth <= max_depth,
{
    lemma_forest_depths(dump.scopes, ordered_scopes(dump.scopes, dump.roots), 0, max_depth);
}

/// With the depth bound 0 a walk reports exactly the top-level scopes, in
/// sibling order, each at depth 0.
pub proof fn law_depth_zero_lists_roots(dump: DumpView)
    ensures
        traversal(dump, 0) == ordered_scopes(dump.scopes, dump.roots).map_values(
            |s: usize| scope_entry_of(dump.scopes, s, 0),
        ),
{
    lemma_forest_at_bound(dump.scopes, ordered_scopes(dump.scopes, dump.roots), 0);
}

/// A scope at the depth bound is still reported, and only its children are
/// left out: its subtree's walk is the scope alone. Above the bound the
/// walk of a subtree continues with the children in sibling order.
pub proof fn law_scope_at_bound_is_reported(
    scopes: Map<usize, ScopeModel>,
    s: usize,
    depth: nat,
    max_depth: nat,
)
    requires
        depth <= max_depth,
    ensures
        subtree(scopes, s, depth, max_depth)[0] == scope_entry_of(scopes, s, depth),
        depth == max_depth ==> subtree(scopes, s, depth, max_depth) == seq![
            scope_entry_of(scopes, s, depth),
        ],
        depth < max_depth ==> subtree(scopes, s, depth, max_depth) == seq![
            scope_entry_of(scopes, s, depth),
        ] + forest(scopes, ordered_scopes(scopes, scopes[s].children), depth + 1, max_depth),
{
    lemma_subtree_depths(scopes, s, depth, max_depth);
}

/// The siblings of a walk stand in ascending order of (name, path), each
/// exactly once: `ordered_scopes` rearranges the list it is given, and
/// scopes with equal keys keep the decoder's order.
pub proof fn law_siblings_ascend(scopes: Map<usize, ScopeModel>, list: Seq<usize>)
    ensures
        ordered_scopes(scopes, list).len() == list.len(),
        crate::order::lists_each_once(sibling_order(scope_keys(scopes, list)), list.len()),
        crate::order::ascending(scope_keys(scopes, list), sibling_order(scope_keys(scopes, list))),
{
    crate::order::law_sibling_order_sorted(scope_keys(scopes, list));
}

/// The key by which scope `s` is ordered among its siblings.
pub open spec fn scope_key(scopes: Map<usize, ScopeModel>, s: usize) -> SortKeyView {
    SortKeyView { name: scopes[s].name, path: scopes[s].path }
}

/// `second` lists the scopes of `first` in whatever other order, and no
/// two of them bear the same key.
pub open spec fn rearranged(scopes: Map<usize, ScopeModel>, first: Seq<usize>, second: Seq<usize>) -> bool {
    &&& first.len() == second.len()
    &&& all_among(first, second)
    &&& all_among(second, first)
    &&& keys_differ(first, |s: usize| scope_key(scopes, s))
    &&& keys_differ(second, |s: usize| scope_key(scopes, s))
}

/// Two hierarchies hold the same scopes but for the order of siblings:
/// every scope has the same name, path and type in both, and its children
/// in the one are its children in the other, rearranged.
pub open spec fn same_but_for_order(
    first: Map<usize, ScopeModel>,
    second: Map<usize, ScopeModel>,
) -> bool {
    forall|s: usize|
        {
            &&& (#[trigger] first[s]).name == second[s].name
            &&& first[s].path == second[s].path
            &&& first[s].scope_type == second[s].scope_type
            &&& rearranged(first, first[s].children, second[s].children)
        }
}

/// The sibling order of scopes is the arrangement of the list under the
/// keys of the scopes.
proof fn lemma_ordered_is_arranged(scopes: Map<usize, ScopeModel>, list: Seq<usize>)
    ensures
        ordered_scopes(scopes, list) == arranged(list, |s: usize| scope_key(scopes, s)),
{
    assert(list.map_values(|s: usize| scope_key(scopes, s)) =~= scope_keys(scopes, list));
}

/// Siblings come out in the same order in whatever order the decoder
/// holds them: two lists of the same scopes, no two of which bear the same
/// key, are put into the same sibling order.
pub proof fn law_siblings_forget_native_order(
    scopes: Map<usize, ScopeModel>,
    first: Seq<usize>,
    second: Seq<usize>,
)
    requires
        rearranged(scopes, first, second),
    ensures
        ordered_scopes(scopes, first) == ordered_scopes(scopes, second),
{
    lemma_ordered_is_arranged(scopes, first);
    lemma_ordered_is_arranged(scopes, second);
    law_order_forgets_given_order(first, second, |s: usize| scope_key(scopes, s));
}

/// The sibling order reads only the keys of the scopes.
proof fn lemma_ordered_reads_keys(
    first: Map<usize, ScopeModel>,
    second: Map<usize, ScopeModel>,
    list: Seq<usize>,
)
    requires
        forall|s: usize| (#[trigger] first[s]).name == second[s].name && first[s].path == second[s].path,
    ensures
        ordered_scopes(first, list) == ordered_scopes(second, list),
{
    assert(scope_keys(first, list) =~= scope_keys(second, list));
}

/// In two hierarchies that hold the same scopes but for the order of
/// siblings, the subtree of a scope is walked alike.
proof fn lemma_subtree_forgets_native_order(
    first: Map<usize, ScopeModel>,
    second: Map<usize, ScopeModel>,
    s: usize,
    depth: nat,
    max_depth: nat,
)
    requires
        same_but_for_order(first, second),
    ensures
        subtree(first, s, depth, max_depth) == subtree(second, s, depth, max_depth),
    decreases max_depth - depth, 0nat,
{
    assert(first[s].name == second[s].name);
    if depth < max_depth {
        law_siblings_forget_native_order(first, first[s].children, second[s].children);
        lemma_ordered_reads_keys(first, second, second[s].children);
        lemma_forest_forgets_native_order(
            first,
            second,
            ordered_scopes(first, first[s].children),
            depth + 1,
            max_depth,
        );
    }
}

/// In two such hierarchies a list of scopes is walked alike.
proof fn lemma_forest_forgets_native_order(
    first: Map<usize, ScopeModel>,
    second: Map<usize, ScopeModel>,
    list: Seq<usize>,
    depth: nat,
    max_depth: nat,
)
    requires
        same_but_for_order(first, second),
    ensures
        forest(first, list, depth, max_depth) == forest(second, list, depth, max_depth),
    decreases max_depth - depth, list.len() + 1,
{
    if list.len() > 0 && depth <= max_depth {
        lemma_forest_forgets_native_order(first, second, list.drop_last(), depth, max_depth);
        lemma_subtree_forgets_native_order(first, second, list.last(), depth, max_depth);
    }
}

/// The walk does not depend on the order in which the decoder holds
/// siblings: two dumps that hold the same scopes but for the order of the
/// top-level scopes and of the children of each scope, where no two
/// siblings bear the same key, are walked alike.
pub proof fn law_walk_forgets_native_order(first: DumpView, second: DumpView, max_depth: nat)
    requires
        same_but_for_order(first.scopes, second.scopes),
        rearranged(first.scopes, first.roots, second.roots),
    ensures
        traversal(first, max_depth) == traversal(second, max_depth),
{
    law_siblings_forget_native_order(first.scopes, first.roots, second.roots);
    assert(first.scopes[0usize].name == second.scopes[0usize].name);
    lemma_ordered_reads_keys(first.scopes, second.scopes, second.roots);
    lemma_forest_forgets_native_order(
        first.scopes,
        second.scopes,
        ordered_scopes(first.scopes, first.roots),
        0,
        max_depth,
    );
}

/// Two walks of the same dump under the same depth bound agree entry by
/// entry: in the path, in the depth and in the kind.
pub proof fn law_walk_repeats(
    first: Seq<ScopeEntry>,
    second: Seq<ScopeEntry>,
    dump: DumpView,
    max_depth: nat,
)
    requires
        scope_entry_views(first) == traversal(dump, max_depth),
        scope_entry_views(second) == traversal(dump, max_depth),
    ensures
        first.len() == second.len(),
        forall|i: int|
            0 <= i < first.len() ==> (#[trigger] first[i]).path@ == second[i].path@ && first[i].depth
                == second[i].depth && first[i].kind == second[i].kind,
{
    assert(scope_entry_views(first).len() == first.len());
    assert(scope_entry_views(second).len() == second.len());
    assert forall|i: int| 0 <= i < first.len() implies (#[trigger] first[i]).path@
        == second[i].path@ && first[i].depth == second[i].depth && first[i].kind
        == second[i].kind by {
        assert(scope_entry_views(first)[i] == first[i]@);
        assert(scope_entry_views(second)[i] == second[i]@);
    }
}

} // verus!
