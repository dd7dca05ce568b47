//! The boundary to the waveform decoder.
//!
//! Everything in this file is trusted: Verus believes the contracts here
//! without proof. Each wrapper holds one call into a decoded hierarchy and
//! states what that call hands back in terms of the ghost model below,
//! which names what a decoded hierarchy holds. The decoding itself is not
//! done here: it reads a file, and the hierarchy comes in decoded. Scopes and variables are addressed by the
//! decoder's own indices. The decoder panics on an index that it did not
//! hand out, so every wrapper that takes an index requires that the model
//! holds it.

use vstd::prelude::*;
use crate::text::string_views;

verus! {

/// `wellen::Hierarchy`, the decoded hierarchy. Nothing inside it is seen
/// here.
#[verifier::external_type_specification]
#[verifier::external_body]
pub struct ExHierarchy(wellen::Hierarchy);

/// `wellen::TimescaleUnit`, known by its variants.
#[verifier::external_type_specification]
pub struct ExTimescaleUnit(wellen::TimescaleUnit);

/// `wellen::Timescale`, known by its two public fields.
#[verifier::external_type_specification]
pub struct ExTimescale(wellen::Timescale);

/// `wellen::VarType`, the native tag of a variable, known by its variants.
#[verifier::external_type_specification]
pub struct ExVarType(wellen::VarType);

/// `wellen::ScopeType`, the native tag of a scope, known by its variants.
#[verifier::external_type_specification]
pub struct ExScopeType(wellen::ScopeType);

/// What the decoder holds of one scope.
pub struct ScopeModel {
    /// The scope's own name.
    pub name: Seq<char>,
    /// The dot-joined names of the scope's ancestors and of the scope.
    pub path: Seq<char>,
    /// The decoder's tag for the kind of scope.
    pub scope_type: wellen::ScopeType,
    /// The scopes directly inside this one, in the decoder's order.
    pub children: Seq<usize>,
    /// The variables directly inside this one, in the decoder's order.
    pub vars: Seq<usize>,
}

/// What the decoder holds of one variable.
pub struct VarModel {
    /// The variable's own name.
    pub name: Seq<char>,
    /// The path of the owning scope, a dot, and the variable's name.
    pub path: Seq<char>,
    /// The decoder's tag for the type of variable.
    pub var_type: wellen::VarType,
    /// The width in bits, where the variable's encoding has one.
    pub width: Option<u32>,
}

/// The scopes of a decoded hierarchy that the decoder hands out, top-level
/// or inside another, by scope index.
pub uninterp spec fn hierarchy_scopes(h: wellen::Hierarchy) -> Map<usize, ScopeModel>;

/// The variables of a decoded hierarchy, by variable index.
pub uninterp spec fn hierarchy_vars(h: wellen::Hierarchy) -> Map<usize, VarModel>;

/// The top-level scopes of a decoded hierarchy, in the decoder's order.
pub uninterp spec fn hierarchy_roots(h: wellen::Hierarchy) -> Seq<usize>;

/// The timescale that a decoded hierarchy declares, if it declares one.
pub uninterp spec fn hierarchy_timescale(h: wellen::Hierarchy) -> Option<wellen::Timescale>;

/// Every index in `list` is the index of a scope of `h`.
pub open spec fn all_scopes_of(h: wellen::Hierarchy, list: Seq<usize>) -> bool {
    forall|i: int| 0 <= i < list.len() ==> hierarchy_scopes(h).contains_key(#[trigger] list[i])
}

/// Every index in `list` is the index of a variable of `h`.
pub open spec fn all_vars_of(h: wellen::Hierarchy, list: Seq<usize>) -> bool {
    forall|i: int| 0 <= i < list.len() ==> hierarchy_vars(h).contains_key(#[trigger] list[i])
}

/// Every scope in `list` is named as a child of `parent`: its path is the
/// parent's path, a dot, and its own name.
pub open spec fn named_below(scopes: Map<usize, ScopeModel>, parent: usize, list: Seq<usize>) -> bool {
    forall|i: int|
        0 <= i < list.len() ==> scopes[#[trigger] list[i]].path == scopes[parent].path + seq!['.']
            + scopes[list[i]].name
}

/// The first scope among `among` that bears the name `name`.
pub open spec fn first_named(
    scopes: Map<usize, ScopeModel>,
    among: Seq<usize>,
    name: Seq<char>,
) -> Option<usize>
    decreases among.len(),
{
    if among.len() == 0 {
        None
    } else if scopes[among[0]].name == name {
        Some(among[0])
    } else {
        first_named(scopes, among.drop_first(), name)
    }
}

/// Descends from scope `from` along `names`, at each step into the first
/// child that bears the next name.
pub open spec fn descend(scopes: Map<usize, ScopeModel>, from: usize, names: Seq<Seq<char>>) -> Option<
    usize,
>
    decreases names.len(),
{
    if names.len() == 0 {
        Some(from)
    } else {
        match first_named(scopes, scopes[from].children, names[0]) {
            Some(next) => descend(scopes, next, names.drop_first()),
            None => None,
        }
    }
}

/// The scope that the segments `names` lead to: the first root that bears
/// the first name, then `descend` along the rest. No segments lead nowhere.
pub open spec fn resolve(
    roots: Seq<usize>,
    scopes: Map<usize, ScopeModel>,
    names: Seq<Seq<char>>,
) -> Option<usize> {
    if names.len() == 0 {
        None
    } else {
        match first_named(scopes, roots, names[0]) {
            Some(root) => descend(scopes, root, names.drop_first()),
            None => None,
        }
    }
}

/// Calls `Hierarchy::timescale`: the timescale of the hierarchy.
#[verifier::external_body]
pub(crate) fn timescale(h: &wellen::Hierarchy) -> (r: Option<wellen::Timescale>)
    ensures
        r == hierarchy_timescale(*h),
{
    h.timescale()
}

/// Calls `Hierarchy::scopes` and hands out the index of each top-level
/// scope, in the decoder's order. Each is the index of a scope of the
/// hierarchy.
#[verifier::external_body]
pub(crate) fn root_scopes(h: &wellen::Hierarchy) -> (r: Vec<usize>)
    ensures
        r@ == hierarchy_roots(*h),
        all_scopes_of(*h, r@),
{
    h.scopes().map(|s| s.index()).collect()
}

/// Calls `Scope::scopes` and hands out the index of each scope directly
/// inside `scope`, in the decoder's order. Each is the index of a scope of
/// the hierarchy, and the path that `Scope::full_name` gives for it is the
/// path of `scope`, a dot, and its own name, since `scope` is its parent.
#[verifier::external_body]
pub(crate) fn child_scopes(h: &wellen::Hierarchy, scope: usize) -> (r: Vec<usize>)
    requires
        hierarchy_scopes(*h).contains_key(scope),
    ensures
        r@ == hierarchy_scopes(*h)[scope].children,
        all_scopes_of(*h, r@),
        named_below(hierarchy_scopes(*h), scope, r@),
{
    h[wellen::ScopeRef::from_index(scope).unwrap()].scopes(h).map(|s| s.index()).collect()
}

/// Calls `Scope::vars` and hands out the index of each variable directly
/// inside `scope`, in the decoder's order. Each is the index of a variable
/// of the hierarchy.
#[verifier::external_body]
pub(crate) fn scope_vars(h: &wellen::Hierarchy, scope: usize) -> (r: Vec<usize>)
    requires
        hierarchy_scopes(*h).contains_key(scope),
    ensures
        r@ == hierarchy_scopes(*h)[scope].vars,
        all_vars_of(*h, r@),
{
    h[wellen::ScopeRef::from_index(scope).unwrap()].vars(h).map(|v| v.index()).collect()
}

/// Calls `Scope::name`: the scope's own name.
#[verifier::external_body]
pub(crate) fn scope_name(h: &wellen::Hierarchy, scope: usize) -> (r: String)
    requires
        hierarchy_scopes(*h).contains_key(scope),
    ensures
        r@ == hierarchy_scopes(*h)[scope].name,
{
    h[wellen::ScopeRef::from_index(scope).unwrap()].name(h).to_string()
}

/// Calls `Scope::full_name`: the scope's dot-joined path.
#[verifier::external_body]
pub(crate) fn scope_full_name(h: &wellen::Hierarchy, scope: usize) -> (r: String)
    requires
        hierarchy_scopes(*h).contains_key(scope),
    ensures
        r@ == hierarchy_scopes(*h)[scope].path,
{
    h[wellen::ScopeRef::from_index(scope).unwrap()].full_name(h)
}

/// Calls `Scope::scope_type`: the decoder's tag for the kind of scope.
#[verifier::external_body]
pub(crate) fn scope_type(h: &wellen::Hierarchy, scope: usize) -> (r: wellen::ScopeType)
    requires
        hierarchy_scopes(*h).contains_key(scope),
    ensures
        r == hierarchy_scopes(*h)[scope].scope_type,
{
    h[wellen::ScopeRef::from_index(scope).unwrap()].scope_type()
}

/// Calls `Hierarchy::lookup_scope`, which walks from the top-level scopes
/// along the given names and at each step takes the first scope that bears
/// the name. What it finds is the index of a scope of the hierarchy.
#[verifier::external_body]
pub(crate) fn lookup_scope(h: &wellen::Hierarchy, names: &Vec<String>) -> (r: Option<usize>)
    ensures
        r == resolve(hierarchy_roots(*h), hierarchy_scopes(*h), string_views(names@)),
        r matches Some(scope) ==> hierarchy_scopes(*h).contains_key(scope),
{
    h.lookup_scope(names.as_slice()).map(|s| s.index())
}

/// Calls `Var::name`: the variable's own name.
#[verifier::external_body]
pub(crate) fn var_name(h: &wellen::Hierarchy, var: usize) -> (r: String)
    requires
        hierarchy_vars(*h).contains_key(var),
    ensures
        r@ == hierarchy_vars(*h)[var].name,
{
    h[wellen::VarRef::from_index(var).unwrap()].name(h).to_string()
}

/// Calls `Var::full_name`: the variable's dot-joined path.
#[verifier::external_body]
pub(crate) fn var_full_name(h: &wellen::Hierarchy, var: usize) -> (r: String)
    requires
        hierarchy_vars(*h).contains_key(var),
    ensures
        r@ == hierarchy_vars(*h)[var].path,
{
    h[wellen::VarRef::from_index(var).unwrap()].full_name(h)
}

/// Calls `Var::var_type`: the decoder's tag for the type of variable.
#[verifier::external_body]
pub(crate) fn var_type(h: &wellen::Hierarchy, var: usize) -> (r: wellen::VarType)
    requires
        hierarchy_vars(*h).contains_key(var),
    ensures
        r == hierarchy_vars(*h)[var].var_type,
{
    h[wellen::VarRef::from_index(var).unwrap()].var_type()
}

/// Calls `Var::length`: the variable's width in bits, absent for reals and
/// strings.
#[verifier::external_body]
pub(crate) fn var_length(h: &wellen::Hierarchy, var: usize) -> (r: Option<u32>)
    requires
        hierarchy_vars(*h).contains_key(var),
    ensures
        r == hierarchy_vars(*h)[var].width,
{
    h[wellen::VarRef::from_index(var).unwrap()].length(h)
}

} // verus!
