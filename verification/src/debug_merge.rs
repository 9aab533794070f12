//! Merging package-owned source/debug metadata after a MAST forest merge.
//!
//! A MAST forest merge is execution-only: it deduplicates executable nodes and hands back a map
//! from each input forest's nodes to the merged forest's nodes. [`DebugInfo::merge_source_debug`]
//! applies that map to the debug information of each input, so that `(forest, debug info)` pairs
//! can be merged without reattaching debug metadata to the forest.

use vstd::prelude::*;

use crate::debug_info::{
    DebugInfo, DebugInfoView, changes_only, empty_debug_info, extends, is_first_message_for, lemma_extends_trans,
    same_file_info,
};
use crate::debug_types::{
    DebugErrorMessage, DebugFieldInfo, DebugFileIdx, DebugFileInfo, DebugFunctionIdx, DebugInfoMergeError, DebugLoc,
    DebugLocIdx, DebugSourceAsmOp, DebugSourceInlineCall, DebugSourceNodeId, DebugSourceVar,
    DebugSourceVarView, DebugStringIdx, DebugTypeIdx, DebugTypeInfo, DebugTypeInfoView,
    DebugVariantInfo, FunctionInfo, MastNodeId, SourceNode, SourceNodeView,
};

verus! {

/// The node mapping of a MAST forest merge: for each input forest, the merged node of each of
/// its nodes (`None` where the node has none).
pub struct MastForestRootMap {
    node_maps: Vec<Vec<Option<MastNodeId>>>,
}

impl View for MastForestRootMap {
    type V = Seq<Seq<Option<MastNodeId>>>;

    closed spec fn view(&self) -> Seq<Seq<Option<MastNodeId>>> {
        self.node_maps@.map_values(|m: Vec<Option<MastNodeId>>| m@)
    }
}

/// The merged node of node `node` of forest `forest_index`, if the map has one.
pub open spec fn mapped_node(m: Seq<Seq<Option<MastNodeId>>>, forest_index: usize, node: MastNodeId) -> Option<
    MastNodeId,
> {
    if forest_index < m.len() && node.0 < m[forest_index as int].len() {
        m[forest_index as int][node.0 as int]
    } else {
        None
    }
}

impl MastForestRootMap {
    /// A map with the given per-forest node tables (`node_maps[f][n]` is the merged node of node
    /// `n` of forest `f`).
    pub fn new(node_maps: Vec<Vec<Option<MastNodeId>>>) -> (r: Self)
        ensures
            r@ == node_maps@.map_values(|m: Vec<Option<MastNodeId>>| m@),
    {
        MastForestRootMap { node_maps }
    }

    /// The merged node of node `node` of forest `forest_index`, if any.
    pub fn map_node(&self, forest_index: usize, node: &MastNodeId) -> (r: Option<MastNodeId>)
        ensures
            r == mapped_node(self@, forest_index, *node),
    {
        if forest_index < self.node_maps.len() && (node.0 as usize) < self.node_maps[forest_index].len() {
            proof {
                assert(self@[forest_index as int] == self.node_maps@[forest_index as int]@);
            }
            self.node_maps[forest_index][node.0 as usize]
        } else {
            None
        }
    }
}

// RESOLVABILITY
// ================================================================================================

/// The string index names a row of `d`'s strings table.
pub open spec fn str_in(d: DebugInfoView, s: DebugStringIdx) -> bool {
    s.0 < d.strings.len()
}

/// The optional location index names a row of `d`'s locations table.
pub open spec fn loc_opt_in(d: DebugInfoView, l: Option<DebugLocIdx>) -> bool {
    l matches Some(x) ==> x.0 < d.locations.len()
}

/// Every string index of the type is below `nstrings`, and every type index below `ntypes`.
pub open spec fn type_refs_in(t: DebugTypeInfoView, nstrings: int, ntypes: int) -> bool {
    match t {
        DebugTypeInfoView::Primitive(_) => true,
        DebugTypeInfoView::Pointer { pointee_type_idx } => pointee_type_idx.0 < ntypes,
        DebugTypeInfoView::Array { element_type_idx, .. } => element_type_idx.0 < ntypes,
        DebugTypeInfoView::Struct { name_idx, fields, .. } => name_idx.0 < nstrings && forall|k: int|
            0 <= k < fields.len() ==> (#[trigger] fields[k]).name_idx.0 < nstrings && fields[k].type_idx.0
                < ntypes,
        DebugTypeInfoView::Function { return_type_idx, param_type_indices } => (return_type_idx matches Some(
            r,
        ) ==> r.0 < ntypes) && forall|k: int|
            0 <= k < param_type_indices.len() ==> (#[trigger] param_type_indices[k]).0 < ntypes,
        DebugTypeInfoView::Enum { name_idx, discriminant_type_idx, variants, .. } => name_idx.0 < nstrings
            && discriminant_type_idx.0 < ntypes && forall|k: int|
            0 <= k < variants.len() ==> (#[trigger] variants[k]).name_idx.0 < nstrings && (
            variants[k].type_idx matches Some(t) ==> t.0 < ntypes),
        DebugTypeInfoView::Unknown => true,
    }
}

/// Every string that the type names exists in `d`, and every type it names comes before
/// `bound` (a type row may only refer to earlier rows).
pub open spec fn type_resolves(d: DebugInfoView, t: DebugTypeInfoView, bound: int) -> bool {
    type_refs_in(t, d.strings.len() as int, bound)
}

/// The type with every string index sent through `smap` and every type index through `tmap`.
pub open spec fn remap_type(t: DebugTypeInfoView, smap: Seq<DebugStringIdx>, tmap: Seq<DebugTypeIdx>) -> DebugTypeInfoView {
    match t {
        DebugTypeInfoView::Primitive(p) => DebugTypeInfoView::Primitive(p),
        DebugTypeInfoView::Pointer { pointee_type_idx } => DebugTypeInfoView::Pointer {
            pointee_type_idx: tmap[pointee_type_idx.0 as int],
        },
        DebugTypeInfoView::Array { element_type_idx, count } => DebugTypeInfoView::Array {
            element_type_idx: tmap[element_type_idx.0 as int],
            count,
        },
        DebugTypeInfoView::Struct { name_idx, size, fields } => DebugTypeInfoView::Struct {
            name_idx: smap[name_idx.0 as int],
            size,
            fields: fields.map_values(|f: DebugFieldInfo| DebugFieldInfo {
                name_idx: smap[f.name_idx.0 as int],
                type_idx: tmap[f.type_idx.0 as int],
                offset: f.offset,
            }),
        },
        DebugTypeInfoView::Function { return_type_idx, param_type_indices } => DebugTypeInfoView::Function {
            return_type_idx: match return_type_idx {
                Some(r) => Some(tmap[r.0 as int]),
                None => None,
            },
            param_type_indices: param_type_indices.map_values(|p: DebugTypeIdx| tmap[p.0 as int]),
        },
        DebugTypeInfoView::Enum { name_idx, size, discriminant_type_idx, variants } => DebugTypeInfoView::Enum {
            name_idx: smap[name_idx.0 as int],
            size,
            discriminant_type_idx: tmap[discriminant_type_idx.0 as int],
            variants: variants.map_values(|v: DebugVariantInfo| DebugVariantInfo {
                name_idx: smap[v.name_idx.0 as int],
                type_idx: match v.type_idx {
                    Some(t) => Some(tmap[t.0 as int]),
                    None => None,
                },
                payload_offset: v.payload_offset,
                discriminant: v.discriminant,
            }),
        },
        DebugTypeInfoView::Unknown => DebugTypeInfoView::Unknown,
    }
}

/// Every row of the node `n` refers to rows that exist in `d`, and the map knows its executable
/// node.
pub open spec fn node_resolves(
    d: DebugInfoView,
    forest_index: usize,
    m: Seq<Seq<Option<MastNodeId>>>,
    n: SourceNodeView,
) -> bool {
    &&& mapped_node(m, forest_index, n.exec_node) is Some
    &&& forall|k: int| 0 <= k < n.children.len() ==> (#[trigger] n.children[k]).0 < d.nodes.len()
    &&& forall|k: int|
        0 <= k < n.asm_ops.len() ==> loc_opt_in(d, (#[trigger] n.asm_ops[k]).location_idx) && str_in(
            d,
            n.asm_ops[k].context_name_idx,
        ) && str_in(d, n.asm_ops[k].op_name_idx)
    &&& forall|k: int|
        0 <= k < n.debug_vars.len() ==> str_in(d, (#[trigger] n.debug_vars[k]).name_idx) && loc_opt_in(
            d,
            n.debug_vars[k].location_idx,
        )
}

/// Every index the function row holds names a row that exists in `d`.
pub open spec fn function_resolves(d: DebugInfoView, f: FunctionInfo) -> bool {
    &&& f.source_node matches Some(s) ==> s.0 < d.nodes.len()
    &&& str_in(d, f.name_idx)
    &&& f.linkage_name_idx matches Some(l) ==> str_in(d, l)
    &&& f.file_idx.0 < d.files.len()
    &&& f.type_idx matches Some(t) ==> t.0 < d.types.len()
}

/// Every reference of `d` resolves: the tables can be remapped into a merged debug info, with the
/// executable nodes of forest `forest_index` remapped by `m`.
pub open spec fn resolves(d: DebugInfoView, forest_index: usize, m: Seq<Seq<Option<MastNodeId>>>) -> bool {
    &&& forall|i: int| 0 <= i < d.types.len() ==> type_resolves(d, #[trigger] d.types[i], i)
    &&& forall|i: int| 0 <= i < d.files.len() ==> str_in(d, (#[trigger] d.files[i]).path_idx)
    &&& forall|i: int| 0 <= i < d.locations.len() ==> (#[trigger] d.locations[i]).file_idx.0 < d.files.len()
    &&& forall|i: int| 0 <= i < d.error_messages.len() ==> str_in(d, (#[trigger] d.error_messages[i]).message)
    &&& forall|i: int| 0 <= i < d.nodes.len() ==> node_resolves(d, forest_index, m, #[trigger] d.nodes[i])
    &&& forall|i: int| 0 <= i < d.roots.len() ==> (#[trigger] d.roots[i]).0 < d.nodes.len()
    &&& forall|i: int| 0 <= i < d.functions.len() ==> function_resolves(d, #[trigger] d.functions[i])
    &&& forall|i: int, k: int|
        0 <= i < d.nodes.len() && 0 <= k < d.nodes[i].inline_calls.len() ==> (#[trigger] d.nodes[i].inline_calls[k]).callee_idx.0
            < d.functions.len() && d.nodes[i].inline_calls[k].loc_idx.0 < d.locations.len()
}

// THE ERROR A MERGE IS REFUSED WITH
// ================================================================================================

/// `a` where it is an error, else `b`.
pub open spec fn or_else(a: Option<DebugInfoMergeError>, b: Option<DebugInfoMergeError>) -> Option<DebugInfoMergeError> {
    if a is Some {
        a
    } else {
        b
    }
}

/// The first of the errors `err(0)`, ..., `err(n - 1)`, if any.
pub open spec fn first_error(n: nat, err: spec_fn(int) -> Option<DebugInfoMergeError>) -> Option<DebugInfoMergeError>
    decreases n,
{
    if n == 0 {
        None
    } else {
        or_else(first_error((n - 1) as nat, err), err(n - 1))
    }
}

/// Once an error is found among the first `k`, it is the first error among the first `n >= k`.
proof fn lemma_first_error_stays(k: nat, n: nat, err: spec_fn(int) -> Option<DebugInfoMergeError>)
    requires
        k <= n,
        first_error(k, err) is Some,
    ensures
        first_error(n, err) == first_error(k, err),
    decreases n,
{
    if n > k {
        lemma_first_error_stays(k, (n - 1) as nat, err);
    }
}

/// The error of a string index `s` of a source-map row, given `nstrings` strings.
pub open spec fn string_error(forest_index: usize, s: DebugStringIdx, nstrings: nat) -> Option<DebugInfoMergeError> {
    if s.0 < nstrings {
        None
    } else {
        Some(DebugInfoMergeError::MissingSourceStringMapping { forest_index, string_idx: s })
    }
}

/// The error of a string index `s` of a type row, given `nstrings` strings.
pub open spec fn type_string_error(forest_index: usize, s: DebugStringIdx, nstrings: nat) -> Option<DebugInfoMergeError> {
    if s.0 < nstrings {
        None
    } else {
        Some(DebugInfoMergeError::MissingTypeStringMapping { forest_index, string_idx: s })
    }
}

/// The error of a type index `t`, given `ntypes` types it may refer to.
pub open spec fn type_idx_error(forest_index: usize, t: DebugTypeIdx, ntypes: nat) -> Option<DebugInfoMergeError> {
    if t.0 < ntypes {
        None
    } else {
        Some(DebugInfoMergeError::MissingTypeMapping { forest_index, type_idx: t })
    }
}

/// The error of an optional type index.
pub open spec fn opt_type_idx_error(forest_index: usize, t: Option<DebugTypeIdx>, ntypes: nat) -> Option<DebugInfoMergeError> {
    match t {
        Some(t) => type_idx_error(forest_index, t, ntypes),
        None => None,
    }
}

/// The error of an optional location index, given `nlocations` locations.
pub open spec fn loc_error(forest_index: usize, l: Option<DebugLocIdx>, nlocations: nat) -> Option<DebugInfoMergeError> {
    match l {
        Some(l) => if l.0 < nlocations {
            None
        } else {
            Some(DebugInfoMergeError::MissingSourceLocationMapping { forest_index, location_idx: l })
        },
        None => None,
    }
}

/// The error of a source-node index, given `nnodes` nodes.
pub open spec fn node_idx_error(forest_index: usize, n: DebugSourceNodeId, nnodes: nat) -> Option<DebugInfoMergeError> {
    if n.0 < nnodes {
        None
    } else {
        Some(DebugInfoMergeError::MissingSourceNodeMapping { forest_index, source_node: n })
    }
}

/// The error of a file index, given `nfiles` files.
pub open spec fn file_idx_error(forest_index: usize, f: DebugFileIdx, nfiles: nat) -> Option<DebugInfoMergeError> {
    if f.0 < nfiles {
        None
    } else {
        Some(DebugInfoMergeError::MissingSourceFileMapping { forest_index, file_idx: f })
    }
}

/// The errors of the fields of a struct type, in order (name, then type).
pub open spec fn field_errors(forest_index: usize, fields: Seq<DebugFieldInfo>, nstrings: nat, ntypes: nat) -> spec_fn(int) -> Option<DebugInfoMergeError> {
    |k: int| or_else(
        type_string_error(forest_index, fields[k].name_idx, nstrings),
        type_idx_error(forest_index, fields[k].type_idx, ntypes),
    )
}

/// The errors of the parameters of a function type, in order.
pub open spec fn param_errors(forest_index: usize, params: Seq<DebugTypeIdx>, ntypes: nat) -> spec_fn(int) -> Option<DebugInfoMergeError> {
    |k: int| type_idx_error(forest_index, params[k], ntypes)
}

/// The errors of the variants of an enum type, in order (name, then payload type).
pub open spec fn variant_errors(forest_index: usize, variants: Seq<DebugVariantInfo>, nstrings: nat, ntypes: nat) -> spec_fn(int) -> Option<DebugInfoMergeError> {
    |k: int| or_else(
        type_string_error(forest_index, variants[k].name_idx, nstrings),
        opt_type_idx_error(forest_index, variants[k].type_idx, ntypes),
    )
}

/// The first error of a type row, in the order its indices are read: a struct's name then its
/// fields; a function's return type then its parameters; an enum's name, discriminant type, then
/// its variants.
pub open spec fn type_row_error(forest_index: usize, t: DebugTypeInfoView, nstrings: nat, ntypes: nat) -> Option<DebugInfoMergeError> {
    match t {
        DebugTypeInfoView::Primitive(_) => None,
        DebugTypeInfoView::Pointer { pointee_type_idx } => type_idx_error(forest_index, pointee_type_idx, ntypes),
        DebugTypeInfoView::Array { element_type_idx, .. } => type_idx_error(forest_index, element_type_idx, ntypes),
        DebugTypeInfoView::Struct { name_idx, fields, .. } => or_else(
            type_string_error(forest_index, name_idx, nstrings),
            first_error(fields.len(), field_errors(forest_index, fields, nstrings, ntypes)),
        ),
        DebugTypeInfoView::Function { return_type_idx, param_type_indices } => or_else(
            opt_type_idx_error(forest_index, return_type_idx, ntypes),
            first_error(param_type_indices.len(), param_errors(forest_index, param_type_indices, ntypes)),
        ),
        DebugTypeInfoView::Enum { name_idx, discriminant_type_idx, variants, .. } => or_else(
            type_string_error(forest_index, name_idx, nstrings),
            or_else(
                type_idx_error(forest_index, discriminant_type_idx, ntypes),
                first_error(variants.len(), variant_errors(forest_index, variants, nstrings, ntypes)),
            ),
        ),
        DebugTypeInfoView::Unknown => None,
    }
}

/// The errors of the type rows of `d`; row `i` may refer to the rows before it.
pub open spec fn type_errors(d: DebugInfoView, forest_index: usize) -> spec_fn(int) -> Option<DebugInfoMergeError> {
    |i: int| type_row_error(forest_index, d.types[i], d.strings.len(), i as nat)
}

/// The errors of the file rows of `d`.
pub open spec fn file_errors(d: DebugInfoView, forest_index: usize) -> spec_fn(int) -> Option<DebugInfoMergeError> {
    |i: int| string_error(forest_index, d.files[i].path_idx, d.strings.len())
}

/// The errors of the location rows of `d`.
pub open spec fn location_errors(d: DebugInfoView, forest_index: usize) -> spec_fn(int) -> Option<DebugInfoMergeError> {
    |i: int| file_idx_error(forest_index, d.locations[i].file_idx, d.files.len())
}

/// The errors of the error-message rows of `d`.
pub open spec fn message_errors(d: DebugInfoView, forest_index: usize) -> spec_fn(int) -> Option<DebugInfoMergeError> {
    |i: int| string_error(forest_index, d.error_messages[i].message, d.strings.len())
}

/// The errors of the children of node `n` of `d`.
pub open spec fn child_errors(d: DebugInfoView, forest_index: usize, n: SourceNodeView) -> spec_fn(int) -> Option<DebugInfoMergeError> {
    |k: int| node_idx_error(forest_index, n.children[k], d.nodes.len())
}

/// The errors of the assembly-operation rows of node `n` of `d` (location, context name, operation
/// name).
pub open spec fn asm_op_errors(d: DebugInfoView, forest_index: usize, n: SourceNodeView) -> spec_fn(int) -> Option<DebugInfoMergeError> {
    |k: int| or_else(
        loc_error(forest_index, n.asm_ops[k].location_idx, d.locations.len()),
        or_else(
            string_error(forest_index, n.asm_ops[k].context_name_idx, d.strings.len()),
            string_error(forest_index, n.asm_ops[k].op_name_idx, d.strings.len()),
        ),
    )
}

/// The errors of the debug-variable rows of node `n` of `d` (name, then location).
pub open spec fn var_errors(d: DebugInfoView, forest_index: usize, n: SourceNodeView) -> spec_fn(int) -> Option<DebugInfoMergeError> {
    |k: int| or_else(
        string_error(forest_index, n.debug_vars[k].name_idx, d.strings.len()),
        loc_error(forest_index, n.debug_vars[k].location_idx, d.locations.len()),
    )
}

/// The first error of node `n` of `d`: its executable node, then its children, its
/// assembly-operation rows and its debug-variable rows.
pub open spec fn node_error(d: DebugInfoView, forest_index: usize, m: Seq<Seq<Option<MastNodeId>>>, n: SourceNodeView) -> Option<DebugInfoMergeError> {
    or_else(
        if mapped_node(m, forest_index, n.exec_node) is Some {
            None
        } else {
            Some(DebugInfoMergeError::MissingExecNodeMapping { forest_index, exec_node: n.exec_node })
        },
        or_else(
            first_error(n.children.len(), child_errors(d, forest_index, n)),
            or_else(
                first_error(n.asm_ops.len(), asm_op_errors(d, forest_index, n)),
                first_error(n.debug_vars.len(), var_errors(d, forest_index, n)),
            ),
        ),
    )
}

/// The errors of the nodes of `d`.
pub open spec fn node_errors(d: DebugInfoView, forest_index: usize, m: Seq<Seq<Option<MastNodeId>>>) -> spec_fn(int) -> Option<DebugInfoMergeError> {
    |i: int| node_error(d, forest_index, m, d.nodes[i])
}

/// The errors of the roots of `d`.
pub open spec fn root_errors(d: DebugInfoView, forest_index: usize) -> spec_fn(int) -> Option<DebugInfoMergeError> {
    |i: int| node_idx_error(forest_index, d.roots[i], d.nodes.len())
}

/// The first error of a function row of `d`: its source node, name, linkage name, file, type.
pub open spec fn function_error(d: DebugInfoView, forest_index: usize, f: FunctionInfo) -> Option<DebugInfoMergeError> {
    or_else(
        match f.source_node {
            Some(n) => node_idx_error(forest_index, n, d.nodes.len()),
            None => None,
        },
        or_else(
            string_error(forest_index, f.name_idx, d.strings.len()),
            or_else(
                match f.linkage_name_idx {
                    Some(l) => string_error(forest_index, l, d.strings.len()),
                    None => None,
                },
                or_else(
                    file_idx_error(forest_index, f.file_idx, d.files.len()),
                    opt_type_idx_error(forest_index, f.type_idx, d.types.len()),
                ),
            ),
        ),
    )
}

/// The errors of the function rows of `d`.
pub open spec fn function_errors(d: DebugInfoView, forest_index: usize) -> spec_fn(int) -> Option<DebugInfoMergeError> {
    |i: int| function_error(d, forest_index, d.functions[i])
}

/// The errors of the inline-call rows of node `n` of `d` (callee, then location).
pub open spec fn inline_call_errors(d: DebugInfoView, forest_index: usize, n: SourceNodeView) -> spec_fn(int) -> Option<DebugInfoMergeError> {
    |k: int| or_else(
        if n.inline_calls[k].callee_idx.0 < d.functions.len() {
            None
        } else {
            Some(DebugInfoMergeError::MissingFunctionMapping { forest_index, function_idx: n.inline_calls[k].callee_idx })
        },
        loc_error(forest_index, Some(n.inline_calls[k].loc_idx), d.locations.len()),
    )
}

/// The errors of the inline calls of each node of `d`.
pub open spec fn node_inline_errors(d: DebugInfoView, forest_index: usize) -> spec_fn(int) -> Option<DebugInfoMergeError> {
    |i: int| first_error(d.nodes[i].inline_calls.len(), inline_call_errors(d, forest_index, d.nodes[i]))
}

/// The error that merging `d` (as forest `forest_index`, with node map `m`) is refused with, if
/// any: the first dangling reference in the order the tables are read (types, files, locations,
/// error messages, nodes, roots, functions, inline calls).
pub open spec fn merge_error(d: DebugInfoView, forest_index: usize, m: Seq<Seq<Option<MastNodeId>>>) -> Option<DebugInfoMergeError> {
    or_else(
        first_error(d.types.len(), type_errors(d, forest_index)),
        or_else(
            first_error(d.files.len(), file_errors(d, forest_index)),
            or_else(
                first_error(d.locations.len(), location_errors(d, forest_index)),
                or_else(
                    first_error(d.error_messages.len(), message_errors(d, forest_index)),
                    or_else(
                        first_error(d.nodes.len(), node_errors(d, forest_index, m)),
                        or_else(
                            first_error(d.roots.len(), root_errors(d, forest_index)),
                            or_else(
                                first_error(d.functions.len(), function_errors(d, forest_index)),
                                first_error(d.nodes.len(), node_inline_errors(d, forest_index)),
                            ),
                        ),
                    ),
                ),
            ),
        ),
    )
}

// SAMENESS ACROSS TABLES
// ================================================================================================

/// String `a` of `out` has the contents of string `b` of `d`.
pub open spec fn same_str(out: DebugInfoView, a: DebugStringIdx, d: DebugInfoView, b: DebugStringIdx) -> bool {
    a.0 < out.strings.len() && b.0 < d.strings.len() && out.strings[a.0 as int] == d.strings[b.0 as int]
}

/// File `a` of `out` has the path contents and checksum of file `b` of `d`.
pub open spec fn same_file(out: DebugInfoView, a: DebugFileIdx, d: DebugInfoView, b: DebugFileIdx) -> bool {
    &&& a.0 < out.files.len()
    &&& b.0 < d.files.len()
    &&& same_str(out, out.files[a.0 as int].path_idx, d, d.files[b.0 as int].path_idx)
    &&& out.files[a.0 as int].checksum@ == d.files[b.0 as int].checksum@
}

/// Location `a` of `out` is the byte range of location `b` of `d`, in the same file.
pub open spec fn same_loc(out: DebugInfoView, a: DebugLocIdx, d: DebugInfoView, b: DebugLocIdx) -> bool {
    &&& a.0 < out.locations.len()
    &&& b.0 < d.locations.len()
    &&& out.locations[a.0 as int].start == d.locations[b.0 as int].start
    &&& out.locations[a.0 as int].end == d.locations[b.0 as int].end
    &&& same_file(out, out.locations[a.0 as int].file_idx, d, d.locations[b.0 as int].file_idx)
}

/// Both optional locations are absent, or both are present and the same.
pub open spec fn same_opt_loc(out: DebugInfoView, a: Option<DebugLocIdx>, d: DebugInfoView, b: Option<DebugLocIdx>) -> bool {
    match (a, b) {
        (None, None) => true,
        (Some(x), Some(y)) => same_loc(out, x, d, y),
        _ => false,
    }
}

/// Function row `a` of `out` describes function row `b` of `d`: the same name, linkage name,
/// file, position and MAST root, with its source node moved by `node_offset`.
pub open spec fn same_function_row(out: DebugInfoView, x: FunctionInfo, d: DebugInfoView, y: FunctionInfo, node_offset: nat) -> bool {
    &&& match (x.source_node, y.source_node) {
        (None, None) => true,
        (Some(s), Some(t)) => s.0 == t.0 + node_offset,
        _ => false,
    }
    &&& same_str(out, x.name_idx, d, y.name_idx)
    &&& match (x.linkage_name_idx, y.linkage_name_idx) {
        (None, None) => true,
        (Some(s), Some(t)) => same_str(out, s, d, t),
        _ => false,
    }
    &&& same_file(out, x.file_idx, d, y.file_idx)
    &&& x.line == y.line && x.column == y.column && x.mast_root == y.mast_root
    &&& (x.type_idx is Some <==> y.type_idx is Some)
}

/// The optional type index `a` is `b` moved by `type_offset` (both absent, or both present).
pub open spec fn moved_type_ref(a: Option<DebugTypeIdx>, b: Option<DebugTypeIdx>, type_offset: nat) -> bool {
    match (a, b) {
        (None, None) => true,
        (Some(s), Some(t)) => s.0 == t.0 + type_offset,
        _ => false,
    }
}

/// Type row `o` of `out` describes type row `t` of `d`: the same kind of type, with the same
/// primitive, sizes, element count, field offsets, payload offsets and discriminants, every string
/// it names with the same contents, and every type index it names moved by `type_offset`.
pub open spec fn same_type_row(out: DebugInfoView, o: DebugTypeInfoView, d: DebugInfoView, t: DebugTypeInfoView, type_offset: nat) -> bool {
    match (o, t) {
        (DebugTypeInfoView::Primitive(a), DebugTypeInfoView::Primitive(b)) => a == b,
        (DebugTypeInfoView::Pointer { pointee_type_idx: a }, DebugTypeInfoView::Pointer { pointee_type_idx: b }) =>
            a.0 == b.0 + type_offset,
        (
            DebugTypeInfoView::Array { element_type_idx: a, count: ca },
            DebugTypeInfoView::Array { element_type_idx: b, count: cb },
        ) => a.0 == b.0 + type_offset && ca == cb,
        (
            DebugTypeInfoView::Struct { name_idx: na, size: sa, fields: fa },
            DebugTypeInfoView::Struct { name_idx: nb, size: sb, fields: fb },
        ) => {
            &&& same_str(out, na, d, nb)
            &&& sa == sb
            &&& fa.len() == fb.len()
            &&& forall|k: int| 0 <= k < fa.len() ==> {
                &&& same_str(out, (#[trigger] fa[k]).name_idx, d, fb[k].name_idx)
                &&& fa[k].type_idx.0 == fb[k].type_idx.0 + type_offset
                &&& fa[k].offset == fb[k].offset
            }
        },
        (
            DebugTypeInfoView::Function { return_type_idx: ra, param_type_indices: pa },
            DebugTypeInfoView::Function { return_type_idx: rb, param_type_indices: pb },
        ) => {
            &&& moved_type_ref(ra, rb, type_offset)
            &&& pa.len() == pb.len()
            &&& forall|k: int| 0 <= k < pa.len() ==> (#[trigger] pa[k]).0 == pb[k].0 + type_offset
        },
        (
            DebugTypeInfoView::Enum { name_idx: na, size: sa, discriminant_type_idx: da, variants: va },
            DebugTypeInfoView::Enum { name_idx: nb, size: sb, discriminant_type_idx: db, variants: vb },
        ) => {
            &&& same_str(out, na, d, nb)
            &&& sa == sb
            &&& da.0 == db.0 + type_offset
            &&& va.len() == vb.len()
            &&& forall|k: int| 0 <= k < va.len() ==> {
                &&& same_str(out, (#[trigger] va[k]).name_idx, d, vb[k].name_idx)
                &&& moved_type_ref(va[k].type_idx, vb[k].type_idx, type_offset)
                &&& va[k].payload_offset == vb[k].payload_offset
                &&& va[k].discriminant == vb[k].discriminant
            }
        },
        (DebugTypeInfoView::Unknown, DebugTypeInfoView::Unknown) => true,
        _ => false,
    }
}

/// Function `a` of `out` describes function `b` of `d` (see [`same_function_row`]).
pub open spec fn same_function(out: DebugInfoView, a: DebugFunctionIdx, d: DebugInfoView, b: DebugFunctionIdx, node_offset: nat) -> bool {
    &&& a.0 < out.functions.len()
    &&& b.0 < d.functions.len()
    &&& same_function_row(out, out.functions[a.0 as int], d, d.functions[b.0 as int], node_offset)
}

/// Assembly-operation row `x` of `out` describes row `y` of `d`.
pub open spec fn same_asm_op(out: DebugInfoView, x: DebugSourceAsmOp, d: DebugInfoView, y: DebugSourceAsmOp) -> bool {
    &&& x.op_idx == y.op_idx && x.num_cycles == y.num_cycles
    &&& same_opt_loc(out, x.location_idx, d, y.location_idx)
    &&& same_str(out, x.context_name_idx, d, y.context_name_idx)
    &&& same_str(out, x.op_name_idx, d, y.op_name_idx)
}

/// Debug-variable row `x` of `out` describes row `y` of `d`.
pub open spec fn same_var(out: DebugInfoView, x: DebugSourceVarView, d: DebugInfoView, y: DebugSourceVarView) -> bool {
    &&& x.op_idx == y.op_idx && x.type_id == y.type_id && x.arg_idx == y.arg_idx
    &&& x.value_location == y.value_location
    &&& same_str(out, x.name_idx, d, y.name_idx)
    &&& same_opt_loc(out, x.location_idx, d, y.location_idx)
}

/// Inline-call row `x` of `out` describes row `y` of `d`.
pub open spec fn same_inline_call(out: DebugInfoView, x: DebugSourceInlineCall, d: DebugInfoView, y: DebugSourceInlineCall, node_offset: nat) -> bool {
    &&& x.op_idx == y.op_idx
    &&& same_function(out, x.callee_idx, d, y.callee_idx, node_offset)
    &&& same_loc(out, x.loc_idx, d, y.loc_idx)
}

/// Node `o` of `out` describes node `n` of `d` except for its inline calls: its executable node
/// remapped by `m`, its children moved by `node_offset`, and its rows describing `n`'s rows.
pub open spec fn same_node_shape(out: DebugInfoView, o: SourceNodeView, d: DebugInfoView, n: SourceNodeView, forest_index: usize, m: Seq<Seq<Option<MastNodeId>>>, node_offset: nat) -> bool {
    &&& mapped_node(m, forest_index, n.exec_node) == Some(o.exec_node)
    &&& o.children.len() == n.children.len()
    &&& forall|k: int| 0 <= k < o.children.len() ==> (#[trigger] o.children[k]).0 == n.children[k].0 + node_offset
    &&& o.op_start == n.op_start && o.op_end == n.op_end
    &&& o.asm_ops.len() == n.asm_ops.len()
    &&& forall|k: int| 0 <= k < o.asm_ops.len() ==> same_asm_op(out, #[trigger] o.asm_ops[k], d, n.asm_ops[k])
    &&& o.debug_vars.len() == n.debug_vars.len()
    &&& forall|k: int| 0 <= k < o.debug_vars.len() ==> same_var(out, #[trigger] o.debug_vars[k], d, n.debug_vars[k])
}

/// Node `o` of `out` describes node `n` of `d` (see [`same_node_shape`]), inline calls included.
pub open spec fn same_node(out: DebugInfoView, o: SourceNodeView, d: DebugInfoView, n: SourceNodeView, forest_index: usize, m: Seq<Seq<Option<MastNodeId>>>, node_offset: nat) -> bool {
    &&& same_node_shape(out, o, d, n, forest_index, m, node_offset)
    &&& o.inline_calls.len() == n.inline_calls.len()
    &&& forall|k: int| 0 <= k < o.inline_calls.len() ==> same_inline_call(out, #[trigger] o.inline_calls[k], d, n.inline_calls[k], node_offset)
}

/// No two file rows have the same path index and checksum.
pub open spec fn files_distinct(files: Seq<DebugFileInfo>) -> bool {
    forall|i: int, j: int|
        0 <= i < files.len() && 0 <= j < files.len() && i != j ==> !same_file_info(#[trigger] files[i], #[trigger] files[j])
}

/// Some file row of `out` has the path contents and checksum of file `x` of `d`.
pub open spec fn file_present(out: DebugInfoView, d: DebugInfoView, x: int) -> bool {
    exists|a: DebugFileIdx| #[trigger] same_file(out, a, d, DebugFileIdx(x as u32))
}

/// Some location row of `out` is the byte range of location `x` of `d`, in the same file.
pub open spec fn loc_present(out: DebugInfoView, d: DebugInfoView, x: int) -> bool {
    exists|a: DebugLocIdx| #[trigger] same_loc(out, a, d, DebugLocIdx(x as u32))
}

/// `out` records an error message for `code`.
pub open spec fn code_present(out: DebugInfoView, code: u64) -> bool {
    exists|k: int| 0 <= k < out.error_messages.len() && (#[trigger] out.error_messages[k]).err_code == code
}

/// `out` answers the error code of row `x` of `d` with that row's message: the first row of `out`
/// for the code names a string with the contents of the string that row `x` names.
pub open spec fn message_carried(out: DebugInfoView, d: DebugInfoView, x: int) -> bool {
    exists|k: int|
        #[trigger] is_first_message_for(out, d.error_messages[x].err_code, k) && same_str(
            out,
            out.error_messages[k].message,
            d,
            d.error_messages[x].message,
        )
}

/// The type indices `type_offset .. type_offset + n`.
pub open spec fn shifted_types(type_offset: nat, n: int) -> Seq<DebugTypeIdx> {
    Seq::new(n as nat, |y: int| DebugTypeIdx((type_offset + y) as u32))
}

/// Everything `d` holds has been carried into `out`: each string, file and location has a row with
/// the same contents, each type is the row of `out` moved by `type_offset` with its strings mapped
/// to equal strings and its type indices moved by `type_offset`, each error code has a message,
/// each function row is described by the row of `out` moved by `function_offset`, and each node by
/// the node of `out` moved by `node_offset`.
pub open spec fn input_merged(
    out: DebugInfoView,
    d: DebugInfoView,
    forest_index: usize,
    m: Seq<Seq<Option<MastNodeId>>>,
    node_offset: nat,
    function_offset: nat,
    type_offset: nat,
) -> bool {
    &&& forall|x: int| 0 <= x < d.strings.len() ==> out.strings.contains(#[trigger] d.strings[x])
    &&& type_offset + d.types.len() <= out.types.len()
    &&& exists|string_map: Seq<DebugStringIdx>|
        #![trigger strings_mapped(out, d, string_map)]
        strings_mapped(out, d, string_map) && forall|x: int|
            0 <= x < d.types.len() ==> out.types[type_offset + x] == remap_type(
                #[trigger] d.types[x],
                string_map,
                shifted_types(type_offset, x),
            )
    &&& forall|x: int|
        0 <= x < d.types.len() ==> same_type_row(out, out.types[type_offset + x], d, #[trigger] d.types[x], type_offset)
    &&& forall|x: int| 0 <= x < d.files.len() ==> #[trigger] file_present(out, d, x)
    &&& forall|x: int| 0 <= x < d.locations.len() ==> #[trigger] loc_present(out, d, x)
    &&& forall|x: int| 0 <= x < d.error_messages.len() ==> code_present(out, (#[trigger] d.error_messages[x]).err_code)
    &&& function_offset + d.functions.len() <= out.functions.len()
    &&& forall|x: int|
        0 <= x < d.functions.len() ==> same_function_row(out, out.functions[function_offset + x], d, #[trigger] d.functions[x], node_offset)
            && moved_type_ref(out.functions[function_offset + x].type_idx, d.functions[x].type_idx, type_offset)
    &&& node_offset + d.nodes.len() <= out.nodes.len()
    &&& forall|i: int| 0 <= i < d.nodes.len() ==> same_node(out, #[trigger] out.nodes[node_offset + i], d, d.nodes[i], forest_index, m, node_offset)
}

// REMAPPING, TABLE BY TABLE
// ================================================================================================

/// `map` sends each string of `d` to a string of `out` with the same contents.
pub open spec fn strings_mapped(out: DebugInfoView, d: DebugInfoView, map: Seq<DebugStringIdx>) -> bool {
    &&& map.len() == d.strings.len()
    &&& forall|x: int| 0 <= x < map.len() ==> same_str(out, #[trigger] map[x], d, DebugStringIdx(x as u32))
}

/// `map` sends each file of `d` to a file of `out` with the same path contents and checksum.
pub open spec fn files_mapped(out: DebugInfoView, d: DebugInfoView, map: Seq<DebugFileIdx>) -> bool {
    &&& map.len() == d.files.len()
    &&& forall|x: int| 0 <= x < map.len() ==> same_file(out, #[trigger] map[x], d, DebugFileIdx(x as u32))
}

/// `map` sends each location of `d` to the same location of `out`.
pub open spec fn locations_mapped(out: DebugInfoView, d: DebugInfoView, map: Seq<DebugLocIdx>) -> bool {
    &&& map.len() == d.locations.len()
    &&& forall|x: int| 0 <= x < map.len() ==> same_loc(out, #[trigger] map[x], d, DebugLocIdx(x as u32))
}

proof fn lemma_same_str_extends(out: DebugInfoView, out2: DebugInfoView, a: DebugStringIdx, d: DebugInfoView, b: DebugStringIdx)
    requires
        extends(out, out2),
        same_str(out, a, d, b),
    ensures
        same_str(out2, a, d, b),
{
    assert(out2.strings[a.0 as int] == out.strings[a.0 as int]);
}

proof fn lemma_same_file_extends(out: DebugInfoView, out2: DebugInfoView, a: DebugFileIdx, d: DebugInfoView, b: DebugFileIdx)
    requires
        extends(out, out2),
        same_file(out, a, d, b),
    ensures
        same_file(out2, a, d, b),
{
    assert(out2.files[a.0 as int] == out.files[a.0 as int]);
    lemma_same_str_extends(out, out2, out.files[a.0 as int].path_idx, d, d.files[b.0 as int].path_idx);
}

proof fn lemma_same_loc_extends(out: DebugInfoView, out2: DebugInfoView, a: DebugLocIdx, d: DebugInfoView, b: DebugLocIdx)
    requires
        extends(out, out2),
        same_loc(out, a, d, b),
    ensures
        same_loc(out2, a, d, b),
{
    assert(out2.locations[a.0 as int] == out.locations[a.0 as int]);
    lemma_same_file_extends(out, out2, out.locations[a.0 as int].file_idx, d, d.locations[b.0 as int].file_idx);
}

/// Interns every string of `d` into `out`, in order.
fn remap_strings(out: &mut DebugInfo, d: &DebugInfo) -> (map: Vec<DebugStringIdx>)
    requires
        old(out)@.strings.len() + d@.strings.len() < u32::MAX,
    ensures
        changes_only(old(out)@, final(out)@, true, false, false, false, false, false, false, false),
        final(out)@.strings.len() <= old(out)@.strings.len() + d@.strings.len(),
        strings_mapped(final(out)@, d@, map@),
{
    let ghost start = out@;
    let strings = d.strings();
    let mut map: Vec<DebugStringIdx> = Vec::new();
    let mut i: usize = 0;
    while i < strings.len()
        invariant
            strings@.map_values(|s: String| s@) == d@.strings,
            i <= strings.len(),
            changes_only(start, out@, true, false, false, false, false, false, false, false),
            out@.strings.len() <= start.strings.len() + i,
            start.strings.len() + d@.strings.len() < u32::MAX,
            map@.len() == i,
            forall|x: int| 0 <= x < i ==> same_str(out@, #[trigger] map@[x], d@, DebugStringIdx(x as u32)),
        decreases strings.len() - i,
    {
        let ghost before = out@;
        let idx = out.intern_string(strings[i].clone());
        proof {
            assert(d@.strings[i as int] == strings@[i as int]@);
            assert forall|x: int| 0 <= x < i implies same_str(out@, #[trigger] map@[x], d@, DebugStringIdx(x as u32)) by {
                lemma_same_str_extends(before, out@, map@[x], d@, DebugStringIdx(x as u32));
            }
        }
        map.push(idx);
        i = i + 1;
    }
    map
}

fn remap_string_index(forest_index: usize, string_idx: DebugStringIdx, string_map: &Vec<DebugStringIdx>) -> (r: Result<
    DebugStringIdx,
    DebugInfoMergeError,
>)
    ensures
        r is Ok <==> string_idx.0 < string_map.len(),
        r matches Ok(s) ==> s == string_map@[string_idx.0 as int],
        r matches Err(e) ==> Some(e) == type_string_error(forest_index, string_idx, string_map.len() as nat),
{
    if (string_idx.0 as usize) < string_map.len() {
        Ok(string_map[string_idx.0 as usize])
    } else {
        Err(DebugInfoMergeError::MissingTypeStringMapping { forest_index, string_idx })
    }
}

fn remap_type_idx(forest_index: usize, type_idx: DebugTypeIdx, type_map: &Vec<DebugTypeIdx>) -> (r: Result<
    DebugTypeIdx,
    DebugInfoMergeError,
>)
    ensures
        r is Ok <==> type_idx.0 < type_map.len(),
        r matches Ok(t) ==> t == type_map@[type_idx.0 as int],
        r matches Err(e) ==> Some(e) == type_idx_error(forest_index, type_idx, type_map.len() as nat),
{
    if (type_idx.0 as usize) < type_map.len() {
        Ok(type_map[type_idx.0 as usize])
    } else {
        Err(DebugInfoMergeError::MissingTypeMapping { forest_index, type_idx })
    }
}

fn remap_opt_type_idx(forest_index: usize, type_idx: Option<DebugTypeIdx>, type_map: &Vec<DebugTypeIdx>) -> (r: Result<
    Option<DebugTypeIdx>,
    DebugInfoMergeError,
>)
    ensures
        r is Ok <==> (type_idx matches Some(t) ==> t.0 < type_map.len()),
        r matches Ok(o) ==> o == (match type_idx {
            Some(t) => Some(type_map@[t.0 as int]),
            None => None,
        }),
        r matches Err(e) ==> Some(e) == opt_type_idx_error(forest_index, type_idx, type_map.len() as nat),
{
    match type_idx {
        Some(t) => match remap_type_idx(forest_index, t, type_map) {
            Ok(n) => Ok(Some(n)),
            Err(e) => Err(e),
        },
        None => Ok(None),
    }
}

/// Remaps the string and type indices of a debug type row through `string_map` and `type_map`.
#[verifier::loop_isolation(false)]
fn remap_debug_type_info(
    forest_index: usize,
    ty: &DebugTypeInfo,
    string_map: &Vec<DebugStringIdx>,
    type_map: &Vec<DebugTypeIdx>,
) -> (r: Result<DebugTypeInfo, DebugInfoMergeError>)
    ensures
        r is Ok <==> type_refs_in(ty@, string_map.len() as int, type_map.len() as int),
        r matches Ok(t) ==> t@ == remap_type(ty@, string_map@, type_map@),
        r is Ok ==> type_row_error(forest_index, ty@, string_map.len() as nat, type_map.len() as nat) is None,
        r matches Err(e) ==> Some(e) == type_row_error(forest_index, ty@, string_map.len() as nat, type_map.len() as nat),
{
    match ty {
        DebugTypeInfo::Primitive(primitive) => Ok(DebugTypeInfo::Primitive(*primitive)),
        DebugTypeInfo::Pointer { pointee_type_idx } => {
            let p = remap_type_idx(forest_index, *pointee_type_idx, type_map)?;
            Ok(DebugTypeInfo::Pointer { pointee_type_idx: p })
        },
        DebugTypeInfo::Array { element_type_idx, count } => {
            let e = remap_type_idx(forest_index, *element_type_idx, type_map)?;
            Ok(DebugTypeInfo::Array { element_type_idx: e, count: *count })
        },
        DebugTypeInfo::Struct { name_idx, size, fields } => {
            let name = remap_string_index(forest_index, *name_idx, string_map)?;
            let mut new_fields: Vec<DebugFieldInfo> = Vec::new();
            let mut k: usize = 0;
            while k < fields.len()
                invariant
                    k <= fields.len(),
                    new_fields@.len() == k,
                    forall|j: int| 0 <= j < k ==> (#[trigger] fields@[j]).name_idx.0 < string_map.len()
                        && fields@[j].type_idx.0 < type_map.len(),
                    first_error(k as nat, field_errors(forest_index, fields@, string_map.len() as nat, type_map.len() as nat)) is None,
                    forall|j: int| 0 <= j < k ==> #[trigger] new_fields@[j] == (DebugFieldInfo {
                        name_idx: string_map@[fields@[j].name_idx.0 as int],
                        type_idx: type_map@[fields@[j].type_idx.0 as int],
                        offset: fields@[j].offset,
                    }),
                decreases fields.len() - k,
            {
                let field = fields[k];
                let ghost errs = field_errors(forest_index, fields@, string_map.len() as nat, type_map.len() as nat);
                let field_name = match remap_string_index(forest_index, field.name_idx, string_map) {
                    Ok(n) => n,
                    Err(e) => {
                        assert(fields@[k as int] == field);
                        proof {
                            assert(first_error((k + 1) as nat, errs) == Some(e));
                            lemma_first_error_stays((k + 1) as nat, fields@.len(), errs);
                        }
                        return Err(e);
                    },
                };
                let field_type = match remap_type_idx(forest_index, field.type_idx, type_map) {
                    Ok(t) => t,
                    Err(e) => {
                        assert(fields@[k as int] == field);
                        proof {
                            assert(first_error((k + 1) as nat, errs) == Some(e));
                            lemma_first_error_stays((k + 1) as nat, fields@.len(), errs);
                        }
                        return Err(e);
                    },
                };
                assert(fields@[k as int] == field);
                new_fields.push(DebugFieldInfo { name_idx: field_name, type_idx: field_type, offset: field.offset });
                k = k + 1;
            }
            assert(new_fields@ =~= fields@.map_values(|f: DebugFieldInfo| DebugFieldInfo {
                name_idx: string_map@[f.name_idx.0 as int],
                type_idx: type_map@[f.type_idx.0 as int],
                offset: f.offset,
            }));
            let r = DebugTypeInfo::Struct { name_idx: name, size: *size, fields: new_fields };
            Ok(r)
        },
        DebugTypeInfo::Function { return_type_idx, param_type_indices } => {
            let ret = remap_opt_type_idx(forest_index, *return_type_idx, type_map)?;
            let mut params: Vec<DebugTypeIdx> = Vec::new();
            let mut k: usize = 0;
            while k < param_type_indices.len()
                invariant
                    k <= param_type_indices.len(),
                    params@.len() == k,
                    forall|j: int| 0 <= j < k ==> (#[trigger] param_type_indices@[j]).0 < type_map.len(),
                    first_error(k as nat, param_errors(forest_index, param_type_indices@, type_map.len() as nat)) is None,
                    forall|j: int| 0 <= j < k ==> #[trigger] params@[j] == type_map@[param_type_indices@[j].0 as int],
                decreases param_type_indices.len() - k,
            {
                let ghost errs = param_errors(forest_index, param_type_indices@, type_map.len() as nat);
                let p = match remap_type_idx(forest_index, param_type_indices[k], type_map) {
                    Ok(p) => p,
                    Err(e) => {
                        assert(param_type_indices@[k as int] == param_type_indices[k as int]);
                        proof {
                            assert(first_error((k + 1) as nat, errs) == Some(e));
                            lemma_first_error_stays((k + 1) as nat, param_type_indices@.len(), errs);
                        }
                        return Err(e);
                    },
                };
                assert(param_type_indices@[k as int] == param_type_indices[k as int]);
                params.push(p);
                k = k + 1;
            }
            assert(params@ =~= param_type_indices@.map_values(|p: DebugTypeIdx| type_map@[p.0 as int]));
            let r = DebugTypeInfo::Function { return_type_idx: ret, param_type_indices: params };
            Ok(r)
        },
        DebugTypeInfo::Enum { name_idx, size, discriminant_type_idx, variants } => {
            let name = remap_string_index(forest_index, *name_idx, string_map)?;
            let discriminant_type = remap_type_idx(forest_index, *discriminant_type_idx, type_map)?;
            let mut new_variants: Vec<DebugVariantInfo> = Vec::new();
            let mut k: usize = 0;
            while k < variants.len()
                invariant
                    k <= variants.len(),
                    new_variants@.len() == k,
                    forall|j: int| 0 <= j < k ==> (#[trigger] variants@[j]).name_idx.0 < string_map.len()
                        && (variants@[j].type_idx matches Some(t) ==> t.0 < type_map.len()),
                    first_error(k as nat, variant_errors(forest_index, variants@, string_map.len() as nat, type_map.len() as nat)) is None,
                    forall|j: int| 0 <= j < k ==> #[trigger] new_variants@[j] == (DebugVariantInfo {
                        name_idx: string_map@[variants@[j].name_idx.0 as int],
                        type_idx: match variants@[j].type_idx {
                            Some(t) => Some(type_map@[t.0 as int]),
                            None => None,
                        },
                        payload_offset: variants@[j].payload_offset,
                        discriminant: variants@[j].discriminant,
                    }),
                decreases variants.len() - k,
            {
                let variant = variants[k];
                let ghost errs = variant_errors(forest_index, variants@, string_map.len() as nat, type_map.len() as nat);
                let variant_name = match remap_string_index(forest_index, variant.name_idx, string_map) {
                    Ok(n) => n,
                    Err(e) => {
                        assert(variants@[k as int] == variant);
                        proof {
                            assert(first_error((k + 1) as nat, errs) == Some(e));
                            lemma_first_error_stays((k + 1) as nat, variants@.len(), errs);
                        }
                        return Err(e);
                    },
                };
                let variant_type = match remap_opt_type_idx(forest_index, variant.type_idx, type_map) {
                    Ok(t) => t,
                    Err(e) => {
                        assert(variants@[k as int] == variant);
                        proof {
                            assert(first_error((k + 1) as nat, errs) == Some(e));
                            lemma_first_error_stays((k + 1) as nat, variants@.len(), errs);
                        }
                        return Err(e);
                    },
                };
                assert(variants@[k as int] == variant);
                new_variants.push(DebugVariantInfo {
                    name_idx: variant_name,
                    type_idx: variant_type,
                    payload_offset: variant.payload_offset,
                    discriminant: variant.discriminant,
                });
                k = k + 1;
            }
            assert(new_variants@ =~= variants@.map_values(|v: DebugVariantInfo| DebugVariantInfo {
                name_idx: string_map@[v.name_idx.0 as int],
                type_idx: match v.type_idx {
                    Some(t) => Some(type_map@[t.0 as int]),
                    None => None,
                },
                payload_offset: v.payload_offset,
                discriminant: v.discriminant,
            }));
            let r = DebugTypeInfo::Enum {
                name_idx: name,
                size: *size,
                discriminant_type_idx: discriminant_type,
                variants: new_variants,
            };
            Ok(r)
        },
        DebugTypeInfo::Unknown => Ok(DebugTypeInfo::Unknown),
    }
}

/// Remaps and adds every type of `d` to `out`, in order (a type may only refer to earlier types).
fn remap_types(out: &mut DebugInfo, d: &DebugInfo, forest_index: usize, string_map: &Vec<DebugStringIdx>) -> (r: Result<
    Vec<DebugTypeIdx>,
    DebugInfoMergeError,
>)
    requires
        string_map.len() == d@.strings.len(),
        old(out)@.types.len() + d@.types.len() < u32::MAX,
    ensures
        r is Ok <==> forall|i: int| 0 <= i < d@.types.len() ==> type_resolves(d@, #[trigger] d@.types[i], i),
        r is Ok ==> first_error(d@.types.len(), type_errors(d@, forest_index)) is None,
        r matches Err(e) ==> Some(e) == first_error(d@.types.len(), type_errors(d@, forest_index)),
        r is Ok ==> changes_only(old(out)@, final(out)@, false, false, false, true, false, false, false, false),
        r is Ok ==> final(out)@.types.len() == old(out)@.types.len() + d@.types.len(),
        r matches Ok(tm) ==> tm@.len() == d@.types.len() && forall|x: int| 0 <= x < tm@.len() ==> {
            &&& (#[trigger] tm@[x]).0 == old(out)@.types.len() + x
            &&& final(out)@.types[tm@[x].0 as int] == remap_type(d@.types[x], string_map@, tm@.take(x))
        },
{
    let ghost start = out@;
    let types = d.types();
    let mut type_map: Vec<DebugTypeIdx> = Vec::new();
    let mut i: usize = 0;
    while i < types.len()
        invariant
            types@.map_values(|t: DebugTypeInfo| t@) == d@.types,
            string_map.len() == d@.strings.len(),
            start.types.len() + d@.types.len() < u32::MAX,
            i <= types.len(),
            changes_only(start, out@, false, false, false, true, false, false, false, false),
            out@.types.len() == start.types.len() + i,
            type_map@.len() == i,
            forall|x: int| 0 <= x < i ==> type_resolves(d@, #[trigger] d@.types[x], x),
            first_error(i as nat, type_errors(d@, forest_index)) is None,
            forall|x: int| 0 <= x < i ==> {
                &&& (#[trigger] type_map@[x]).0 == start.types.len() + x
                &&& out@.types[type_map@[x].0 as int] == remap_type(d@.types[x], string_map@, type_map@.take(x))
            },
        decreases types.len() - i,
    {
        assert(d@.types[i as int] == types@[i as int]@);
        let remapped = match remap_debug_type_info(forest_index, &types[i], string_map, &type_map) {
            Ok(t) => t,
            Err(e) => {
                proof {
                    assert(first_error((i + 1) as nat, type_errors(d@, forest_index)) == Some(e));
                    lemma_first_error_stays((i + 1) as nat, d@.types.len(), type_errors(d@, forest_index));
                }
                return Err(e);
            },
        };
        assert(type_errors(d@, forest_index)(i as int) is None);
        let ghost before = out@;
        let ghost prev_map = type_map@;
        let idx = out.push_type(remapped);
        type_map.push(idx);
        proof {
            assert(type_map@.take(i as int) =~= prev_map);
            assert forall|x: int| 0 <= x < i + 1 implies {
                &&& (#[trigger] type_map@[x]).0 == start.types.len() + x
                &&& out@.types[type_map@[x].0 as int] == remap_type(d@.types[x], string_map@, type_map@.take(x))
            } by {
                if x < i {
                    assert(type_map@.take(x) =~= prev_map.take(x));
                    assert(out@.types[type_map@[x].0 as int] == before.types[type_map@[x].0 as int]);
                }
            }
        }
        i = i + 1;
    }
    Ok(type_map)
}

/// Interns every file of `d` into `out`, with its path remapped through `string_map`.
fn remap_files(out: &mut DebugInfo, d: &DebugInfo, forest_index: usize, string_map: &Vec<DebugStringIdx>) -> (r: Result<
    Vec<DebugFileIdx>,
    DebugInfoMergeError,
>)
    requires
        strings_mapped(old(out)@, d@, string_map@),
        old(out)@.files.len() + d@.files.len() < u32::MAX,
    ensures
        r is Ok <==> forall|i: int| 0 <= i < d@.files.len() ==> str_in(d@, (#[trigger] d@.files[i]).path_idx),
        r is Ok ==> first_error(d@.files.len(), file_errors(d@, forest_index)) is None,
        r matches Err(e) ==> Some(e) == first_error(d@.files.len(), file_errors(d@, forest_index)),
        r is Ok ==> changes_only(old(out)@, final(out)@, false, true, false, false, false, false, false, false),
        r is Ok ==> final(out)@.files.len() <= old(out)@.files.len() + d@.files.len(),
        r is Ok ==> (files_distinct(old(out)@.files) ==> files_distinct(final(out)@.files)),
        r matches Ok(fm) ==> files_mapped(final(out)@, d@, fm@),
{
    let ghost start = out@;
    let files = d.files();
    let mut file_map: Vec<DebugFileIdx> = Vec::new();
    let mut i: usize = 0;
    while i < files.len()
        invariant
            files@ == d@.files,
            strings_mapped(start, d@, string_map@),
            start.files.len() + d@.files.len() < u32::MAX,
            i <= files.len(),
            changes_only(start, out@, false, true, false, false, false, false, false, false),
            out@.files.len() <= start.files.len() + i,
            files_distinct(start.files) ==> files_distinct(out@.files),
            file_map@.len() == i,
            forall|x: int| 0 <= x < i ==> str_in(d@, (#[trigger] d@.files[x]).path_idx),
            first_error(i as nat, file_errors(d@, forest_index)) is None,
            forall|x: int| 0 <= x < i ==> same_file(out@, #[trigger] file_map@[x], d@, DebugFileIdx(x as u32)),
        decreases files.len() - i,
    {
        let file = files[i];
        if (file.path_idx.0 as usize) >= string_map.len() {
            proof {
                assert(first_error((i + 1) as nat, file_errors(d@, forest_index)) == Some(
                    DebugInfoMergeError::MissingSourceStringMapping { forest_index, string_idx: file.path_idx },
                ));
                lemma_first_error_stays((i + 1) as nat, d@.files.len(), file_errors(d@, forest_index));
            }
            return Err(DebugInfoMergeError::MissingSourceStringMapping { forest_index, string_idx: file.path_idx });
        }
        assert(file_errors(d@, forest_index)(i as int) is None);
        let path_idx = string_map[file.path_idx.0 as usize];
        let ghost before = out@;
        let idx = out.intern_file(DebugFileInfo::new(path_idx).with_checksum(file.checksum));
        proof {
            assert(same_str(start, path_idx, d@, DebugStringIdx(file.path_idx.0 as u32)));
            assert(out@.strings == start.strings);
            assert forall|x: int| 0 <= x < i + 1 implies same_file(out@, #[trigger] file_map@.push(idx)[x], d@, DebugFileIdx(x as u32)) by {
                if x < i {
                    lemma_same_file_extends(before, out@, file_map@[x], d@, DebugFileIdx(x as u32));
                }
            }
        }
        file_map.push(idx);
        i = i + 1;
    }
    Ok(file_map)
}

/// Interns every location of `d` into `out`, with its file remapped through `file_map`.
fn remap_locations(out: &mut DebugInfo, d: &DebugInfo, forest_index: usize, file_map: &Vec<DebugFileIdx>) -> (r: Result<
    Vec<DebugLocIdx>,
    DebugInfoMergeError,
>)
    requires
        files_mapped(old(out)@, d@, file_map@),
        old(out)@.locations.len() + d@.locations.len() < u32::MAX,
    ensures
        r is Ok <==> forall|i: int| 0 <= i < d@.locations.len() ==> (#[trigger] d@.locations[i]).file_idx.0 < d@.files.len(),
        r is Ok ==> first_error(d@.locations.len(), location_errors(d@, forest_index)) is None,
        r matches Err(e) ==> Some(e) == first_error(d@.locations.len(), location_errors(d@, forest_index)),
        r is Ok ==> changes_only(old(out)@, final(out)@, false, false, true, false, false, false, false, false),
        r is Ok ==> final(out)@.locations.len() <= old(out)@.locations.len() + d@.locations.len(),
        r is Ok ==> (old(out)@.locations.no_duplicates() ==> final(out)@.locations.no_duplicates()),
        r matches Ok(lm) ==> locations_mapped(final(out)@, d@, lm@),
{
    let ghost start = out@;
    let locations = d.locations();
    let mut loc_map: Vec<DebugLocIdx> = Vec::new();
    let mut i: usize = 0;
    while i < locations.len()
        invariant
            locations@ == d@.locations,
            files_mapped(start, d@, file_map@),
            start.locations.len() + d@.locations.len() < u32::MAX,
            i <= locations.len(),
            changes_only(start, out@, false, false, true, false, false, false, false, false),
            out@.locations.len() <= start.locations.len() + i,
            start.locations.no_duplicates() ==> out@.locations.no_duplicates(),
            loc_map@.len() == i,
            forall|x: int| 0 <= x < i ==> (#[trigger] d@.locations[x]).file_idx.0 < d@.files.len(),
            first_error(i as nat, location_errors(d@, forest_index)) is None,
            forall|x: int| 0 <= x < i ==> same_loc(out@, #[trigger] loc_map@[x], d@, DebugLocIdx(x as u32)),
        decreases locations.len() - i,
    {
        let loc = locations[i];
        if (loc.file_idx.0 as usize) >= file_map.len() {
            proof {
                assert(first_error((i + 1) as nat, location_errors(d@, forest_index)) == Some(
                    DebugInfoMergeError::MissingSourceFileMapping { forest_index, file_idx: loc.file_idx },
                ));
                lemma_first_error_stays((i + 1) as nat, d@.locations.len(), location_errors(d@, forest_index));
            }
            return Err(DebugInfoMergeError::MissingSourceFileMapping { forest_index, file_idx: loc.file_idx });
        }
        assert(location_errors(d@, forest_index)(i as int) is None);
        let file_idx = file_map[loc.file_idx.0 as usize];
        let ghost before = out@;
        let idx = out.intern_location(DebugLoc { file_idx, start: loc.start, end: loc.end });
        proof {
            assert(same_file(start, file_idx, d@, DebugFileIdx(loc.file_idx.0 as u32)));
            assert(out@.files == start.files && out@.strings == start.strings);
            assert forall|x: int| 0 <= x < i + 1 implies same_loc(out@, #[trigger] loc_map@.push(idx)[x], d@, DebugLocIdx(x as u32)) by {
                if x < i {
                    lemma_same_loc_extends(before, out@, loc_map@[x], d@, DebugLocIdx(x as u32));
                }
            }
        }
        loc_map.push(idx);
        i = i + 1;
    }
    Ok(loc_map)
}

/// Records every error message of `d` in `out`, with its string remapped through `string_map`.
fn remap_error_messages(out: &mut DebugInfo, d: &DebugInfo, forest_index: usize, string_map: &Vec<DebugStringIdx>) -> (r: Result<
    (),
    DebugInfoMergeError,
>)
    requires
        strings_mapped(old(out)@, d@, string_map@),
    ensures
        r is Ok <==> forall|i: int| 0 <= i < d@.error_messages.len() ==> str_in(d@, (#[trigger] d@.error_messages[i]).message),
        r is Ok ==> forall|x: int|
            #[trigger] is_first_message_for(d@, d@.error_messages[x].err_code, x) && !code_present(
                old(out)@,
                d@.error_messages[x].err_code,
            ) ==> message_carried(final(out)@, d@, x),
        r is Ok ==> forall|k: int|
            old(out)@.error_messages.len() <= k < final(out)@.error_messages.len() ==> code_present(
                d@,
                (#[trigger] final(out)@.error_messages[k]).err_code,
            ),
        r is Ok ==> first_error(d@.error_messages.len(), message_errors(d@, forest_index)) is None,
        r matches Err(e) ==> Some(e) == first_error(d@.error_messages.len(), message_errors(d@, forest_index)),
        r is Ok ==> changes_only(old(out)@, final(out)@, false, false, false, false, false, false, false, true),
        r is Ok ==> forall|x: int| 0 <= x < d@.error_messages.len() ==> code_present(final(out)@, (#[trigger] d@.error_messages[x]).err_code),
        r is Ok ==> final(out)@.error_messages.len() <= old(out)@.error_messages.len() + d@.error_messages.len(),
{
    let ghost start = out@;
    let messages = d.error_messages();
    let mut i: usize = 0;
    while i < messages.len()
        invariant
            messages@ == d@.error_messages,
            string_map.len() == d@.strings.len(),
            i <= messages.len(),
            changes_only(start, out@, false, false, false, false, false, false, false, true),
            forall|x: int| 0 <= x < i ==> str_in(d@, (#[trigger] d@.error_messages[x]).message),
            first_error(i as nat, message_errors(d@, forest_index)) is None,
            forall|x: int| 0 <= x < i ==> code_present(out@, (#[trigger] d@.error_messages[x]).err_code),
            out@.error_messages.len() <= start.error_messages.len() + i,
            strings_mapped(start, d@, string_map@),
            out@.strings == start.strings,
            forall|x: int|
                0 <= x < i && #[trigger] is_first_message_for(d@, d@.error_messages[x].err_code, x) && !code_present(
                    start,
                    d@.error_messages[x].err_code,
                ) ==> message_carried(out@, d@, x),
            forall|k: int|
                #![trigger out@.error_messages[k]]
                start.error_messages.len() <= k < out@.error_messages.len() ==> exists|x: int|
                    0 <= x < i && #[trigger] d@.error_messages[x].err_code == out@.error_messages[k].err_code,
        decreases messages.len() - i,
    {
        let row = messages[i];
        if (row.message.0 as usize) >= string_map.len() {
            proof {
                assert(d@.error_messages[i as int] == row);
                assert(first_error((i + 1) as nat, message_errors(d@, forest_index)) == Some(
                    DebugInfoMergeError::MissingSourceStringMapping { forest_index, string_idx: row.message },
                ));
                lemma_first_error_stays((i + 1) as nat, d@.error_messages.len(), message_errors(d@, forest_index));
            }
            return Err(DebugInfoMergeError::MissingSourceStringMapping { forest_index, string_idx: row.message });
        }
        assert(d@.error_messages[i as int] == row);
        assert(message_errors(d@, forest_index)(i as int) is None);
        let ghost before = out@;
        out.add_error_message(row.err_code, string_map[row.message.0 as usize]);
        proof {
            assert(d@.error_messages[i as int] == row);
            let c = row.err_code;
            assert forall|x: int|
                0 <= x < i + 1 && #[trigger] is_first_message_for(d@, d@.error_messages[x].err_code, x) && !code_present(
                    start,
                    d@.error_messages[x].err_code,
                ) implies message_carried(out@, d@, x) by {
                if x < i {
                    lemma_message_carried_extends(before, out@, d@, x);
                } else {
                    assert(!code_present(before, c)) by {
                        if code_present(before, c) {
                            let k = choose|k: int|
                                0 <= k < before.error_messages.len() && (#[trigger] before.error_messages[k]).err_code == c;
                            if k < start.error_messages.len() {
                                assert(start.error_messages[k] == before.error_messages[k]);
                            } else {
                                let y = choose|y: int|
                                    0 <= y < i && #[trigger] d@.error_messages[y].err_code == before.error_messages[k].err_code;
                                assert(d@.error_messages[y].err_code != c);
                            }
                        }
                    }
                    let k = before.error_messages.len() as int;
                    assert(out@.error_messages[k] == DebugErrorMessage { err_code: c, message: string_map@[row.message.0 as int] });
                    assert forall|j: int| 0 <= j < k implies out@.error_messages[j].err_code != c by {
                        assert(out@.error_messages[j] == before.error_messages[j]);
                    }
                    assert(is_first_message_for(out@, c, k));
                    assert(same_str(start, string_map@[row.message.0 as int], d@, DebugStringIdx(row.message.0 as u32)));
                }
            }
            assert forall|k: int|
                #![trigger out@.error_messages[k]]
                start.error_messages.len() <= k < out@.error_messages.len() implies exists|x: int|
                    0 <= x < i + 1 && #[trigger] d@.error_messages[x].err_code == out@.error_messages[k].err_code by {
                if k < before.error_messages.len() {
                    assert(out@.error_messages[k] == before.error_messages[k]);
                    let y = choose|y: int|
                        0 <= y < i && #[trigger] d@.error_messages[y].err_code == before.error_messages[k].err_code;
                    assert(d@.error_messages[y].err_code == out@.error_messages[k].err_code);
                } else {
                    assert(d@.error_messages[i as int].err_code == out@.error_messages[k].err_code);
                }
            }
            if !code_present(before, row.err_code) {
                assert(out@.error_messages[before.error_messages.len() as int].err_code == row.err_code);
            }
            assert forall|x: int| 0 <= x < i + 1 implies code_present(out@, (#[trigger] d@.error_messages[x]).err_code) by {
                if x < i {
                    let k = choose|k: int|
                        0 <= k < before.error_messages.len() && (#[trigger] before.error_messages[k]).err_code
                            == d@.error_messages[x].err_code;
                    assert(out@.error_messages[k] == before.error_messages[k]);
                }
            }
        }
        i = i + 1;
    }
    assert forall|k: int|
        start.error_messages.len() <= k < out@.error_messages.len() implies code_present(
            d@,
            (#[trigger] out@.error_messages[k]).err_code,
        ) by {
        let y = choose|y: int|
            0 <= y < i && #[trigger] d@.error_messages[y].err_code == out@.error_messages[k].err_code;
        assert(d@.error_messages[y].err_code == out@.error_messages[k].err_code);
    }
    Ok(())
}

fn remap_opt_loc(forest_index: usize, loc: Option<DebugLocIdx>, loc_map: &Vec<DebugLocIdx>) -> (r: Result<
    Option<DebugLocIdx>,
    DebugInfoMergeError,
>)
    ensures
        r is Ok <==> (loc matches Some(l) ==> l.0 < loc_map.len()),
        r matches Ok(o) ==> o == (match loc {
            Some(l) => Some(loc_map@[l.0 as int]),
            None => None,
        }),
        r matches Err(e) ==> Some(e) == loc_error(forest_index, loc, loc_map.len() as nat),
{
    match loc {
        Some(l) => {
            if (l.0 as usize) < loc_map.len() {
                Ok(Some(loc_map[l.0 as usize]))
            } else {
                Err(DebugInfoMergeError::MissingSourceLocationMapping { forest_index, location_idx: l })
            }
        },
        None => Ok(None),
    }
}

fn remap_string(forest_index: usize, s: DebugStringIdx, string_map: &Vec<DebugStringIdx>) -> (r: Result<
    DebugStringIdx,
    DebugInfoMergeError,
>)
    ensures
        r is Ok <==> s.0 < string_map.len(),
        r matches Ok(t) ==> t == string_map@[s.0 as int],
        r matches Err(e) ==> Some(e) == string_error(forest_index, s, string_map.len() as nat),
{
    if (s.0 as usize) < string_map.len() {
        Ok(string_map[s.0 as usize])
    } else {
        Err(DebugInfoMergeError::MissingSourceStringMapping { forest_index, string_idx: s })
    }
}

proof fn lemma_same_opt_loc(out: DebugInfoView, d: DebugInfoView, loc_map: Seq<DebugLocIdx>, l: Option<DebugLocIdx>)
    requires
        locations_mapped(out, d, loc_map),
        l matches Some(x) ==> x.0 < loc_map.len(),
    ensures
        same_opt_loc(out, match l {
            Some(x) => Some(loc_map[x.0 as int]),
            None => None,
        }, d, l),
{
    if let Some(x) = l {
        assert(same_loc(out, loc_map[x.0 as int], d, DebugLocIdx(x.0 as u32)));
    }
}

/// Remaps a node of `d` (except for its inline calls, which are left empty): its executable node
/// through the forest map, its children by `node_offset`, and its rows' strings and locations
/// through `string_map` and `loc_map`.
#[verifier::loop_isolation(false)]
fn remap_node(
    out: &DebugInfo,
    d: &DebugInfo,
    forest_index: usize,
    root_map: &MastForestRootMap,
    n: &SourceNode,
    string_map: &Vec<DebugStringIdx>,
    loc_map: &Vec<DebugLocIdx>,
    node_offset: u32,
) -> (r: Result<SourceNode, DebugInfoMergeError>)
    requires
        strings_mapped(out@, d@, string_map@),
        locations_mapped(out@, d@, loc_map@),
        node_offset + d@.nodes.len() < u32::MAX,
    ensures
        r is Ok <==> node_resolves(d@, forest_index, root_map@, n@),
        r is Ok ==> node_error(d@, forest_index, root_map@, n@) is None,
        r matches Err(e) ==> Some(e) == node_error(d@, forest_index, root_map@, n@),
        r matches Ok(p) ==> same_node_shape(out@, p@, d@, n@, forest_index, root_map@, node_offset as nat)
            && p@.inline_calls.len() == 0,
{
    let exec_node = match root_map.map_node(forest_index, &n.exec_node) {
        Some(e) => e,
        None => {
            return Err(DebugInfoMergeError::MissingExecNodeMapping { forest_index, exec_node: n.exec_node });
        },
    };
    let node_count = d.nodes().len();
    assert(node_count == d@.nodes.len());
    let mut children: Vec<DebugSourceNodeId> = Vec::new();
    let mut k: usize = 0;
    while k < n.children.len()
        invariant
            k <= n.children.len(),
            children@.len() == k,
            forall|j: int| 0 <= j < k ==> (#[trigger] n.children@[j]).0 < d@.nodes.len(),
            first_error(k as nat, child_errors(d@, forest_index, n@)) is None,
            forall|j: int| 0 <= j < k ==> (#[trigger] children@[j]).0 == n.children@[j].0 + node_offset,
        decreases n.children.len() - k,
    {
        let child = n.children[k];
        if (child.0 as usize) >= node_count {
            proof {
                let errs = child_errors(d@, forest_index, n@);
                assert(first_error((k + 1) as nat, errs) == Some(
                    DebugInfoMergeError::MissingSourceNodeMapping { forest_index, source_node: child },
                ));
                lemma_first_error_stays((k + 1) as nat, n@.children.len(), errs);
            }
            return Err(DebugInfoMergeError::MissingSourceNodeMapping { forest_index, source_node: child });
        }
        assert(child_errors(d@, forest_index, n@)(k as int) is None);
        children.push(DebugSourceNodeId(node_offset + child.0));
        k = k + 1;
    }

    let mut asm_ops: Vec<DebugSourceAsmOp> = Vec::new();
    let mut k: usize = 0;
    while k < n.asm_ops.len()
        invariant
            k <= n.asm_ops.len(),
            asm_ops@.len() == k,
            forall|j: int| 0 <= j < k ==> loc_opt_in(d@, (#[trigger] n.asm_ops@[j]).location_idx) && str_in(
                d@,
                n.asm_ops@[j].context_name_idx,
            ) && str_in(d@, n.asm_ops@[j].op_name_idx),
            forall|j: int| 0 <= j < k ==> same_asm_op(out@, #[trigger] asm_ops@[j], d@, n.asm_ops@[j]),
            first_error(n@.children.len(), child_errors(d@, forest_index, n@)) is None,
            first_error(k as nat, asm_op_errors(d@, forest_index, n@)) is None,
        decreases n.asm_ops.len() - k,
    {
        let row = n.asm_ops[k];
        assert(n@.asm_ops[k as int] == row);
        let ghost errs = asm_op_errors(d@, forest_index, n@);
        let location_idx = match remap_opt_loc(forest_index, row.location_idx, loc_map) {
            Ok(l) => l,
            Err(e) => {
                proof {
                    assert(first_error((k + 1) as nat, errs) == Some(e));
                    lemma_first_error_stays((k + 1) as nat, n@.asm_ops.len(), errs);
                }
                return Err(e);
            },
        };
        let context_name_idx = match remap_string(forest_index, row.context_name_idx, string_map) {
            Ok(s) => s,
            Err(e) => {
                proof {
                    assert(first_error((k + 1) as nat, errs) == Some(e));
                    lemma_first_error_stays((k + 1) as nat, n@.asm_ops.len(), errs);
                }
                return Err(e);
            },
        };
        let op_name_idx = match remap_string(forest_index, row.op_name_idx, string_map) {
            Ok(s) => s,
            Err(e) => {
                proof {
                    assert(first_error((k + 1) as nat, errs) == Some(e));
                    lemma_first_error_stays((k + 1) as nat, n@.asm_ops.len(), errs);
                }
                return Err(e);
            },
        };
        assert(errs(k as int) is None);
        proof {
            lemma_same_opt_loc(out@, d@, loc_map@, row.location_idx);
            assert(same_str(out@, context_name_idx, d@, DebugStringIdx(row.context_name_idx.0 as u32)));
            assert(same_str(out@, op_name_idx, d@, DebugStringIdx(row.op_name_idx.0 as u32)));
        }
        asm_ops.push(DebugSourceAsmOp {
            op_idx: row.op_idx,
            location_idx,
            context_name_idx,
            op_name_idx,
            num_cycles: row.num_cycles,
        });
        k = k + 1;
    }

    let mut debug_vars: Vec<DebugSourceVar> = Vec::new();
    let mut k: usize = 0;
    while k < n.debug_vars.len()
        invariant
            k <= n.debug_vars.len(),
            debug_vars@.len() == k,
            forall|j: int| 0 <= j < k ==> str_in(d@, (#[trigger] n.debug_vars@[j])@.name_idx) && loc_opt_in(
                d@,
                n.debug_vars@[j]@.location_idx,
            ),
            forall|j: int| 0 <= j < k ==> same_var(out@, (#[trigger] debug_vars@[j])@, d@, n.debug_vars@[j]@),
            first_error(n@.children.len(), child_errors(d@, forest_index, n@)) is None,
            first_error(n@.asm_ops.len(), asm_op_errors(d@, forest_index, n@)) is None,
            first_error(k as nat, var_errors(d@, forest_index, n@)) is None,
        decreases n.debug_vars.len() - k,
    {
        let row = &n.debug_vars[k];
        assert(n@.debug_vars[k as int] == n.debug_vars@[k as int]@);
        let ghost errs = var_errors(d@, forest_index, n@);
        let name_idx = match remap_string(forest_index, row.name_idx, string_map) {
            Ok(s) => s,
            Err(e) => {
                proof {
                    assert(first_error((k + 1) as nat, errs) == Some(e));
                    lemma_first_error_stays((k + 1) as nat, n@.debug_vars.len(), errs);
                }
                return Err(e);
            },
        };
        let location_idx = match remap_opt_loc(forest_index, row.location_idx, loc_map) {
            Ok(l) => l,
            Err(e) => {
                proof {
                    assert(first_error((k + 1) as nat, errs) == Some(e));
                    lemma_first_error_stays((k + 1) as nat, n@.debug_vars.len(), errs);
                }
                return Err(e);
            },
        };
        assert(errs(k as int) is None);
        proof {
            lemma_same_opt_loc(out@, d@, loc_map@, row.location_idx);
            assert(same_str(out@, name_idx, d@, DebugStringIdx(row.name_idx.0 as u32)));
        }
        debug_vars.push(DebugSourceVar {
            op_idx: row.op_idx,
            name_idx,
            type_id: row.type_id,
            arg_idx: row.arg_idx,
            location_idx,
            value_location: row.value_location.duplicate(),
        });
        k = k + 1;
    }
    let p = SourceNode {
        exec_node,
        children,
        op_start: n.op_start,
        op_end: n.op_end,
        asm_ops,
        debug_vars,
        inline_calls: Vec::new(),
    };
    proof {
        assert forall|j: int| 0 <= j < n@.children.len() implies (#[trigger] n@.children[j]).0 < d@.nodes.len() by {
            assert(n.children@[j] == n@.children[j]);
        }
        assert forall|j: int| 0 <= j < n@.debug_vars.len() implies str_in(d@, (#[trigger] n@.debug_vars[j]).name_idx)
            && loc_opt_in(d@, n@.debug_vars[j].location_idx) by {
            assert(n.debug_vars@[j]@ == n@.debug_vars[j]);
        }
        assert forall|j: int| 0 <= j < p@.debug_vars.len() implies same_var(out@, #[trigger] p@.debug_vars[j], d@, n@.debug_vars[j]) by {
            assert(p.debug_vars@[j]@ == p@.debug_vars[j]);
            assert(n.debug_vars@[j]@ == n@.debug_vars[j]);
        }
    }
    Ok(p)
}

/// Remaps every node of `d` (see [`remap_node`]), in order.
fn remap_nodes(
    out: &DebugInfo,
    d: &DebugInfo,
    forest_index: usize,
    root_map: &MastForestRootMap,
    string_map: &Vec<DebugStringIdx>,
    loc_map: &Vec<DebugLocIdx>,
    node_offset: u32,
) -> (r: Result<Vec<SourceNode>, DebugInfoMergeError>)
    requires
        strings_mapped(out@, d@, string_map@),
        locations_mapped(out@, d@, loc_map@),
        node_offset + d@.nodes.len() < u32::MAX,
    ensures
        r is Ok <==> forall|i: int| 0 <= i < d@.nodes.len() ==> node_resolves(d@, forest_index, root_map@, #[trigger] d@.nodes[i]),
        r is Ok ==> first_error(d@.nodes.len(), node_errors(d@, forest_index, root_map@)) is None,
        r matches Err(e) ==> Some(e) == first_error(d@.nodes.len(), node_errors(d@, forest_index, root_map@)),
        r matches Ok(ps) ==> ps@.len() == d@.nodes.len() && forall|i: int| 0 <= i < ps@.len() ==> {
            &&& same_node_shape(out@, (#[trigger] ps@[i])@, d@, d@.nodes[i], forest_index, root_map@, node_offset as nat)
            &&& ps@[i]@.inline_calls.len() == 0
        },
{
    let nodes = d.nodes();
    let mut pending: Vec<SourceNode> = Vec::new();
    let mut i: usize = 0;
    while i < nodes.len()
        invariant
            nodes@.map_values(|n: SourceNode| n@) == d@.nodes,
            strings_mapped(out@, d@, string_map@),
            locations_mapped(out@, d@, loc_map@),
            node_offset + d@.nodes.len() < u32::MAX,
            i <= nodes.len(),
            pending@.len() == i,
            forall|x: int| 0 <= x < i ==> node_resolves(d@, forest_index, root_map@, #[trigger] d@.nodes[x]),
            first_error(i as nat, node_errors(d@, forest_index, root_map@)) is None,
            forall|x: int| 0 <= x < i ==> {
                &&& same_node_shape(out@, (#[trigger] pending@[x])@, d@, d@.nodes[x], forest_index, root_map@, node_offset as nat)
                &&& pending@[x]@.inline_calls.len() == 0
            },
        decreases nodes.len() - i,
    {
        assert(d@.nodes[i as int] == nodes@[i as int]@);
        let p = match remap_node(out, d, forest_index, root_map, &nodes[i], string_map, loc_map, node_offset) {
            Ok(p) => p,
            Err(e) => {
                proof {
                    assert(first_error((i + 1) as nat, node_errors(d@, forest_index, root_map@)) == Some(e));
                    lemma_first_error_stays((i + 1) as nat, d@.nodes.len(), node_errors(d@, forest_index, root_map@));
                }
                return Err(e);
            },
        };
        assert(node_errors(d@, forest_index, root_map@)(i as int) is None);
        pending.push(p);
        i = i + 1;
    }
    Ok(pending)
}

/// The roots of `d`, moved by `node_offset`.
pub open spec fn moved_roots(roots: Seq<DebugSourceNodeId>, node_offset: nat) -> Seq<DebugSourceNodeId> {
    roots.map_values(|r: DebugSourceNodeId| DebugSourceNodeId((r.0 + node_offset) as u32))
}

/// Remaps every root of `d` by `node_offset`, in order.
fn remap_roots(d: &DebugInfo, forest_index: usize, node_offset: u32) -> (r: Result<
    Vec<DebugSourceNodeId>,
    DebugInfoMergeError,
>)
    requires
        node_offset + d@.nodes.len() < u32::MAX,
    ensures
        r is Ok <==> forall|i: int| 0 <= i < d@.roots.len() ==> (#[trigger] d@.roots[i]).0 < d@.nodes.len(),
        r is Ok ==> first_error(d@.roots.len(), root_errors(d@, forest_index)) is None,
        r matches Err(e) ==> Some(e) == first_error(d@.roots.len(), root_errors(d@, forest_index)),
        r matches Ok(rs) ==> rs@ == moved_roots(d@.roots, node_offset as nat),
{
    let roots = d.roots();
    let node_count = d.nodes().len();
    let mut out: Vec<DebugSourceNodeId> = Vec::new();
    let mut i: usize = 0;
    while i < roots.len()
        invariant
            roots@ == d@.roots,
            node_count == d@.nodes.len(),
            node_offset + d@.nodes.len() < u32::MAX,
            i <= roots.len(),
            out@ == moved_roots(d@.roots.take(i as int), node_offset as nat),
            forall|x: int| 0 <= x < i ==> (#[trigger] d@.roots[x]).0 < d@.nodes.len(),
            first_error(i as nat, root_errors(d@, forest_index)) is None,
        decreases roots.len() - i,
    {
        let root = roots[i];
        if (root.0 as usize) >= node_count {
            proof {
                assert(first_error((i + 1) as nat, root_errors(d@, forest_index)) == Some(
                    DebugInfoMergeError::MissingSourceNodeMapping { forest_index, source_node: root },
                ));
                lemma_first_error_stays((i + 1) as nat, d@.roots.len(), root_errors(d@, forest_index));
            }
            return Err(DebugInfoMergeError::MissingSourceNodeMapping { forest_index, source_node: root });
        }
        assert(root_errors(d@, forest_index)(i as int) is None);
        out.push(DebugSourceNodeId(node_offset + root.0));
        assert(out@ =~= moved_roots(d@.roots.take(i + 1), node_offset as nat));
        i = i + 1;
    }
    assert(d@.roots.take(i as int) =~= d@.roots);
    Ok(out)
}

/// Remaps one function row of `d`: its source node by `node_offset`, its strings, file and type
/// through the maps.
fn remap_function(
    out: &DebugInfo,
    d: &DebugInfo,
    forest_index: usize,
    function: FunctionInfo,
    string_map: &Vec<DebugStringIdx>,
    file_map: &Vec<DebugFileIdx>,
    type_map: &Vec<DebugTypeIdx>,
    node_offset: u32,
) -> (r: Result<FunctionInfo, DebugInfoMergeError>)
    requires
        strings_mapped(out@, d@, string_map@),
        files_mapped(out@, d@, file_map@),
        type_map.len() == d@.types.len(),
        node_offset + d@.nodes.len() < u32::MAX,
    ensures
        r is Ok <==> function_resolves(d@, function),
        r is Ok ==> function_error(d@, forest_index, function) is None,
        r matches Err(e) ==> Some(e) == function_error(d@, forest_index, function),
        r matches Ok(row) ==> same_function_row(out@, row, d@, function, node_offset as nat),
        r matches Ok(row) ==> row.type_idx == (match function.type_idx {
            Some(t) => Some(type_map@[t.0 as int]),
            None => None,
        }),
{
    let node_count = d.nodes().len();
    let source_node = match function.source_node {
        Some(id) => {
            if (id.0 as usize) >= node_count {
                return Err(DebugInfoMergeError::MissingSourceNodeMapping { forest_index, source_node: id });
            }
            Some(DebugSourceNodeId(node_offset + id.0))
        },
        None => None,
    };
    let name_idx = remap_string(forest_index, function.name_idx, string_map)?;
    let linkage_name_idx = match function.linkage_name_idx {
        Some(l) => Some(remap_string(forest_index, l, string_map)?),
        None => None,
    };
    if (function.file_idx.0 as usize) >= file_map.len() {
        return Err(DebugInfoMergeError::MissingSourceFileMapping { forest_index, file_idx: function.file_idx });
    }
    let file_idx = file_map[function.file_idx.0 as usize];
    let type_idx = remap_opt_type_idx(forest_index, function.type_idx, type_map)?;
    let row = FunctionInfo {
        source_node,
        name_idx,
        linkage_name_idx,
        file_idx,
        line: function.line,
        column: function.column,
        type_idx,
        mast_root: function.mast_root,
    };
    proof {
        assert(same_str(out@, name_idx, d@, DebugStringIdx(function.name_idx.0 as u32)));
        if let Some(l) = function.linkage_name_idx {
            assert(same_str(out@, string_map@[l.0 as int], d@, DebugStringIdx(l.0 as u32)));
        }
        assert(same_file(out@, file_idx, d@, DebugFileIdx(function.file_idx.0 as u32)));
    }
    Ok(row)
}

/// Remaps every function row of `d` (see [`remap_function`]), in order.
fn remap_functions(
    out: &DebugInfo,
    d: &DebugInfo,
    forest_index: usize,
    string_map: &Vec<DebugStringIdx>,
    file_map: &Vec<DebugFileIdx>,
    type_map: &Vec<DebugTypeIdx>,
    node_offset: u32,
) -> (r: Result<Vec<FunctionInfo>, DebugInfoMergeError>)
    requires
        strings_mapped(out@, d@, string_map@),
        files_mapped(out@, d@, file_map@),
        type_map.len() == d@.types.len(),
        node_offset + d@.nodes.len() < u32::MAX,
    ensures
        r is Ok <==> forall|i: int| 0 <= i < d@.functions.len() ==> function_resolves(d@, #[trigger] d@.functions[i]),
        r is Ok ==> first_error(d@.functions.len(), function_errors(d@, forest_index)) is None,
        r matches Err(e) ==> Some(e) == first_error(d@.functions.len(), function_errors(d@, forest_index)),
        r matches Ok(fs) ==> fs@.len() == d@.functions.len() && forall|x: int| 0 <= x < fs@.len() ==> same_function_row(
            out@,
            #[trigger] fs@[x],
            d@,
            d@.functions[x],
            node_offset as nat,
        ),
        r matches Ok(fs) ==> forall|x: int| 0 <= x < fs@.len() ==> (#[trigger] fs@[x]).type_idx == (match d@.functions[x].type_idx {
            Some(t) => Some(type_map@[t.0 as int]),
            None => None,
        }),
{
    let functions = d.functions();
    let mut fs: Vec<FunctionInfo> = Vec::new();
    let mut i: usize = 0;
    while i < functions.len()
        invariant
            functions@ == d@.functions,
            strings_mapped(out@, d@, string_map@),
            files_mapped(out@, d@, file_map@),
            type_map.len() == d@.types.len(),
            node_offset + d@.nodes.len() < u32::MAX,
            i <= functions.len(),
            fs@.len() == i,
            forall|x: int| 0 <= x < i ==> function_resolves(d@, #[trigger] d@.functions[x]),
            first_error(i as nat, function_errors(d@, forest_index)) is None,
            forall|x: int| 0 <= x < i ==> same_function_row(out@, #[trigger] fs@[x], d@, d@.functions[x], node_offset as nat),
            forall|x: int| 0 <= x < i ==> (#[trigger] fs@[x]).type_idx == (match d@.functions[x].type_idx {
                Some(t) => Some(type_map@[t.0 as int]),
                None => None,
            }),
        decreases functions.len() - i,
    {
        let function = functions[i];
        let row = match remap_function(out, d, forest_index, function, string_map, file_map, type_map, node_offset) {
            Ok(row) => row,
            Err(e) => {
                proof {
                    assert(first_error((i + 1) as nat, function_errors(d@, forest_index)) == Some(e));
                    lemma_first_error_stays((i + 1) as nat, d@.functions.len(), function_errors(d@, forest_index));
                }
                return Err(e);
            },
        };
        assert(function_errors(d@, forest_index)(i as int) is None);
        fs.push(row);
        i = i + 1;
    }
    Ok(fs)
}

/// The inline-call rows of a node, remapped: callee by `function_offset`, location through
/// `loc_map`.
pub open spec fn moved_inline_calls(rows: Seq<DebugSourceInlineCall>, function_offset: nat, loc_map: Seq<DebugLocIdx>) -> Seq<DebugSourceInlineCall> {
    rows.map_values(|r: DebugSourceInlineCall| DebugSourceInlineCall {
        op_idx: r.op_idx,
        callee_idx: DebugFunctionIdx((r.callee_idx.0 + function_offset) as u32),
        loc_idx: loc_map[r.loc_idx.0 as int],
    })
}

/// Gives each pending node its inline-call rows, remapped (see [`moved_inline_calls`]).
fn attach_inline_calls(
    pending: Vec<SourceNode>,
    d: &DebugInfo,
    forest_index: usize,
    loc_map: &Vec<DebugLocIdx>,
    function_offset: u32,
) -> (r: Result<Vec<SourceNode>, DebugInfoMergeError>)
    requires
        pending@.len() == d@.nodes.len(),
        loc_map.len() == d@.locations.len(),
        function_offset + d@.functions.len() < u32::MAX,
    ensures
        r is Ok <==> forall|i: int, k: int|
            0 <= i < d@.nodes.len() && 0 <= k < d@.nodes[i].inline_calls.len() ==> (#[trigger] d@.nodes[i].inline_calls[k]).callee_idx.0
                < d@.functions.len() && d@.nodes[i].inline_calls[k].loc_idx.0 < d@.locations.len(),
        r is Ok ==> first_error(d@.nodes.len(), node_inline_errors(d@, forest_index)) is None,
        r matches Err(e) ==> Some(e) == first_error(d@.nodes.len(), node_inline_errors(d@, forest_index)),
        r matches Ok(ns) ==> ns@.len() == pending@.len() && forall|i: int| 0 <= i < ns@.len() ==> {
            &&& (#[trigger] ns@[i])@.exec_node == pending@[i]@.exec_node
            &&& ns@[i]@.children == pending@[i]@.children
            &&& ns@[i]@.op_start == pending@[i]@.op_start
            &&& ns@[i]@.op_end == pending@[i]@.op_end
            &&& ns@[i]@.asm_ops == pending@[i]@.asm_ops
            &&& ns@[i]@.debug_vars == pending@[i]@.debug_vars
            &&& ns@[i]@.inline_calls == moved_inline_calls(d@.nodes[i].inline_calls, function_offset as nat, loc_map@)
        },
{
    let nodes = d.nodes();
    let function_count = d.functions().len();
    let mut done: Vec<SourceNode> = Vec::new();
    let mut i: usize = 0;
    while i < nodes.len()
        invariant
            nodes@.map_values(|n: SourceNode| n@) == d@.nodes,
            function_count == d@.functions.len(),
            pending@.len() == d@.nodes.len(),
            loc_map.len() == d@.locations.len(),
            function_offset + d@.functions.len() < u32::MAX,
            i <= nodes.len(),
            done@.len() == i,
            first_error(i as nat, node_inline_errors(d@, forest_index)) is None,
            forall|x: int, k: int|
                0 <= x < i && 0 <= k < d@.nodes[x].inline_calls.len() ==> (#[trigger] d@.nodes[x].inline_calls[k]).callee_idx.0
                    < d@.functions.len() && d@.nodes[x].inline_calls[k].loc_idx.0 < d@.locations.len(),
            forall|x: int| 0 <= x < i ==> {
                &&& (#[trigger] done@[x])@.exec_node == pending@[x]@.exec_node
                &&& done@[x]@.children == pending@[x]@.children
                &&& done@[x]@.op_start == pending@[x]@.op_start
                &&& done@[x]@.op_end == pending@[x]@.op_end
                &&& done@[x]@.asm_ops == pending@[x]@.asm_ops
                &&& done@[x]@.debug_vars == pending@[x]@.debug_vars
                &&& done@[x]@.inline_calls == moved_inline_calls(d@.nodes[x].inline_calls, function_offset as nat, loc_map@)
            },
        decreases nodes.len() - i,
    {
        let rows = &nodes[i].inline_calls;
        assert(rows@ == d@.nodes[i as int].inline_calls);
        let mut calls: Vec<DebugSourceInlineCall> = Vec::new();
        let mut k: usize = 0;
        while k < rows.len()
            invariant
                i < d@.nodes.len(),
                rows@ == d@.nodes[i as int].inline_calls,
                function_count == d@.functions.len(),
                loc_map.len() == d@.locations.len(),
                function_offset + d@.functions.len() < u32::MAX,
                k <= rows.len(),
                calls@ == moved_inline_calls(rows@.take(k as int), function_offset as nat, loc_map@),
                forall|j: int| 0 <= j < k ==> (#[trigger] rows@[j]).callee_idx.0 < d@.functions.len() && rows@[j].loc_idx.0
                    < d@.locations.len(),
                first_error(i as nat, node_inline_errors(d@, forest_index)) is None,
                first_error(k as nat, inline_call_errors(d@, forest_index, d@.nodes[i as int])) is None,
            decreases rows.len() - k,
        {
            let row = rows[k];
            assert(d@.nodes[i as int].inline_calls[k as int] == row);
            let ghost errs = inline_call_errors(d@, forest_index, d@.nodes[i as int]);
            let ghost outer = node_inline_errors(d@, forest_index);
            if (row.callee_idx.0 as usize) >= function_count {
                let e = DebugInfoMergeError::MissingFunctionMapping { forest_index, function_idx: row.callee_idx };
                proof {
                    assert(first_error((k + 1) as nat, errs) == Some(e));
                    lemma_first_error_stays((k + 1) as nat, rows@.len(), errs);
                    assert(outer(i as int) == Some(e));
                    assert(first_error((i + 1) as nat, outer) == Some(e));
                    lemma_first_error_stays((i + 1) as nat, d@.nodes.len(), outer);
                }
                return Err(e);
            }
            if (row.loc_idx.0 as usize) >= loc_map.len() {
                let e = DebugInfoMergeError::MissingSourceLocationMapping { forest_index, location_idx: row.loc_idx };
                proof {
                    assert(first_error((k + 1) as nat, errs) == Some(e));
                    lemma_first_error_stays((k + 1) as nat, rows@.len(), errs);
                    assert(outer(i as int) == Some(e));
                    assert(first_error((i + 1) as nat, outer) == Some(e));
                    lemma_first_error_stays((i + 1) as nat, d@.nodes.len(), outer);
                }
                return Err(e);
            }
            assert(errs(k as int) is None);
            calls.push(DebugSourceInlineCall {
                op_idx: row.op_idx,
                callee_idx: DebugFunctionIdx(function_offset + row.callee_idx.0),
                loc_idx: loc_map[row.loc_idx.0 as usize],
            });
            assert(calls@ =~= moved_inline_calls(rows@.take(k + 1), function_offset as nat, loc_map@));
            k = k + 1;
        }
        assert(rows@.take(k as int) =~= rows@);
        assert(node_inline_errors(d@, forest_index)(i as int) is None);
        let p = &pending[i];
        let mut vars: Vec<DebugSourceVar> = Vec::new();
        let mut v: usize = 0;
        while v < p.debug_vars.len()
            invariant
                v <= p.debug_vars.len(),
                vars@.len() == v,
                forall|j: int| 0 <= j < v ==> (#[trigger] vars@[j])@ == p.debug_vars@[j]@,
            decreases p.debug_vars.len() - v,
        {
            vars.push(p.debug_vars[v].duplicate());
            v = v + 1;
        }
        let node = SourceNode {
            exec_node: p.exec_node,
            children: p.children.clone(),
            op_start: p.op_start,
            op_end: p.op_end,
            asm_ops: p.asm_ops.clone(),
            debug_vars: vars,
            inline_calls: calls,
        };
        proof {
            assert(node@.children =~= pending@[i as int]@.children);
            assert(node@.asm_ops =~= pending@[i as int]@.asm_ops);
            assert(node@.debug_vars =~= pending@[i as int]@.debug_vars);
            assert forall|x: int, k: int|
                0 <= x < i + 1 && 0 <= k < d@.nodes[x].inline_calls.len() implies (#[trigger] d@.nodes[x].inline_calls[k]).callee_idx.0
                    < d@.functions.len() && d@.nodes[x].inline_calls[k].loc_idx.0 < d@.locations.len() by {
                if x == i {
                    assert(rows@[k] == d@.nodes[x].inline_calls[k]);
                }
            }
        }
        done.push(node);
        i = i + 1;
    }
    Ok(done)
}

// PERSISTENCE UNDER EXTENSION
// ================================================================================================

proof fn lemma_same_opt_loc_extends(out: DebugInfoView, out2: DebugInfoView, a: Option<DebugLocIdx>, d: DebugInfoView, b: Option<DebugLocIdx>)
    requires
        extends(out, out2),
        same_opt_loc(out, a, d, b),
    ensures
        same_opt_loc(out2, a, d, b),
{
    if let (Some(x), Some(y)) = (a, b) {
        lemma_same_loc_extends(out, out2, x, d, y);
    }
}

proof fn lemma_same_function_row_extends(out: DebugInfoView, out2: DebugInfoView, x: FunctionInfo, d: DebugInfoView, y: FunctionInfo, node_offset: nat)
    requires
        extends(out, out2),
        same_function_row(out, x, d, y, node_offset),
    ensures
        same_function_row(out2, x, d, y, node_offset),
{
    lemma_same_str_extends(out, out2, x.name_idx, d, y.name_idx);
    if let (Some(s), Some(t)) = (x.linkage_name_idx, y.linkage_name_idx) {
        lemma_same_str_extends(out, out2, s, d, t);
    }
    lemma_same_file_extends(out, out2, x.file_idx, d, y.file_idx);
}

proof fn lemma_same_node_shape_extends(
    out: DebugInfoView,
    out2: DebugInfoView,
    o: SourceNodeView,
    d: DebugInfoView,
    n: SourceNodeView,
    forest_index: usize,
    m: Seq<Seq<Option<MastNodeId>>>,
    node_offset: nat,
)
    requires
        extends(out, out2),
        same_node_shape(out, o, d, n, forest_index, m, node_offset),
    ensures
        same_node_shape(out2, o, d, n, forest_index, m, node_offset),
{
    assert forall|k: int| 0 <= k < o.asm_ops.len() implies same_asm_op(out2, #[trigger] o.asm_ops[k], d, n.asm_ops[k]) by {
        assert(same_asm_op(out, o.asm_ops[k], d, n.asm_ops[k]));
        lemma_same_opt_loc_extends(out, out2, o.asm_ops[k].location_idx, d, n.asm_ops[k].location_idx);
        lemma_same_str_extends(out, out2, o.asm_ops[k].context_name_idx, d, n.asm_ops[k].context_name_idx);
        lemma_same_str_extends(out, out2, o.asm_ops[k].op_name_idx, d, n.asm_ops[k].op_name_idx);
    }
    assert forall|k: int| 0 <= k < o.debug_vars.len() implies same_var(out2, #[trigger] o.debug_vars[k], d, n.debug_vars[k]) by {
        assert(same_var(out, o.debug_vars[k], d, n.debug_vars[k]));
        lemma_same_opt_loc_extends(out, out2, o.debug_vars[k].location_idx, d, n.debug_vars[k].location_idx);
        lemma_same_str_extends(out, out2, o.debug_vars[k].name_idx, d, n.debug_vars[k].name_idx);
    }
}

proof fn lemma_same_node_extends(
    out: DebugInfoView,
    out2: DebugInfoView,
    o: SourceNodeView,
    d: DebugInfoView,
    n: SourceNodeView,
    forest_index: usize,
    m: Seq<Seq<Option<MastNodeId>>>,
    node_offset: nat,
)
    requires
        extends(out, out2),
        same_node(out, o, d, n, forest_index, m, node_offset),
    ensures
        same_node(out2, o, d, n, forest_index, m, node_offset),
{
    lemma_same_node_shape_extends(out, out2, o, d, n, forest_index, m, node_offset);
    assert forall|k: int| 0 <= k < o.inline_calls.len() implies same_inline_call(out2, #[trigger] o.inline_calls[k], d, n.inline_calls[k], node_offset) by {
        let (x, y) = (o.inline_calls[k], n.inline_calls[k]);
        assert(same_inline_call(out, x, d, y, node_offset));
        assert(out2.functions[x.callee_idx.0 as int] == out.functions[x.callee_idx.0 as int]);
        lemma_same_function_row_extends(out, out2, out.functions[x.callee_idx.0 as int], d, d.functions[y.callee_idx.0 as int], node_offset);
        lemma_same_loc_extends(out, out2, x.loc_idx, d, y.loc_idx);
    }
}

proof fn lemma_strings_mapped_extends(out: DebugInfoView, out2: DebugInfoView, d: DebugInfoView, map: Seq<DebugStringIdx>)
    requires
        extends(out, out2),
        strings_mapped(out, d, map),
    ensures
        strings_mapped(out2, d, map),
{
    assert forall|x: int| 0 <= x < map.len() implies same_str(out2, #[trigger] map[x], d, DebugStringIdx(x as u32)) by {
        lemma_same_str_extends(out, out2, map[x], d, DebugStringIdx(x as u32));
    }
}

proof fn lemma_same_type_row_extends(out: DebugInfoView, out2: DebugInfoView, o: DebugTypeInfoView, d: DebugInfoView, t: DebugTypeInfoView, type_offset: nat)
    requires
        extends(out, out2),
        same_type_row(out, o, d, t, type_offset),
    ensures
        same_type_row(out2, o, d, t, type_offset),
{
    match (o, t) {
        (DebugTypeInfoView::Struct { name_idx: na, fields: fa, .. }, DebugTypeInfoView::Struct { name_idx: nb, fields: fb, .. }) => {
            lemma_same_str_extends(out, out2, na, d, nb);
            assert forall|k: int| 0 <= k < fa.len() implies same_str(out2, (#[trigger] fa[k]).name_idx, d, fb[k].name_idx) by {
                lemma_same_str_extends(out, out2, fa[k].name_idx, d, fb[k].name_idx);
            }
        },
        (DebugTypeInfoView::Enum { name_idx: na, variants: va, .. }, DebugTypeInfoView::Enum { name_idx: nb, variants: vb, .. }) => {
            lemma_same_str_extends(out, out2, na, d, nb);
            assert forall|k: int| 0 <= k < va.len() implies same_str(out2, (#[trigger] va[k]).name_idx, d, vb[k].name_idx) by {
                lemma_same_str_extends(out, out2, va[k].name_idx, d, vb[k].name_idx);
            }
        },
        _ => {},
    }
}

/// A type row of `d` whose references resolve, remapped with strings of equal contents and with
/// its type indices moved by `type_offset`, describes that row.
proof fn lemma_remap_type_describes(out: DebugInfoView, d: DebugInfoView, t: DebugTypeInfoView, smap: Seq<DebugStringIdx>, x: int, type_offset: nat)
    requires
        0 <= x,
        type_offset + x < u32::MAX,
        strings_mapped(out, d, smap),
        type_resolves(d, t, x),
    ensures
        same_type_row(out, remap_type(t, smap, shifted_types(type_offset, x)), d, t, type_offset),
{
    let o = remap_type(t, smap, shifted_types(type_offset, x));
    match t {
        DebugTypeInfoView::Struct { name_idx, fields, .. } => {
            assert(same_str(out, smap[name_idx.0 as int], d, DebugStringIdx(name_idx.0 as u32)));
            if let DebugTypeInfoView::Struct { fields: fa, .. } = o {
                assert forall|k: int| 0 <= k < fa.len() implies {
                    &&& same_str(out, (#[trigger] fa[k]).name_idx, d, fields[k].name_idx)
                    &&& fa[k].type_idx.0 == fields[k].type_idx.0 + type_offset
                    &&& fa[k].offset == fields[k].offset
                } by {
                    let f = fields[k];
                    assert(fa[k] == DebugFieldInfo {
                        name_idx: smap[f.name_idx.0 as int],
                        type_idx: shifted_types(type_offset, x)[f.type_idx.0 as int],
                        offset: f.offset,
                    });
                    assert(fields[k].name_idx.0 < d.strings.len());
                    assert(same_str(out, smap[fields[k].name_idx.0 as int], d, DebugStringIdx(fields[k].name_idx.0 as u32)));
                }
            }
        },
        DebugTypeInfoView::Function { return_type_idx, param_type_indices } => {
            if let DebugTypeInfoView::Function { param_type_indices: pa, .. } = o {
                assert forall|k: int| 0 <= k < pa.len() implies (#[trigger] pa[k]).0 == param_type_indices[k].0 + type_offset by {
                    assert(param_type_indices[k].0 < x);
                    assert(pa[k] == shifted_types(type_offset, x)[param_type_indices[k].0 as int]);
                }
            }
        },
        DebugTypeInfoView::Enum { name_idx, variants, .. } => {
            assert(same_str(out, smap[name_idx.0 as int], d, DebugStringIdx(name_idx.0 as u32)));
            if let DebugTypeInfoView::Enum { variants: va, .. } = o {
                assert forall|k: int| 0 <= k < va.len() implies {
                    &&& same_str(out, (#[trigger] va[k]).name_idx, d, variants[k].name_idx)
                    &&& moved_type_ref(va[k].type_idx, variants[k].type_idx, type_offset)
                    &&& va[k].payload_offset == variants[k].payload_offset
                    &&& va[k].discriminant == variants[k].discriminant
                } by {
                    let v = variants[k];
                    assert(va[k] == DebugVariantInfo {
                        name_idx: smap[v.name_idx.0 as int],
                        type_idx: match v.type_idx {
                            Some(t) => Some(shifted_types(type_offset, x)[t.0 as int]),
                            None => None,
                        },
                        payload_offset: v.payload_offset,
                        discriminant: v.discriminant,
                    });
                    assert(variants[k].name_idx.0 < d.strings.len());
                    assert(same_str(out, smap[variants[k].name_idx.0 as int], d, DebugStringIdx(variants[k].name_idx.0 as u32)));
                }
            }
        },
        _ => {},
    }
}

proof fn lemma_message_carried_extends(out: DebugInfoView, out2: DebugInfoView, d: DebugInfoView, x: int)
    requires
        extends(out, out2),
        message_carried(out, d, x),
    ensures
        message_carried(out2, d, x),
{
    let c = d.error_messages[x].err_code;
    let k = choose|k: int|
        #[trigger] is_first_message_for(out, c, k) && same_str(out, out.error_messages[k].message, d, d.error_messages[x].message);
    assert forall|i: int| 0 <= i <= k implies out2.error_messages[i] == out.error_messages[i] by {}
    assert(is_first_message_for(out2, c, k));
    lemma_same_str_extends(out, out2, out.error_messages[k].message, d, d.error_messages[x].message);
}

/// What [`input_merged`] says of a debug info stays true when rows are added to its tables.
pub proof fn lemma_input_merged_extends(
    out: DebugInfoView,
    out2: DebugInfoView,
    d: DebugInfoView,
    forest_index: usize,
    m: Seq<Seq<Option<MastNodeId>>>,
    node_offset: nat,
    function_offset: nat,
    type_offset: nat,
)
    requires
        extends(out, out2),
        input_merged(out, d, forest_index, m, node_offset, function_offset, type_offset),
    ensures
        input_merged(out2, d, forest_index, m, node_offset, function_offset, type_offset),
{
    let string_map = choose|string_map: Seq<DebugStringIdx>|
        strings_mapped(out, d, string_map) && forall|x: int|
            0 <= x < d.types.len() ==> out.types[type_offset + x] == remap_type(
                #[trigger] d.types[x],
                string_map,
                shifted_types(type_offset, x),
            );
    lemma_strings_mapped_extends(out, out2, d, string_map);
    assert forall|x: int| 0 <= x < d.types.len() implies out2.types[type_offset + x] == remap_type(
        #[trigger] d.types[x],
        string_map,
        shifted_types(type_offset, x),
    ) by {
        assert(out2.types[type_offset + x] == out.types[type_offset + x]);
    }
    assert forall|x: int| 0 <= x < d.types.len() implies same_type_row(out2, out2.types[type_offset + x], d, #[trigger] d.types[x], type_offset) by {
        assert(out2.types[type_offset + x] == out.types[type_offset + x]);
        lemma_same_type_row_extends(out, out2, out.types[type_offset + x], d, d.types[x], type_offset);
    }
    assert forall|x: int| 0 <= x < d.strings.len() implies out2.strings.contains(#[trigger] d.strings[x]) by {
        let k = choose|k: int| 0 <= k < out.strings.len() && out.strings[k] == d.strings[x];
        assert(out2.strings[k] == out.strings[k]);
    }
    assert forall|x: int| 0 <= x < d.files.len() implies #[trigger] file_present(out2, d, x) by {
        assert(file_present(out, d, x));
        let a = choose|a: DebugFileIdx| #[trigger] same_file(out, a, d, DebugFileIdx(x as u32));
        lemma_same_file_extends(out, out2, a, d, DebugFileIdx(x as u32));
    }
    assert forall|x: int| 0 <= x < d.locations.len() implies #[trigger] loc_present(out2, d, x) by {
        assert(loc_present(out, d, x));
        let a = choose|a: DebugLocIdx| #[trigger] same_loc(out, a, d, DebugLocIdx(x as u32));
        lemma_same_loc_extends(out, out2, a, d, DebugLocIdx(x as u32));
    }
    assert forall|x: int| 0 <= x < d.error_messages.len() implies code_present(out2, (#[trigger] d.error_messages[x]).err_code) by {
        let k = choose|k: int|
            0 <= k < out.error_messages.len() && (#[trigger] out.error_messages[k]).err_code == d.error_messages[x].err_code;
        assert(out2.error_messages[k] == out.error_messages[k]);
    }
    assert forall|x: int| 0 <= x < d.functions.len() implies same_function_row(
        out2,
        out2.functions[function_offset + x],
        d,
        #[trigger] d.functions[x],
        node_offset,
    ) && moved_type_ref(out2.functions[function_offset + x].type_idx, d.functions[x].type_idx, type_offset) by {
        assert(out2.functions[function_offset + x] == out.functions[function_offset + x]);
        lemma_same_function_row_extends(out, out2, out.functions[function_offset + x], d, d.functions[x], node_offset);
    }
    assert forall|i: int| 0 <= i < d.nodes.len() implies same_node(out2, #[trigger] out2.nodes[node_offset + i], d, d.nodes[i], forest_index, m, node_offset) by {
        assert(out2.nodes[node_offset + i] == out.nodes[node_offset + i]);
        lemma_same_node_extends(out, out2, out.nodes[node_offset + i], d, d.nodes[i], forest_index, m, node_offset);
    }
}

// ONE INPUT
// ================================================================================================

/// The tables of `out` have room for the rows of `d`: every index stays below `u32::MAX`.
pub open spec fn merge_fits(out: DebugInfoView, d: DebugInfoView) -> bool {
    &&& out.strings.len() + d.strings.len() < u32::MAX
    &&& out.files.len() + d.files.len() < u32::MAX
    &&& out.locations.len() + d.locations.len() < u32::MAX
    &&& out.types.len() + d.types.len() < u32::MAX
    &&& out.functions.len() + d.functions.len() < u32::MAX
    &&& out.nodes.len() + d.nodes.len() < u32::MAX
}

/// `new` is `old` with the debug info `d` of forest `forest_index` merged in: every table of `old`
/// kept as a prefix, the types, functions and nodes of `d` appended, the roots of `d` appended
/// moved past the nodes of `old`, and everything of `d` described by `new` (see
/// [`input_merged`]).
pub open spec fn merged_one(
    old: DebugInfoView,
    new: DebugInfoView,
    d: DebugInfoView,
    forest_index: usize,
    m: Seq<Seq<Option<MastNodeId>>>,
) -> bool {
    &&& extends(old, new)
    &&& new.strings.len() <= old.strings.len() + d.strings.len()
    &&& new.files.len() <= old.files.len() + d.files.len()
    &&& new.locations.len() <= old.locations.len() + d.locations.len()
    &&& new.types.len() == old.types.len() + d.types.len()
    &&& old.locations.no_duplicates() ==> new.locations.no_duplicates()
    &&& files_distinct(old.files) ==> files_distinct(new.files)
    &&& new.error_messages.len() <= old.error_messages.len() + d.error_messages.len()
    &&& new.functions.len() == old.functions.len() + d.functions.len()
    &&& new.nodes.len() == old.nodes.len() + d.nodes.len()
    &&& new.roots == old.roots + moved_roots(d.roots, old.nodes.len())
    &&& input_merged(new, d, forest_index, m, old.nodes.len(), old.functions.len(), old.types.len())
    &&& forall|x: int|
        #[trigger] is_first_message_for(d, d.error_messages[x].err_code, x) && !code_present(old, d.error_messages[x].err_code)
            ==> message_carried(new, d, x)
    &&& forall|k: int|
        old.error_messages.len() <= k < new.error_messages.len() ==> code_present(d, (#[trigger] new.error_messages[k]).err_code)
}

proof fn lemma_commit(
    mid: DebugInfoView,
    fin: DebugInfoView,
    d: DebugInfoView,
    forest_index: usize,
    m: Seq<Seq<Option<MastNodeId>>>,
    string_map: Seq<DebugStringIdx>,
    file_map: Seq<DebugFileIdx>,
    loc_map: Seq<DebugLocIdx>,
    pending: Seq<SourceNodeView>,
    fs: Seq<FunctionInfo>,
    type_offset: nat,
)
    requires
        extends(mid, fin),
        type_offset + d.types.len() <= mid.types.len(),
        type_offset + d.types.len() < u32::MAX,
        forall|x: int|
            0 <= x < d.types.len() ==> mid.types[type_offset + x] == remap_type(
                #[trigger] d.types[x],
                string_map,
                shifted_types(type_offset, x),
            ),
        d.strings.len() < u32::MAX,
        d.files.len() < u32::MAX,
        d.locations.len() < u32::MAX,
        mid.functions.len() + d.functions.len() < u32::MAX,
        strings_mapped(mid, d, string_map),
        files_mapped(mid, d, file_map),
        locations_mapped(mid, d, loc_map),
        forall|x: int| 0 <= x < d.error_messages.len() ==> code_present(mid, (#[trigger] d.error_messages[x]).err_code),
        resolves(d, forest_index, m),
        fs.len() == d.functions.len(),
        forall|x: int| 0 <= x < fs.len() ==> same_function_row(mid, #[trigger] fs[x], d, d.functions[x], mid.nodes.len()),
        forall|x: int| 0 <= x < fs.len() ==> moved_type_ref((#[trigger] fs[x]).type_idx, d.functions[x].type_idx, type_offset),
        fin.functions == mid.functions + fs,
        pending.len() == d.nodes.len(),
        fin.nodes.len() == mid.nodes.len() + d.nodes.len(),
        forall|i: int| 0 <= i < pending.len() ==> {
            &&& same_node_shape(mid, #[trigger] pending[i], d, d.nodes[i], forest_index, m, mid.nodes.len())
            &&& fin.nodes[mid.nodes.len() + i].exec_node == pending[i].exec_node
            &&& fin.nodes[mid.nodes.len() + i].children == pending[i].children
            &&& fin.nodes[mid.nodes.len() + i].op_start == pending[i].op_start
            &&& fin.nodes[mid.nodes.len() + i].op_end == pending[i].op_end
            &&& fin.nodes[mid.nodes.len() + i].asm_ops == pending[i].asm_ops
            &&& fin.nodes[mid.nodes.len() + i].debug_vars == pending[i].debug_vars
            &&& fin.nodes[mid.nodes.len() + i].inline_calls == moved_inline_calls(
                d.nodes[i].inline_calls,
                mid.functions.len(),
                loc_map,
            )
        },
    ensures
        input_merged(fin, d, forest_index, m, mid.nodes.len(), mid.functions.len(), type_offset),
{
    let noff = mid.nodes.len();
    let foff = mid.functions.len();
    lemma_strings_mapped_extends(mid, fin, d, string_map);
    assert forall|x: int| 0 <= x < d.types.len() implies fin.types[type_offset + x] == remap_type(
        #[trigger] d.types[x],
        string_map,
        shifted_types(type_offset, x),
    ) by {
        assert(fin.types[type_offset + x] == mid.types[type_offset + x]);
    }
    assert forall|x: int| 0 <= x < d.types.len() implies same_type_row(fin, fin.types[type_offset + x], d, #[trigger] d.types[x], type_offset) by {
        assert(type_resolves(d, d.types[x], x));
        lemma_remap_type_describes(fin, d, d.types[x], string_map, x, type_offset);
    }
    assert forall|x: int| 0 <= x < d.strings.len() implies fin.strings.contains(#[trigger] d.strings[x]) by {
        assert(same_str(mid, string_map[x], d, DebugStringIdx(x as u32)));
        assert(fin.strings[string_map[x].0 as int] == d.strings[x]);
    }
    assert forall|x: int| 0 <= x < d.files.len() implies #[trigger] file_present(fin, d, x) by {
        assert(same_file(mid, file_map[x], d, DebugFileIdx(x as u32)));
        lemma_same_file_extends(mid, fin, file_map[x], d, DebugFileIdx(x as u32));
    }
    assert forall|x: int| 0 <= x < d.locations.len() implies #[trigger] loc_present(fin, d, x) by {
        assert(same_loc(mid, loc_map[x], d, DebugLocIdx(x as u32)));
        lemma_same_loc_extends(mid, fin, loc_map[x], d, DebugLocIdx(x as u32));
    }
    assert forall|x: int| 0 <= x < d.error_messages.len() implies code_present(fin, (#[trigger] d.error_messages[x]).err_code) by {
        assert(code_present(mid, d.error_messages[x].err_code));
        let k = choose|k: int|
            0 <= k < mid.error_messages.len() && (#[trigger] mid.error_messages[k]).err_code == d.error_messages[x].err_code;
        assert(fin.error_messages[k] == mid.error_messages[k]);
    }
    assert forall|x: int| 0 <= x < d.functions.len() implies same_function_row(
        fin,
        fin.functions[foff + x],
        d,
        #[trigger] d.functions[x],
        noff,
    ) && moved_type_ref(fin.functions[foff + x].type_idx, d.functions[x].type_idx, type_offset) by {
        assert(moved_type_ref(fs[x].type_idx, d.functions[x].type_idx, type_offset));
        assert(fin.functions[foff + x] == fs[x]);
        lemma_same_function_row_extends(mid, fin, fs[x], d, d.functions[x], noff);
    }
    assert forall|i: int| 0 <= i < d.nodes.len() implies same_node(fin, #[trigger] fin.nodes[noff + i], d, d.nodes[i], forest_index, m, noff) by {
        let o = fin.nodes[noff + i];
        let n = d.nodes[i];
        assert(same_node_shape(mid, pending[i], d, n, forest_index, m, noff));
        assert(same_node_shape(mid, o, d, n, forest_index, m, noff));
        lemma_same_node_shape_extends(mid, fin, o, d, n, forest_index, m, noff);
        assert forall|k: int| 0 <= k < o.inline_calls.len() implies same_inline_call(fin, #[trigger] o.inline_calls[k], d, n.inline_calls[k], noff) by {
            let y = n.inline_calls[k];
            assert(y == d.nodes[i].inline_calls[k]);
            let c = y.callee_idx.0 as int;
            assert(o.inline_calls[k] == DebugSourceInlineCall {
                op_idx: y.op_idx,
                callee_idx: DebugFunctionIdx((c + foff) as u32),
                loc_idx: loc_map[y.loc_idx.0 as int],
            });
            assert(fin.functions[foff + c] == fs[c]);
            assert(same_function_row(mid, fs[c], d, d.functions[c], noff));
            lemma_same_function_row_extends(mid, fin, fs[c], d, d.functions[c], noff);
            assert(same_loc(mid, loc_map[y.loc_idx.0 as int], d, DebugLocIdx(y.loc_idx.0 as u32)));
            lemma_same_loc_extends(mid, fin, loc_map[y.loc_idx.0 as int], d, y.loc_idx);
        }
    }
}

impl DebugInfo {
    /// Merges the debug info `d` of forest `forest_index` into `self`, remapping its executable
    /// nodes through `root_map`. Fails with [`merge_error`] where a row of `d` refers to a row that
    /// does not exist or to an executable node that the map does not know; `self` is then left in
    /// a state that the caller discards.
    fn merge_input(&mut self, d: &DebugInfo, forest_index: usize, root_map: &MastForestRootMap) -> (r: Result<
        (),
        DebugInfoMergeError,
    >)
        requires
            merge_fits(old(self)@, d@),
        ensures
            r is Ok <==> resolves(d@, forest_index, root_map@),
            r is Ok ==> merge_error(d@, forest_index, root_map@) is None,
            r matches Err(e) ==> Some(e) == merge_error(d@, forest_index, root_map@),
            r is Ok ==> merged_one(old(self)@, final(self)@, d@, forest_index, root_map@),
    {
        let ghost start = self@;
        let node_offset = self.nodes().len() as u32;
        let function_offset = self.functions().len() as u32;
        let string_map = remap_strings(self, d);
        let type_map = remap_types(self, d, forest_index, &string_map)?;
        let ghost after_types = self@;
        proof {
            assert forall|x: int| 0 <= x < d@.types.len() implies after_types.types[start.types.len() + x] == remap_type(
                #[trigger] d@.types[x],
                string_map@,
                shifted_types(start.types.len(), x),
            ) by {
                assert(type_map@.take(x) =~= shifted_types(start.types.len(), x));
                assert(type_map@[x].0 == start.types.len() + x);
            }
        }
        let file_map = remap_files(self, d, forest_index, &string_map)?;
        let loc_map = remap_locations(self, d, forest_index, &file_map)?;
        let ghost before_messages = self@;
        remap_error_messages(self, d, forest_index, &string_map)?;
        let ghost after_messages = self@;
        let pending = remap_nodes(self, d, forest_index, root_map, &string_map, &loc_map, node_offset)?;
        let roots = remap_roots(d, forest_index, node_offset)?;
        let functions = remap_functions(self, d, forest_index, &string_map, &file_map, &type_map, node_offset)?;
        proof {
            assert forall|x: int| 0 <= x < functions@.len() implies moved_type_ref(
                (#[trigger] functions@[x]).type_idx,
                d@.functions[x].type_idx,
                start.types.len(),
            ) by {
                if let Some(t) = d@.functions[x].type_idx {
                    assert(type_map@[t.0 as int].0 == start.types.len() + t.0);
                }
            }
        }
        let ghost pending_views = pending@.map_values(|n: SourceNode| n@);
        let nodes = attach_inline_calls(pending, d, forest_index, &loc_map, function_offset)?;
        let ghost mid = self@;
        proof {
            assert(mid.nodes == start.nodes && mid.functions == start.functions && mid.roots == start.roots);
        }
        let mut i: usize = 0;
        while i < nodes.len()
            invariant
                i <= nodes.len(),
                nodes@.len() == d@.nodes.len(),
                mid.nodes.len() + d@.nodes.len() < u32::MAX,
                changes_only(mid, self@, false, false, false, false, false, true, false, false),
                self@.nodes == mid.nodes + nodes@.take(i as int).map_values(|n: SourceNode| n@),
            decreases nodes.len() - i,
        {
            self.push_node(nodes[i].duplicate());
            assert(nodes@.take(i + 1).map_values(|n: SourceNode| n@) =~= nodes@.take(i as int).map_values(
                |n: SourceNode| n@,
            ).push(nodes@[i as int]@));
            i = i + 1;
        }
        assert(nodes@.take(i as int) =~= nodes@);
        let ghost after_nodes = self@;
        let mut j: usize = 0;
        while j < roots.len()
            invariant
                j <= roots.len(),
                changes_only(after_nodes, self@, false, false, false, false, false, false, true, false),
                self@.roots == after_nodes.roots + roots@.take(j as int),
            decreases roots.len() - j,
        {
            self.push_root(roots[j]);
            assert(roots@.take(j + 1) =~= roots@.take(j as int).push(roots@[j as int]));
            j = j + 1;
        }
        assert(roots@.take(j as int) =~= roots@);
        let ghost after_roots = self@;
        let mut k: usize = 0;
        while k < functions.len()
            invariant
                k <= functions.len(),
                functions@.len() == d@.functions.len(),
                mid.functions.len() + d@.functions.len() < u32::MAX,
                after_roots.functions == mid.functions,
                changes_only(after_roots, self@, false, false, false, false, true, false, false, false),
                self@.functions == mid.functions + functions@.take(k as int),
            decreases functions.len() - k,
        {
            self.push_function(functions[k]);
            assert(functions@.take(k + 1) =~= functions@.take(k as int).push(functions@[k as int]));
            k = k + 1;
        }
        assert(functions@.take(k as int) =~= functions@);
        proof {
            let fin = self@;
            lemma_extends_trans(mid, after_nodes, after_roots);
            lemma_extends_trans(mid, after_roots, fin);
            lemma_extends_trans(start, mid, fin);
            assert forall|x: int| 0 <= x < pending_views.len() implies {
                &&& same_node_shape(mid, #[trigger] pending_views[x], d@, d@.nodes[x], forest_index, root_map@, mid.nodes.len())
                &&& fin.nodes[mid.nodes.len() + x].exec_node == pending_views[x].exec_node
                &&& fin.nodes[mid.nodes.len() + x].children == pending_views[x].children
                &&& fin.nodes[mid.nodes.len() + x].op_start == pending_views[x].op_start
                &&& fin.nodes[mid.nodes.len() + x].op_end == pending_views[x].op_end
                &&& fin.nodes[mid.nodes.len() + x].asm_ops == pending_views[x].asm_ops
                &&& fin.nodes[mid.nodes.len() + x].debug_vars == pending_views[x].debug_vars
                &&& fin.nodes[mid.nodes.len() + x].inline_calls == moved_inline_calls(
                    d@.nodes[x].inline_calls,
                    mid.functions.len(),
                    loc_map@,
                )
            } by {
                assert(fin.nodes[mid.nodes.len() + x] == nodes@[x]@);
            }
            assert(mid.types == after_types.types);
            lemma_commit(
                mid,
                fin,
                d@,
                forest_index,
                root_map@,
                string_map@,
                file_map@,
                loc_map@,
                pending_views,
                functions@,
                start.types.len(),
            );
            assert(before_messages.error_messages == start.error_messages);
            assert(fin.error_messages == after_messages.error_messages);
            assert forall|x: int|
                #[trigger] is_first_message_for(d@, d@.error_messages[x].err_code, x) && !code_present(
                    start,
                    d@.error_messages[x].err_code,
                ) implies message_carried(fin, d@, x) by {
                lemma_message_carried_extends(after_messages, fin, d@, x);
            }
        }
        Ok(())
    }
}

// THE BASE INPUT
// ================================================================================================

/// `d` with the executable node of each of its nodes remapped by `m` as a node of forest
/// `forest_index`; everything else as it is.
pub open spec fn remapped_exec_nodes(d: DebugInfoView, forest_index: usize, m: Seq<Seq<Option<MastNodeId>>>) -> DebugInfoView {
    DebugInfoView {
        nodes: d.nodes.map_values(
            |n: SourceNodeView| SourceNodeView { exec_node: mapped_node(m, forest_index, n.exec_node).unwrap(), ..n },
        ),
        ..d
    }
}

/// The map knows the executable node of every node of `d`, as forest `forest_index`.
pub open spec fn exec_nodes_mapped(d: DebugInfoView, forest_index: usize, m: Seq<Seq<Option<MastNodeId>>>) -> bool {
    forall|i: int| 0 <= i < d.nodes.len() ==> (#[trigger] mapped_node(m, forest_index, d.nodes[i].exec_node)) is Some
}

/// Node `k` is the first node of `d` whose executable node the map does not know.
pub open spec fn is_first_unmapped(d: DebugInfoView, forest_index: usize, m: Seq<Seq<Option<MastNodeId>>>, k: int) -> bool {
    &&& 0 <= k < d.nodes.len()
    &&& mapped_node(m, forest_index, d.nodes[k].exec_node) is None
    &&& forall|i: int| 0 <= i < k ==> (#[trigger] mapped_node(m, forest_index, d.nodes[i].exec_node)) is Some
}

/// Remaps the executable node of every node of `out` through `root_map`, as nodes of forest
/// `forest_index`; fails at the first node whose executable node the map does not know.
fn remap_exec_nodes(out: &mut DebugInfo, forest_index: usize, root_map: &MastForestRootMap) -> (r: Result<
    (),
    DebugInfoMergeError,
>)
    ensures
        r is Ok <==> exec_nodes_mapped(old(out)@, forest_index, root_map@),
        r matches Err(e) ==> exists|k: int|
            is_first_unmapped(old(out)@, forest_index, root_map@, k) && e == (DebugInfoMergeError::MissingExecNodeMapping {
                forest_index,
                exec_node: old(out)@.nodes[k].exec_node,
            }),
        r is Ok ==> final(out)@ == remapped_exec_nodes(old(out)@, forest_index, root_map@),
{
    let ghost start = out@;
    let count = out.nodes().len();
    let mut i: usize = 0;
    while i < count
        invariant
            start == old(out)@,
            count == start.nodes.len(),
            i <= count,
            out@ == (DebugInfoView { nodes: out@.nodes, ..start }),
            out@.nodes.len() == start.nodes.len(),
            forall|k: int| 0 <= k < i ==> (#[trigger] mapped_node(root_map@, forest_index, start.nodes[k].exec_node)) is Some,
            forall|k: int|
                0 <= k < i ==> #[trigger] out@.nodes[k] == (SourceNodeView {
                    exec_node: mapped_node(root_map@, forest_index, start.nodes[k].exec_node).unwrap(),
                    ..start.nodes[k]
                }),
            forall|k: int| i <= k < count ==> #[trigger] out@.nodes[k] == start.nodes[k],
        decreases count - i,
    {
        let nodes = out.nodes();
        let exec_node = nodes[i].exec_node;
        assert(exec_node == start.nodes[i as int].exec_node) by {
            assert(nodes@[i as int]@ == out@.nodes[i as int]);
        }
        match root_map.map_node(forest_index, &exec_node) {
            Some(e) => {
                out.set_exec_node(i, e);
            },
            None => {
                proof {
                    assert(is_first_unmapped(start, forest_index, root_map@, i as int));
                    assert(mapped_node(root_map@, forest_index, start.nodes[i as int].exec_node) is None);
                    assert(!exec_nodes_mapped(start, forest_index, root_map@));
                }
                return Err(DebugInfoMergeError::MissingExecNodeMapping { forest_index, exec_node });
            },
        }
        i = i + 1;
    }
    proof {
        assert(out@.nodes =~= remapped_exec_nodes(start, forest_index, root_map@).nodes);
    }
    Ok(())
}

// ALL INPUTS
// ================================================================================================

/// The number of rows that `size` counts in all of `ds` together.
pub open spec fn total(ds: Seq<DebugInfoView>, size: spec_fn(DebugInfoView) -> nat) -> nat
    decreases ds.len(),
{
    if ds.len() == 0 {
        0
    } else {
        total(ds.drop_last(), size) + size(ds.last())
    }
}

/// Counts the strings of a debug info.
pub open spec fn strings_of() -> spec_fn(DebugInfoView) -> nat {
    |d: DebugInfoView| d.strings.len()
}

/// Counts the files of a debug info.
pub open spec fn files_of() -> spec_fn(DebugInfoView) -> nat {
    |d: DebugInfoView| d.files.len()
}

/// Counts the locations of a debug info.
pub open spec fn locations_of() -> spec_fn(DebugInfoView) -> nat {
    |d: DebugInfoView| d.locations.len()
}

/// Counts the types of a debug info.
pub open spec fn types_of() -> spec_fn(DebugInfoView) -> nat {
    |d: DebugInfoView| d.types.len()
}

/// Counts the error messages of a debug info.
pub open spec fn error_messages_of() -> spec_fn(DebugInfoView) -> nat {
    |d: DebugInfoView| d.error_messages.len()
}

/// Counts the functions of a debug info.
pub open spec fn functions_of() -> spec_fn(DebugInfoView) -> nat {
    |d: DebugInfoView| d.functions.len()
}

/// Counts the nodes of a debug info.
pub open spec fn nodes_of() -> spec_fn(DebugInfoView) -> nat {
    |d: DebugInfoView| d.nodes.len()
}

/// All the tables of `ds`, put together, stay below `u32::MAX` rows each.
pub open spec fn merge_fits_all(ds: Seq<DebugInfoView>) -> bool {
    &&& total(ds, strings_of()) < u32::MAX
    &&& total(ds, files_of()) < u32::MAX
    &&& total(ds, locations_of()) < u32::MAX
    &&& total(ds, types_of()) < u32::MAX
    &&& total(ds, functions_of()) < u32::MAX
    &&& total(ds, nodes_of()) < u32::MAX
}

/// The roots of all of `ds`, each input's moved past the nodes of the inputs before it.
pub open spec fn merged_roots(ds: Seq<DebugInfoView>) -> Seq<DebugSourceNodeId>
    decreases ds.len(),
{
    if ds.len() == 0 {
        Seq::empty()
    } else if ds.len() == 1 {
        ds[0].roots
    } else {
        merged_roots(ds.drop_last()) + moved_roots(ds.last().roots, total(ds.drop_last(), nodes_of()))
    }
}

/// The debug infos of the `(forest index, debug info)` inputs.
pub open spec fn input_views<'a>(inputs: Seq<(usize, &'a DebugInfo)>) -> Seq<DebugInfoView> {
    inputs.map_values(|p: (usize, &'a DebugInfo)| p.1@)
}

/// The forest indices of the `(forest index, debug info)` inputs.
pub open spec fn input_forests<'a>(inputs: Seq<(usize, &'a DebugInfo)>) -> Seq<usize> {
    inputs.map_values(|p: (usize, &'a DebugInfo)| p.0)
}

/// `out` is the merge of the debug infos `ds` of forests `forests`: the first, with its executable
/// nodes remapped by `m`, is kept as a prefix of every table (and where its locations or files hold
/// no two equal rows, neither do those of `out`), the types, functions and nodes of the
/// others appended
/// in order, the roots of all concatenated with each input's moved past the nodes before it, and
/// each later input described by `out` (see [`input_merged`]).
pub open spec fn merged_all(
    out: DebugInfoView,
    ds: Seq<DebugInfoView>,
    forests: Seq<usize>,
    m: Seq<Seq<Option<MastNodeId>>>,
) -> bool {
    &&& ds.len() >= 1
    &&& forests.len() == ds.len()
    &&& extends(remapped_exec_nodes(ds[0], forests[0], m), out)
    &&& out.strings.len() <= total(ds, strings_of())
    &&& out.files.len() <= total(ds, files_of())
    &&& out.locations.len() <= total(ds, locations_of())
    &&& out.types.len() == total(ds, types_of())
    &&& ds[0].locations.no_duplicates() ==> out.locations.no_duplicates()
    &&& files_distinct(ds[0].files) ==> files_distinct(out.files)
    &&& out.error_messages.len() <= total(ds, error_messages_of())
    &&& out.functions.len() == total(ds, functions_of())
    &&& out.nodes.len() == total(ds, nodes_of())
    &&& out.roots == merged_roots(ds)
    &&& forall|j: int|
        1 <= j < ds.len() ==> input_merged(
            out,
            #[trigger] ds[j],
            forests[j],
            m,
            total(ds.take(j), nodes_of()),
            total(ds.take(j), functions_of()),
            total(ds.take(j), types_of()),
        )
    &&& messages_merged(out, ds)
}

/// The error messages of `out` are those of `ds`, the first input with a code deciding its
/// message: every code of `out` comes from some input, and where a later input is the first to
/// have a code, `out` answers that code with the message of that input's first row for it.
pub open spec fn messages_merged(out: DebugInfoView, ds: Seq<DebugInfoView>) -> bool {
    &&& forall|j: int, x: int|
        1 <= j < ds.len() && #[trigger] is_first_message_for(ds[j], ds[j].error_messages[x].err_code, x) && (forall|i: int|
            0 <= i < j ==> !code_present(#[trigger] ds[i], ds[j].error_messages[x].err_code)) ==> message_carried(out, ds[j], x)
    &&& forall|k: int| 0 <= k < out.error_messages.len() ==> some_input_has_code(ds, (#[trigger] out.error_messages[k]).err_code)
}

/// Some debug info of `ds` records an error message for `code`.
pub open spec fn some_input_has_code(ds: Seq<DebugInfoView>, code: u64) -> bool {
    exists|i: int| 0 <= i < ds.len() && #[trigger] code_present(ds[i], code)
}

proof fn lemma_total_step(ds: Seq<DebugInfoView>, size: spec_fn(DebugInfoView) -> nat, j: int)
    requires
        0 <= j < ds.len(),
    ensures
        total(ds.take(j + 1), size) == total(ds.take(j), size) + size(ds[j]),
{
    assert(ds.take(j + 1).drop_last() =~= ds.take(j));
}

proof fn lemma_total_le(ds: Seq<DebugInfoView>, size: spec_fn(DebugInfoView) -> nat, j: int)
    requires
        0 <= j <= ds.len(),
    ensures
        total(ds.take(j), size) <= total(ds, size),
    decreases ds.len() - j,
{
    if j == ds.len() {
        assert(ds.take(j) =~= ds);
    } else {
        lemma_total_step(ds, size, j);
        lemma_total_le(ds, size, j + 1);
    }
}

proof fn lemma_messages_merged_step(old: DebugInfoView, new: DebugInfoView, ds: Seq<DebugInfoView>, j: int)
    requires
        1 <= j < ds.len(),
        messages_merged(old, ds.take(j)),
        extends(old, new),
        forall|x: int|
            #[trigger] is_first_message_for(ds[j], ds[j].error_messages[x].err_code, x) && !code_present(old, ds[j].error_messages[x].err_code)
                ==> message_carried(new, ds[j], x),
        forall|k: int|
            old.error_messages.len() <= k < new.error_messages.len() ==> code_present(ds[j], (#[trigger] new.error_messages[k]).err_code),
    ensures
        messages_merged(new, ds.take(j + 1)),
{
    let a = ds.take(j);
    let b = ds.take(j + 1);
    assert forall|k: int, x: int|
        1 <= k < b.len() && #[trigger] is_first_message_for(b[k], b[k].error_messages[x].err_code, x) && (forall|i: int|
            0 <= i < k ==> !code_present(#[trigger] b[i], b[k].error_messages[x].err_code)) implies message_carried(new, b[k], x) by {
        let c = b[k].error_messages[x].err_code;
        if k < j {
            assert(a[k] == b[k]);
            assert forall|i: int| 0 <= i < k implies !code_present(#[trigger] a[i], c) by {
                assert(a[i] == b[i]);
            }
            assert(message_carried(old, a[k], x));
            lemma_message_carried_extends(old, new, b[k], x);
        } else {
            assert(b[k] == ds[j]);
            assert(!code_present(old, c)) by {
                if code_present(old, c) {
                    let r = choose|r: int| 0 <= r < old.error_messages.len() && (#[trigger] old.error_messages[r]).err_code == c;
                    assert(some_input_has_code(a, old.error_messages[r].err_code));
                    let i = choose|i: int| 0 <= i < a.len() && #[trigger] code_present(a[i], old.error_messages[r].err_code);
                    assert(a[i] == b[i]);
                    assert(!code_present(b[i], c));
                }
            }
        }
    }
    assert forall|k: int| 0 <= k < new.error_messages.len() implies some_input_has_code(b, (#[trigger] new.error_messages[k]).err_code) by {
        if k < old.error_messages.len() {
            assert(new.error_messages[k] == old.error_messages[k]);
            assert(some_input_has_code(a, old.error_messages[k].err_code));
            let i = choose|i: int| 0 <= i < a.len() && #[trigger] code_present(a[i], old.error_messages[k].err_code);
            assert(a[i] == b[i]);
            assert(code_present(b[i], new.error_messages[k].err_code));
        } else {
            assert(code_present(ds[j], new.error_messages[k].err_code));
            assert(b[j] == ds[j]);
            assert(code_present(b[j], new.error_messages[k].err_code));
        }
    }
}

proof fn lemma_merged_all_step(
    old: DebugInfoView,
    new: DebugInfoView,
    ds: Seq<DebugInfoView>,
    forests: Seq<usize>,
    m: Seq<Seq<Option<MastNodeId>>>,
    j: int,
)
    requires
        1 <= j < ds.len(),
        forests.len() == ds.len(),
        merged_all(old, ds.take(j), forests.take(j), m),
        merged_one(old, new, ds[j], forests[j], m),
    ensures
        merged_all(new, ds.take(j + 1), forests.take(j + 1), m),
{
    let a = ds.take(j);
    let b = ds.take(j + 1);
    assert(b.drop_last() =~= a);
    assert(b[0] == a[0]);
    assert(forests.take(j + 1)[0] == forests.take(j)[0]);
    lemma_extends_trans(remapped_exec_nodes(a[0], forests[0], m), old, new);
    lemma_total_step(ds, strings_of(), j);
    lemma_total_step(ds, files_of(), j);
    lemma_total_step(ds, locations_of(), j);
    lemma_total_step(ds, types_of(), j);
    lemma_total_step(ds, error_messages_of(), j);
    lemma_total_step(ds, functions_of(), j);
    lemma_total_step(ds, nodes_of(), j);
    assert(new.roots == merged_roots(b));
    assert forall|k: int| 1 <= k < b.len() implies input_merged(
        new,
        #[trigger] b[k],
        forests.take(j + 1)[k],
        m,
        total(b.take(k), nodes_of()),
        total(b.take(k), functions_of()),
        total(b.take(k), types_of()),
    ) by {
        if k < j {
            assert(b.take(k) =~= a.take(k));
            assert(input_merged(
                old,
                a[k],
                forests.take(j)[k],
                m,
                total(a.take(k), nodes_of()),
                total(a.take(k), functions_of()),
                total(a.take(k), types_of()),
            ));
            lemma_input_merged_extends(
                old,
                new,
                a[k],
                forests[k],
                m,
                total(a.take(k), nodes_of()),
                total(a.take(k), functions_of()),
                total(a.take(k), types_of()),
            );
        } else {
            assert(b.take(k) =~= a);
        }
    }
    lemma_messages_merged_step(old, new, ds, j);
}

impl DebugInfo {
    /// Merges the debug infos of the `(forest index, debug info)` inputs of a MAST forest merge,
    /// applying the merge's node mappings `root_map` to the executable nodes of every input. The
    /// first input is the base: its tables are kept as they are, with only its executable nodes
    /// remapped; every later one is merged into it (see [`merged_all`]). With no input, the result
    /// is empty debug info. A base node whose executable node the map does not know fails the merge
    /// with `MissingExecNodeMapping` for the first such node; otherwise the first later input with
    /// a row that refers to a missing row or to an unmapped executable node fails it with that
    /// input's [`merge_error`]: the first dangling reference, with its variant and index.
    pub fn merge_source_debug(inputs: &[(usize, &DebugInfo)], root_map: &MastForestRootMap) -> (r: Result<
        DebugInfo,
        DebugInfoMergeError,
    >)
        requires
            merge_fits_all(input_views(inputs@)),
        ensures
            inputs@.len() == 0 ==> (r matches Ok(o) && o@ == empty_debug_info()),
            inputs@.len() > 0 ==> (r is Ok <==> exec_nodes_mapped(input_views(inputs@)[0], inputs@[0].0, root_map@)
                && forall|j: int|
                1 <= j < inputs@.len() ==> resolves(#[trigger] input_views(inputs@)[j], inputs@[j].0, root_map@)),
            r matches Err(e) ==> (exists|k: int|
                is_first_unmapped(input_views(inputs@)[0], inputs@[0].0, root_map@, k) && e
                    == (DebugInfoMergeError::MissingExecNodeMapping {
                    forest_index: inputs@[0].0,
                    exec_node: input_views(inputs@)[0].nodes[k].exec_node,
                })) || (exec_nodes_mapped(input_views(inputs@)[0], inputs@[0].0, root_map@) && exists|j: int|
                1 <= j < inputs@.len() && !resolves(#[trigger] input_views(inputs@)[j], inputs@[j].0, root_map@)
                    && Some(e) == merge_error(input_views(inputs@)[j], inputs@[j].0, root_map@) && forall|k: int|
                    1 <= k < j ==> resolves(#[trigger] input_views(inputs@)[k], inputs@[k].0, root_map@)),
            inputs@.len() > 0 ==> (r matches Ok(o) ==> merged_all(o@, input_views(inputs@), input_forests(inputs@), root_map@)),
    {
        if inputs.len() == 0 {
            return Ok(DebugInfo::new());
        }
        let ghost ds = input_views(inputs@);
        let ghost fs = input_forests(inputs@);
        let mut out = inputs[0].1.duplicate();
        proof {
            assert(out@ == ds[0]);
        }
        remap_exec_nodes(&mut out, inputs[0].0, root_map)?;
        proof {
            assert(out@ == remapped_exec_nodes(ds[0], fs[0], root_map@));
            let one = ds.take(1);
            lemma_total_step(ds, strings_of(), 0);
            lemma_total_step(ds, files_of(), 0);
            lemma_total_step(ds, locations_of(), 0);
            lemma_total_step(ds, types_of(), 0);
            lemma_total_step(ds, error_messages_of(), 0);
            lemma_total_step(ds, functions_of(), 0);
            lemma_total_step(ds, nodes_of(), 0);
            assert(merged_roots(one) == out@.roots);
            assert forall|k: int| 0 <= k < out@.error_messages.len() implies some_input_has_code(one, (#[trigger] out@.error_messages[k]).err_code) by {
                assert(one[0] == ds[0]);
                assert(ds[0].error_messages[k] == out@.error_messages[k]);
                assert(code_present(one[0], out@.error_messages[k].err_code));
            }
        }
        let mut j: usize = 1;
        while j < inputs.len()
            invariant
                1 <= j <= inputs.len(),
                ds == input_views(inputs@),
                fs == input_forests(inputs@),
                merge_fits_all(ds),
                merged_all(out@, ds.take(j as int), fs.take(j as int), root_map@),
                exec_nodes_mapped(ds[0], inputs@[0].0, root_map@),
                forall|k: int| 1 <= k < j ==> resolves(#[trigger] ds[k], inputs@[k].0, root_map@),
            decreases inputs.len() - j,
        {
            let (forest_index, d) = inputs[j];
            proof {
                assert(d@ == ds[j as int]);
                assert(forest_index == fs[j as int]);
                lemma_total_step(ds, strings_of(), j as int);
                lemma_total_step(ds, files_of(), j as int);
                lemma_total_step(ds, locations_of(), j as int);
                lemma_total_step(ds, types_of(), j as int);
                lemma_total_step(ds, functions_of(), j as int);
                lemma_total_step(ds, nodes_of(), j as int);
                lemma_total_le(ds, strings_of(), j + 1);
                lemma_total_le(ds, files_of(), j + 1);
                lemma_total_le(ds, locations_of(), j + 1);
                lemma_total_le(ds, types_of(), j + 1);
                lemma_total_le(ds, functions_of(), j + 1);
                lemma_total_le(ds, nodes_of(), j + 1);
            }
            let ghost before = out@;
            match out.merge_input(d, forest_index, root_map) {
                Ok(()) => {},
                Err(e) => {
                    return Err(e);
                },
            }
            proof {
                lemma_merged_all_step(before, out@, ds, fs, root_map@, j as int);
            }
            j = j + 1;
        }
        proof {
            assert(ds.take(j as int) =~= ds);
            assert(fs.take(j as int) =~= fs);
        }
        Ok(out)
    }
}

/// Merging a single debug info gives it back with only its executable nodes remapped.
pub proof fn lemma_merge_single(out: DebugInfoView, d: DebugInfoView, forest_index: usize, m: Seq<Seq<Option<MastNodeId>>>)
    requires
        merged_all(out, seq![d], seq![forest_index], m),
    ensures
        out == remapped_exec_nodes(d, forest_index, m),
{
    let ds = seq![d];
    let b = remapped_exec_nodes(d, forest_index, m);
    assert(ds.take(1) =~= ds);
    lemma_total_step(ds, strings_of(), 0);
    lemma_total_step(ds, files_of(), 0);
    lemma_total_step(ds, locations_of(), 0);
    lemma_total_step(ds, types_of(), 0);
    lemma_total_step(ds, error_messages_of(), 0);
    lemma_total_step(ds, functions_of(), 0);
    lemma_total_step(ds, nodes_of(), 0);
    assert(out.strings =~= b.strings);
    assert(out.files =~= b.files);
    assert(out.locations =~= b.locations);
    assert(out.types =~= b.types);
    assert(out.error_messages =~= b.error_messages);
    assert(out.functions =~= b.functions);
    assert(out.nodes =~= b.nodes);
    assert(out.roots =~= b.roots);
}

/// A merge carries every type row of a later input: the merged row at the input's type offset
/// (the number of types of the inputs before it) plus `x` is the same kind of type as row `x` of
/// the input, with the same primitive, size, element count, field offsets, payload offsets and
/// discriminants, with strings of the same contents, and with each type index it names moved by
/// that offset, so that it refers to the merged image of the row that row `x` refers to.
pub proof fn lemma_merge_carries_types(
    out: DebugInfoView,
    ds: Seq<DebugInfoView>,
    forests: Seq<usize>,
    m: Seq<Seq<Option<MastNodeId>>>,
    j: int,
    x: int,
)
    requires
        merged_all(out, ds, forests, m),
        1 <= j < ds.len(),
        0 <= x < ds[j].types.len(),
    ensures
        total(ds.take(j), types_of()) + ds[j].types.len() <= out.types.len(),
        same_type_row(
            out,
            out.types[total(ds.take(j), types_of()) + x],
            ds[j],
            ds[j].types[x],
            total(ds.take(j), types_of()),
        ),
{
    assert(input_merged(
        out,
        ds[j],
        forests[j],
        m,
        total(ds.take(j), nodes_of()),
        total(ds.take(j), functions_of()),
        total(ds.take(j), types_of()),
    ));
}

/// A merge answers an error code that a later input is the first to record with that input's
/// message: the first merged row for the code names a string with the contents of the message of
/// the input's first row for it. Every code that the merge records is recorded by some input.
pub proof fn lemma_merge_error_message(
    out: DebugInfoView,
    ds: Seq<DebugInfoView>,
    forests: Seq<usize>,
    m: Seq<Seq<Option<MastNodeId>>>,
    j: int,
    x: int,
)
    requires
        merged_all(out, ds, forests, m),
        1 <= j < ds.len(),
        is_first_message_for(ds[j], ds[j].error_messages[x].err_code, x),
        forall|i: int| 0 <= i < j ==> !code_present(#[trigger] ds[i], ds[j].error_messages[x].err_code),
    ensures
        exists|k: int|
            #[trigger] is_first_message_for(out, ds[j].error_messages[x].err_code, k)
                && out.error_messages[k].message.0 < out.strings.len()
                && out.strings[out.error_messages[k].message.0 as int]
                == ds[j].strings[ds[j].error_messages[x].message.0 as int],
        forall|k: int| 0 <= k < out.error_messages.len() ==> some_input_has_code(ds, (#[trigger] out.error_messages[k]).err_code),
{
    assert(message_carried(out, ds[j], x));
}

} // verus!
