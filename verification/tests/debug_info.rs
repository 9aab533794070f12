use miden_helpers::debug_builder::{DebugInfoBuilder, PackageDebugInfoBuilder};
use miden_helpers::debug_info::{filesystem_path, DebugInfo, PackageDebugInfo, DEBUG_INFO_VERSION};
use miden_helpers::debug_merge::MastForestRootMap;
use miden_helpers::debug_types::{
    DebugFileIdx, DebugFileInfo, DebugFunctionIdx, DebugFunctionInfo, DebugInfoMergeError, DebugLoc,
    DebugLocIdx, DebugPrimitiveType, DebugSourceAsmOp, DebugSourceInlineCall, DebugSourceNode,
    DebugSourceNodeId, DebugSourceVar, DebugStringIdx, DebugTypeIdx, DebugTypeInfo,
    DebugSourceGraphLookupError, DebugVarLocation, FunctionInfo, Location, MastNodeId,
    PackageDebugInfoMergeError, SourceGraphLookupError,
};

fn source_node(
    exec_node: MastNodeId,
    children: Vec<DebugSourceNodeId>,
    op_start: u32,
    op_end: u32,
) -> DebugSourceNode {
    DebugSourceNode {
        exec_node,
        children,
        op_start,
        op_end,
        asm_ops: Vec::new(),
        debug_vars: Vec::new(),
        inline_calls: Vec::new(),
    }
}

fn string_of(debug_info: &DebugInfo, idx: DebugStringIdx) -> String {
    debug_info.get_string(idx).unwrap()
}

#[test]
fn test_debug_source_map_inline_calls_are_keyed_by_source_operation() {
    let inline_a = DebugSourceInlineCall {
        op_idx: 3,
        callee_idx: DebugFunctionIdx(0),
        loc_idx: DebugLocIdx(0),
    };
    let inline_b = DebugSourceInlineCall {
        op_idx: 3,
        callee_idx: DebugFunctionIdx(1),
        loc_idx: DebugLocIdx(0),
    };
    let mut builder = PackageDebugInfoBuilder::default();
    let mut node_a = source_node(MastNodeId::new_unchecked(0), Vec::new(), 0, 4);
    node_a.inline_calls.push(inline_a);
    let source_a = builder.add_node(node_a).unwrap();
    let mut node_b = source_node(MastNodeId::new_unchecked(1), Vec::new(), 0, 4);
    node_b.inline_calls.push(inline_b);
    let source_b = builder.add_node(node_b).unwrap();
    let debug_info = builder.build();

    assert_eq!(debug_info.inline_calls_for_source_node(source_a).iter().collect::<Vec<_>>(), vec![&inline_a]);
    assert_eq!(debug_info.inline_calls_for_source_node(source_b).iter().collect::<Vec<_>>(), vec![&inline_b]);
    assert_eq!(debug_info.inline_calls_for_operation(source_a, 3), vec![&inline_a]);
    assert!(debug_info.inline_calls_for_operation(source_a, 4).is_empty());
}

/// The debug info of a forest whose single block (node 0) runs `add`: one source node with an
/// assembly operation, a debug variable and an inline call to a function of its own.
fn debug_info_for_block(block: MastNodeId, context: &str, var_name: &str) -> PackageDebugInfo {
    let mut builder = PackageDebugInfoBuilder::default();
    let source_node = DebugSourceNodeId(0);
    let uri = format!("{context}.masm");
    let file_idx = builder.add_file(&uri, None);
    let loc_idx = builder.add_location(Location::new(uri, 8, 9));
    let name_idx = builder.add_string(&format!("{context}_callee"));
    let callee_idx = builder.add_function(DebugFunctionInfo::new(
        Some(source_node),
        name_idx,
        file_idx,
        7,
        3,
        [0u64; 4],
    ));
    let context_name_idx = builder.add_string(context);
    let op_name_idx = builder.add_string("add");
    let var_name_idx = builder.add_string(var_name);
    let node = DebugSourceNode {
        exec_node: block,
        children: Vec::new(),
        op_start: 0,
        op_end: 1,
        asm_ops: vec![DebugSourceAsmOp {
            op_idx: 0,
            location_idx: None,
            context_name_idx,
            op_name_idx,
            num_cycles: 1,
        }],
        debug_vars: vec![DebugSourceVar {
            op_idx: 0,
            name_idx: var_name_idx,
            type_id: None,
            arg_idx: None,
            location_idx: None,
            value_location: DebugVarLocation::Stack(0),
        }],
        inline_calls: vec![DebugSourceInlineCall { op_idx: 0, callee_idx, loc_idx }],
    };
    assert_eq!(builder.add_node(node).unwrap(), source_node);
    builder.add_root(source_node);
    *builder.build()
}

#[test]
fn test_package_source_debug_merge_remaps_execution_nodes_without_collapsing_sources() {
    // Two forests, each a single `add` block at node 0; merging them deduplicates the two blocks
    // into merged node 0.
    let block_a = MastNodeId::new_unchecked(0);
    let block_b = MastNodeId::new_unchecked(0);
    let debug_a = debug_info_for_block(block_a, "alias_a", "x");
    let debug_b = debug_info_for_block(block_b, "alias_b", "y");

    let root_map = MastForestRootMap::new(vec![
        vec![Some(MastNodeId::new_unchecked(0))],
        vec![Some(MastNodeId::new_unchecked(0))],
    ]);
    let merged_a = root_map.map_node(0, &block_a).unwrap();
    let merged_b = root_map.map_node(1, &block_b).unwrap();
    assert_eq!(merged_a, merged_b);

    let merged_debug =
        PackageDebugInfo::merge_source_debug(&[(0, &debug_a), (1, &debug_b)], &root_map).unwrap();
    assert_eq!(merged_debug.nodes().len(), 2);
    assert_eq!(merged_debug.roots().len(), 2);
    assert!(merged_debug.nodes().iter().all(|node| node.exec_node == merged_a));

    let source_a = merged_debug.roots()[0];
    let source_b = merged_debug.roots()[1];
    assert_ne!(source_a, source_b);
    assert_eq!(
        string_of(&merged_debug, merged_debug.first_asm_op_for_source_node(source_a).unwrap().context_name_idx),
        "alias_a",
    );
    assert_eq!(
        string_of(&merged_debug, merged_debug.first_asm_op_for_source_node(source_b).unwrap().context_name_idx),
        "alias_b",
    );
    assert_eq!(
        merged_debug
            .debug_vars_for_operation(source_a, 0)
            .iter()
            .map(|row| string_of(&merged_debug, row.name_idx))
            .collect::<Vec<_>>(),
        vec!["x"],
    );
    assert_eq!(
        merged_debug
            .debug_vars_for_operation(source_b, 0)
            .iter()
            .map(|row| string_of(&merged_debug, row.name_idx))
            .collect::<Vec<_>>(),
        vec!["y"],
    );
    let inline_a = merged_debug.inline_calls_for_operation(source_a, 0);
    let inline_b = merged_debug.inline_calls_for_operation(source_b, 0);
    assert_eq!(inline_a.len(), 1);
    assert_eq!(inline_b.len(), 1);

    let call_loc_a = merged_debug.locations()[inline_a[0].loc_idx.0 as usize];
    let function_a = merged_debug.get_function(inline_a[0].callee_idx).unwrap();
    let file_a = merged_debug.get_file(function_a.file_idx).unwrap();
    let path_a = merged_debug.get_string(file_a.path_idx).unwrap();
    let function_name_a = merged_debug.get_string(function_a.name_idx).unwrap();
    assert_eq!(path_a, "alias_a.masm");
    assert_eq!(function_name_a, "alias_a_callee");
    assert_eq!(function_a.file_idx, call_loc_a.file_idx);

    let call_loc_b = merged_debug.locations()[inline_b[0].loc_idx.0 as usize];
    let function_b = merged_debug.get_function(inline_b[0].callee_idx).unwrap();
    let file_b = merged_debug.get_file(function_b.file_idx).unwrap();
    let path_b = merged_debug.get_string(file_b.path_idx).unwrap();
    let function_name_b = merged_debug.get_string(function_b.name_idx).unwrap();
    assert_eq!(path_b, "alias_b.masm");
    assert_eq!(function_name_b, "alias_b_callee");
    assert_eq!(function_b.file_idx, call_loc_b.file_idx);
}

#[test]
fn test_package_source_debug_merge_remaps_non_root_execution_nodes() {
    // One forest: an `add` block (node 0) called by a call node (node 1), the root; merging it
    // alone keeps both nodes where they are.
    let callee = MastNodeId::new_unchecked(0);
    let call = MastNodeId::new_unchecked(1);

    let mut debug_builder = PackageDebugInfoBuilder::default();
    let context_name_idx = debug_builder.add_string("callee");
    let op_name_idx = debug_builder.add_string("add");
    let mut child = source_node(callee, Vec::new(), 0, 1);
    child.asm_ops.push(DebugSourceAsmOp {
        op_idx: 0,
        location_idx: None,
        context_name_idx,
        op_name_idx,
        num_cycles: 1,
    });
    let child_source = debug_builder.add_node(child).unwrap();
    let root_source = debug_builder.add_node(source_node(call, vec![child_source], 0, 1)).unwrap();
    debug_builder.add_root(root_source);
    let debug_info = debug_builder.build();

    let root_map = MastForestRootMap::new(vec![vec![
        Some(MastNodeId::new_unchecked(5)),
        Some(MastNodeId::new_unchecked(6)),
    ]]);
    let merged_callee = root_map.map_node(0, &callee).unwrap();

    let merged_debug = PackageDebugInfo::merge_source_debug(&[(0, debug_info.as_ref())], &root_map).unwrap();
    let merged_child = merged_debug.child_source_node(merged_debug.roots()[0], 0).unwrap().unwrap().0;
    assert_eq!(merged_debug.source_node(merged_child).unwrap().exec_node, merged_callee);
    assert_eq!(
        string_of(&merged_debug, merged_debug.first_asm_op_for_source_node(merged_child).unwrap().context_name_idx),
        "callee",
    );
}

#[test]
fn test_source_debug_lookup_uses_source_node_identity() {
    let exec_node = MastNodeId::new_unchecked(7);
    let mut builder = PackageDebugInfoBuilder::default();
    let add_idx = builder.add_string("add");
    let mul_idx = builder.add_string("mul");
    let alias_a_idx = builder.add_string("alias_a");
    let alias_b_idx = builder.add_string("alias_b");
    let alias_b_later_idx = builder.add_string("alias_b_later");
    let x_idx = builder.add_string("x");
    let y_idx = builder.add_string("y");
    let mut node_a = source_node(exec_node, Vec::new(), 0, 1);
    node_a.asm_ops.push(DebugSourceAsmOp {
        op_idx: 0,
        location_idx: None,
        context_name_idx: alias_a_idx,
        op_name_idx: add_idx,
        num_cycles: 1,
    });
    node_a.debug_vars.push(DebugSourceVar {
        op_idx: 0,
        name_idx: x_idx,
        type_id: None,
        arg_idx: None,
        location_idx: None,
        value_location: DebugVarLocation::Stack(0),
    });
    let source_a = builder.add_node(node_a).unwrap();
    let mut node_b = source_node(exec_node, Vec::new(), 0, 3);
    node_b.asm_ops.extend([
        DebugSourceAsmOp {
            op_idx: 0,
            location_idx: None,
            context_name_idx: alias_b_idx,
            op_name_idx: add_idx,
            num_cycles: 1,
        },
        DebugSourceAsmOp {
            op_idx: 2,
            location_idx: None,
            context_name_idx: alias_b_later_idx,
            op_name_idx: mul_idx,
            num_cycles: 1,
        },
    ]);
    node_b.debug_vars.push(DebugSourceVar {
        op_idx: 0,
        name_idx: y_idx,
        type_id: None,
        arg_idx: None,
        location_idx: None,
        value_location: DebugVarLocation::Stack(1),
    });
    let source_b = builder.add_node(node_b).unwrap();
    builder.add_root(source_a);
    builder.add_root(source_b);
    let debug_info = builder.build();

    assert_eq!(debug_info.nodes().iter().filter(|node| node.exec_node == exec_node).count(), 2);
    assert_eq!(debug_info.source_node(source_a).unwrap().exec_node, exec_node);
    let asm_a = debug_info.asm_op_for_operation(source_a, 0).unwrap();
    let asm_b = debug_info.asm_op_for_operation(source_b, 0).unwrap();
    assert_eq!(string_of(&debug_info, asm_a.context_name_idx), "alias_a");
    assert_eq!(string_of(&debug_info, asm_b.context_name_idx), "alias_b");
    assert_eq!(
        string_of(&debug_info, debug_info.first_asm_op_for_source_node(source_b).unwrap().context_name_idx),
        "alias_b",
    );
    let vars_b = debug_info.debug_vars_for_operation(source_b, 0);
    assert_eq!(vars_b.len(), 1);
    assert_eq!(string_of(&debug_info, vars_b[0].name_idx), "y");
}

#[test]
fn test_source_graph_navigation_uses_child_indices() {
    let root_exec = MastNodeId::new_unchecked(7);
    let child_exec = MastNodeId::new_unchecked(8);
    let other_exec = MastNodeId::new_unchecked(9);
    let mut builder = PackageDebugInfoBuilder::default();
    let child_a = builder.add_node(source_node(child_exec, Vec::new(), 0, 1)).unwrap();
    let child_b = builder.add_node(source_node(child_exec, Vec::new(), 0, 1)).unwrap();
    let root = builder.add_node(source_node(root_exec, vec![child_a, child_b], 0, 1)).unwrap();
    let other_root = builder.add_node(source_node(root_exec, Vec::new(), 0, 1)).unwrap();
    builder.add_root(root);

    assert_eq!(builder.debug_info().unique_source_root_for_exec_node(root_exec).unwrap(), Some(root));
    assert_eq!(builder.debug_info().unique_source_root_for_exec_node(other_exec).unwrap(), None);
    assert_eq!(builder.debug_info().child_source_node(root, 0).unwrap().unwrap().0, child_a);
    assert_eq!(builder.debug_info().child_source_node(root, 1).unwrap().unwrap().0, child_b);
    assert!(builder.debug_info().child_source_node(root, 2).unwrap().is_none());
    assert_eq!(
        builder.debug_info().child_source_node(DebugSourceNodeId(99), 0).map(|c| c.map(|(id, _)| id)),
        Err(DebugSourceGraphLookupError::MissingSourceNode { source_node: DebugSourceNodeId(99) }),
    );

    builder.add_root(other_root);
    let package_debug = builder.build();
    assert_eq!(
        package_debug.unique_source_root_for_exec_node(root_exec),
        Err(DebugSourceGraphLookupError::AmbiguousRoot { exec_node: root_exec }),
    );
    assert_eq!(package_debug.child_source_node(root, 1).unwrap().unwrap().0, child_b);
}

#[test]
fn test_primitive_type_roundtrip() {
    for discriminant in 0..=16 {
        let ty = DebugPrimitiveType::from_discriminant(discriminant).unwrap();
        assert_eq!(ty as u8, discriminant);
    }
    assert!(DebugPrimitiveType::from_discriminant(17).is_none());
}

#[test]
fn primitive_discriminant_matches_declaration_order() {
    for discriminant in 0..=16u8 {
        let ty = DebugPrimitiveType::from_discriminant(discriminant).unwrap();
        assert_eq!(ty.discriminant(), discriminant);
        assert_eq!(DebugPrimitiveType::from_discriminant(ty.discriminant()), Some(ty));
    }
    assert_eq!(DebugPrimitiveType::from_discriminant(255), None);
}

#[test]
fn new_debug_info_is_empty_and_current() {
    let d = DebugInfo::new();
    assert_eq!(d.version(), DEBUG_INFO_VERSION);
    assert_eq!(DEBUG_INFO_VERSION, 2);
    assert!(d.strings().is_empty() && d.files().is_empty() && d.locations().is_empty());
    assert!(d.types().is_empty() && d.functions().is_empty() && d.nodes().is_empty());
    assert!(d.roots().is_empty() && d.error_messages().is_empty());
    assert_eq!(d.get_string(DebugStringIdx(0)), None);
    assert!(d.get_file(DebugFileIdx(0)).is_none());
    assert!(d.get_location(DebugLocIdx(0)).is_none());
}

#[test]
fn builder_interns_strings_files_and_locations() {
    let mut builder = DebugInfoBuilder::new();
    let a = builder.add_string("a");
    let b = builder.add_string("b");
    let a_again = builder.add_string("a");
    assert_eq!(a, DebugStringIdx(0));
    assert_eq!(b, DebugStringIdx(1));
    assert_eq!(a_again, a);
    assert_eq!(builder.debug_info().strings().len(), 2);

    let f = builder.add_file("file:///src/lib.masm", None);
    let f_again = builder.add_file("/src/lib.masm", None);
    assert_eq!(f, f_again);
    let f_checked = builder.add_file("/src/lib.masm", Some([7u8; 32]));
    assert_ne!(f, f_checked);
    let info = builder.debug_info();
    assert_eq!(info.get_string(info.get_file(f).unwrap().path_idx).unwrap(), "/src/lib.masm");
    assert_eq!(info.get_file(f).unwrap().checksum(), None);
    assert_eq!(info.get_file(f_checked).unwrap().checksum(), Some(&[7u8; 32]));

    let l1 = builder.add_location(Location::new("/src/lib.masm".to_string(), 1, 5));
    let l2 = builder.add_location(Location::new("file:///src/lib.masm".to_string(), 1, 5));
    let l3 = builder.add_location(Location::new("/src/lib.masm".to_string(), 2, 5));
    assert_eq!(l1, l2);
    assert_ne!(l1, l3);
    let info = builder.debug_info();
    assert_eq!(info.locations()[l1.0 as usize], DebugLoc { file_idx: f, start: 1, end: 5 });
    let resolved = info.get_location(l3).unwrap();
    assert_eq!((resolved.uri.as_str(), resolved.start, resolved.end), ("/src/lib.masm", 2, 5));
    assert_eq!(info.get_file_index_by_uri("file:///src/lib.masm"), Some(f));
    assert_eq!(info.get_file_index_by_uri("/src/other.masm"), None);
}

#[test]
fn builder_refuses_a_node_with_a_missing_child() {
    let mut builder = DebugInfoBuilder::new();
    let first = builder.add_node(source_node(MastNodeId::new_unchecked(0), Vec::new(), 0, 1)).unwrap();
    let err = builder
        .add_node(source_node(MastNodeId::new_unchecked(1), vec![first, DebugSourceNodeId(5), DebugSourceNodeId(6)], 0, 1))
        .unwrap_err();
    assert_eq!(err, SourceGraphLookupError::MissingSourceNode { source_node: DebugSourceNodeId(5) });
    assert_eq!(builder.debug_info().nodes().len(), 1);
    let second = builder.add_node(source_node(MastNodeId::new_unchecked(1), vec![first], 0, 1)).unwrap();
    assert_eq!(second, DebugSourceNodeId(1));
}

#[test]
fn file_info_checksum_is_absent_when_empty() {
    let f = DebugFileInfo::new(DebugStringIdx(3));
    assert_eq!(f.path_idx, DebugStringIdx(3));
    assert_eq!(f.checksum(), None);
    let g = f.with_checksum([1u8; 32]);
    assert_eq!(g.checksum(), Some(&[1u8; 32]));
    assert_eq!(g.with_checksum([0u8; 32]).checksum(), None);
}

#[test]
fn function_info_builders_set_their_field() {
    let f = FunctionInfo::new(None, DebugStringIdx(1), DebugFileIdx(2), 10, 4, [1, 2, 3, 4]);
    assert_eq!(f.linkage_name_idx, None);
    assert_eq!(f.type_idx, None);
    let g = f.with_linkage_name(DebugStringIdx(5)).with_type(DebugTypeIdx(6));
    assert_eq!(g.linkage_name_idx, Some(DebugStringIdx(5)));
    assert_eq!(g.type_idx, Some(DebugTypeIdx(6)));
    assert_eq!((g.line, g.column, g.mast_root), (10, 4, [1, 2, 3, 4]));
}

#[test]
fn merge_of_nothing_is_empty_debug_info() {
    let root_map = MastForestRootMap::new(Vec::new());
    let merged = DebugInfo::merge_source_debug(&[], &root_map).unwrap();
    assert_eq!(merged.version(), DEBUG_INFO_VERSION);
    assert!(merged.nodes().is_empty() && merged.strings().is_empty());
}

#[test]
fn merge_keeps_the_base_and_appends_later_inputs() {
    let debug_a = debug_info_for_block(MastNodeId::new_unchecked(0), "alias_a", "x");
    let debug_b = debug_info_for_block(MastNodeId::new_unchecked(0), "alias_b", "y");
    let root_map = MastForestRootMap::new(vec![vec![Some(MastNodeId::new_unchecked(3))], vec![Some(MastNodeId::new_unchecked(3))]]);
    let merged = DebugInfo::merge_source_debug(&[(0, &debug_a), (1, &debug_b)], &root_map).unwrap();
    // The base's tables are kept; its execution node is remapped like the others'.
    assert_eq!(merged.nodes()[0].exec_node, MastNodeId::new_unchecked(3));
    assert_eq!(merged.nodes()[1].exec_node, MastNodeId::new_unchecked(3));
    assert_eq!(merged.roots(), &[DebugSourceNodeId(0), DebugSourceNodeId(1)]);
    assert_eq!(merged.functions().len(), 2);
    assert_eq!(merged.functions()[1].source_node, Some(DebugSourceNodeId(1)));
    // "add" is shared; the other strings of the second input are new.
    assert_eq!(merged.strings().len(), debug_a.strings().len() + 4);
    assert_eq!(merged.inline_calls_for_source_node(DebugSourceNodeId(1))[0].callee_idx, DebugFunctionIdx(1));
}

#[test]
fn merge_reports_the_first_input_with_a_dangling_row() {
    let debug_a = debug_info_for_block(MastNodeId::new_unchecked(0), "alias_a", "x");
    let debug_b = debug_info_for_block(MastNodeId::new_unchecked(0), "alias_b", "y");
    // Forest 1 has no mapping for its block.
    let root_map = MastForestRootMap::new(vec![vec![Some(MastNodeId::new_unchecked(0))], vec![None]]);
    let err = DebugInfo::merge_source_debug(&[(0, &debug_a), (1, &debug_b)], &root_map).unwrap_err();
    assert_eq!(err, PackageDebugInfoMergeError::MissingExecNodeMapping { forest_index: 1, exec_node: MastNodeId::new_unchecked(0) });

    // A node row naming a string the input does not have.
    let mut builder = DebugInfoBuilder::new();
    let mut node = source_node(MastNodeId::new_unchecked(0), Vec::new(), 0, 1);
    node.asm_ops.push(DebugSourceAsmOp {
        op_idx: 0,
        location_idx: None,
        context_name_idx: DebugStringIdx(9),
        op_name_idx: DebugStringIdx(9),
        num_cycles: 1,
    });
    builder.add_node(node).unwrap();
    let bad = builder.build();
    let root_map = MastForestRootMap::new(vec![vec![Some(MastNodeId::new_unchecked(0))], vec![Some(MastNodeId::new_unchecked(0))], vec![Some(MastNodeId::new_unchecked(0))]]);
    let err = DebugInfo::merge_source_debug(&[(0, &debug_a), (2, &debug_b), (1, &bad)], &root_map).unwrap_err();
    assert_eq!(err, DebugInfoMergeError::MissingSourceStringMapping { forest_index: 1, string_idx: DebugStringIdx(9) });
}

#[test]
fn merge_reports_dangling_types_and_inline_calls() {
    let mut builder = DebugInfoBuilder::new();
    builder.add_type(DebugTypeInfo::Pointer { pointee_type_idx: DebugTypeIdx(0) });
    let bad_type = builder.build();
    let root_map = MastForestRootMap::new(vec![vec![], vec![]]);
    let base = DebugInfo::new();
    let err = DebugInfo::merge_source_debug(&[(0, &base), (1, &bad_type)], &root_map).unwrap_err();
    assert_eq!(err, DebugInfoMergeError::MissingTypeMapping { forest_index: 1, type_idx: DebugTypeIdx(0) });

    let mut builder = DebugInfoBuilder::new();
    let mut node = source_node(MastNodeId::new_unchecked(0), Vec::new(), 0, 1);
    node.inline_calls.push(DebugSourceInlineCall { op_idx: 0, callee_idx: DebugFunctionIdx(4), loc_idx: DebugLocIdx(0) });
    builder.add_node(node).unwrap();
    let bad_call = builder.build();
    let root_map = MastForestRootMap::new(vec![vec![], vec![Some(MastNodeId::new_unchecked(0))]]);
    let err = DebugInfo::merge_source_debug(&[(0, &base), (1, &bad_call)], &root_map).unwrap_err();
    assert_eq!(err, DebugInfoMergeError::MissingFunctionMapping { forest_index: 1, function_idx: DebugFunctionIdx(4) });
}

#[test]
fn resolved_rows_carry_strings_and_locations() {
    let mut builder = DebugInfoBuilder::new();
    let loc = builder.add_location(Location::new("a.masm".to_string(), 3, 4));
    let ctx = builder.add_string("proc");
    let op = builder.add_string("mul");
    let name = builder.add_string("v");
    let info = builder.build();
    let row = DebugSourceAsmOp { op_idx: 0, location_idx: Some(loc), context_name_idx: ctx, op_name_idx: op, num_cycles: 2 };
    let op_info = row.to_assembly_op(&info);
    assert_eq!((op_info.context_name.as_str(), op_info.op.as_str(), op_info.num_cycles), ("proc", "mul", 2));
    let l = op_info.location.unwrap();
    assert_eq!((l.uri.as_str(), l.start, l.end), ("a.masm", 3, 4));

    let mut node = source_node(MastNodeId::new_unchecked(0), Vec::new(), 0, 1);
    node.debug_vars.push(DebugSourceVar {
        op_idx: 1,
        name_idx: name,
        type_id: Some(2),
        arg_idx: Some(1),
        location_idx: Some(loc),
        value_location: DebugVarLocation::Memory(40),
    });
    node.debug_vars.push(DebugSourceVar {
        op_idx: 2,
        name_idx: name,
        type_id: None,
        arg_idx: None,
        location_idx: None,
        value_location: DebugVarLocation::Const(9),
    });
    let vars = node.debug_infos_for_operation(1, &info);
    assert_eq!(vars.len(), 1);
    assert_eq!(vars[0].name, "v");
    assert_eq!(vars[0].value_location, DebugVarLocation::Memory(40));
    assert_eq!((vars[0].arg_index, vars[0].type_id), (Some(1), Some(2)));
    assert_eq!(vars[0].location.as_ref().unwrap().start, 3);
    assert!(node.debug_infos_for_operation(5, &info).is_empty());
}

#[test]
fn trim_file_paths_rewrites_each_path_once() {
    let mut builder = DebugInfoBuilder::new();
    let f = builder.add_file("/work/src/a.masm", None);
    let g = builder.add_file("lib/b.masm", None);
    let mut info = *builder.build();
    info.trim_file_paths(|p: &str| p.strip_prefix("/work/").map(|s| s.to_string()));
    assert_eq!(info.get_string(info.get_file(f).unwrap().path_idx).unwrap(), "src/a.masm");
    assert_eq!(info.get_string(info.get_file(g).unwrap().path_idx).unwrap(), "lib/b.masm");
}

#[test]
fn error_message_gives_the_first_message_of_a_code() {
    let mut builder = DebugInfoBuilder::new();
    builder.add_error_message(7, "stack underflow");
    builder.add_error_message(7, "ignored");
    builder.add_error_message(8, "overflow");
    let d = builder.build();
    assert_eq!(d.error_messages().len(), 2);
    assert_eq!(d.error_message(7).unwrap(), "stack underflow");
    assert_eq!(d.error_message(8).unwrap(), "overflow");
    assert_eq!(d.error_message(9), None);
    assert_eq!(DebugInfo::new().error_message(7), None);
}

#[test]
fn filesystem_path_keeps_bare_and_file_paths_only() {
    assert_eq!(filesystem_path("src/lib.masm"), Some("src/lib.masm".to_string()));
    assert_eq!(filesystem_path("/abs/lib.masm"), Some("/abs/lib.masm".to_string()));
    assert_eq!(filesystem_path("file:///abs/lib.masm"), Some("/abs/lib.masm".to_string()));
    assert_eq!(filesystem_path("https://example.com/lib.masm"), None);
    assert_eq!(filesystem_path("std:math"), None);
    assert_eq!(filesystem_path("dir/a:b"), Some("dir/a:b".to_string()));
    assert_eq!(filesystem_path(":x"), Some(":x".to_string()));
}

#[test]
fn merge_of_one_input_gives_it_back() {
    let debug_a = debug_info_for_block(MastNodeId::new_unchecked(0), "alias_a", "x");
    let root_map = MastForestRootMap::new(vec![vec![], vec![], vec![], vec![Some(MastNodeId::new_unchecked(9))]]);
    let merged = DebugInfo::merge_source_debug(&[(3, &debug_a)], &root_map).unwrap();
    assert_eq!(merged.strings(), debug_a.strings());
    assert_eq!(merged.files(), debug_a.files());
    assert_eq!(merged.locations(), debug_a.locations());
    assert_eq!(merged.functions(), debug_a.functions());
    assert_eq!(merged.roots(), debug_a.roots());
    assert_eq!(merged.error_messages(), debug_a.error_messages());
    assert_eq!(merged.nodes().len(), 1);
    assert_eq!(merged.nodes()[0].exec_node, MastNodeId::new_unchecked(9));
    assert_eq!(merged.nodes()[0].asm_ops, debug_a.nodes()[0].asm_ops);

    // Without a mapping for the base's node the merge fails on the base's forest.
    let empty_map = MastForestRootMap::new(Vec::new());
    assert_eq!(
        DebugInfo::merge_source_debug(&[(3, &debug_a)], &empty_map).unwrap_err(),
        DebugInfoMergeError::MissingExecNodeMapping { forest_index: 3, exec_node: MastNodeId::new_unchecked(0) },
    );
}

#[test]
fn trim_file_paths_applies_the_trimmer_once_per_file() {
    // Two files share one path string (different checksums): the trimmer runs on it twice.
    let mut builder = DebugInfoBuilder::new();
    let f = builder.add_file("/a/b/c.masm", None);
    let g = builder.add_file("/a/b/c.masm", Some([3u8; 32]));
    let mut info = *builder.build();
    assert_eq!(info.get_file(f).unwrap().path_idx, info.get_file(g).unwrap().path_idx);
    // Each application drops the first path component.
    info.trim_file_paths(|p: &str| p.split_once('/').map(|(_, rest)| rest.to_string()));
    assert_eq!(info.get_string(info.get_file(f).unwrap().path_idx).unwrap(), "b/c.masm");
}
