//! The structural walker: hierarchy reconstruction, sentinel records,
//! monotonic attribute ranges, and fatal structural errors.
use fbx_tree_view::attribute::RawAttr;
use fbx_tree_view::diag::StreamError;
use fbx_tree_view::walker::{FbxEvent, StructuralWalker, WalkPhase};

#[test]
fn end_node_without_open_node_is_a_structural_error() {
    let mut w = StructuralWalker::new();
    let r = w.step(FbxEvent::EndNode);
    let err = r.expect_err("an unmatched node end must fail");
    assert_eq!(err.causes.len(), 1);
    assert_eq!(err.causes[0].message, "end of node event with no open node");
    assert!(w.is_finished());
    // no tree record besides the already-appended header sentinel
    assert_eq!(w.nodes().len(), 1);
    assert_eq!(w.nodes()[0].name, "(FBX header)");
    assert_eq!(w.nodes()[0].attr_count, None);
    assert_eq!(w.store().len(), 0);
}

#[test]
fn end_to_end_scenario_builds_the_expected_tree() {
    let mut w = StructuralWalker::new();
    w.step(FbxEvent::StartNode {
        name: "Root".to_string(),
        attrs: vec![Ok(RawAttr::I32(5))],
    })
    .expect("Root must open");
    w.step(FbxEvent::StartNode { name: "Child".to_string(), attrs: vec![] })
        .expect("Child must open");
    w.step(FbxEvent::EndNode).expect("Child must close");
    w.step(FbxEvent::EndNode).expect("Root must close");
    w.step(FbxEvent::EndStream { error: None }).expect("the stream must end cleanly");

    assert!(w.is_finished());
    let nodes = w.nodes();
    assert_eq!(nodes.len(), 4);
    assert_eq!(nodes[0].name, "(FBX header)");
    assert_eq!(nodes[0].attr_count, None);
    assert_eq!(nodes[0].parent, None);
    assert_eq!(nodes[1].name, "Root");
    assert_eq!(nodes[1].attr_count, Some(1));
    assert_eq!(nodes[1].attr_start, 0);
    assert_eq!(nodes[1].parent, None);
    assert_eq!(nodes[2].name, "Child");
    assert_eq!(nodes[2].attr_count, Some(0));
    assert_eq!(nodes[2].attr_start, 1);
    assert_eq!(nodes[2].parent, Some(1));
    assert_eq!(nodes[3].name, "(FBX footer)");
    assert_eq!(nodes[3].attr_count, None);

    assert_eq!(w.store().len(), 1);
    assert_eq!(w.store().get(0).type_string(), "i32");
    assert_eq!(w.store().get(0).value_string(), "5");
}

#[test]
fn attribute_decode_failure_aborts_without_committing_the_node() {
    let mut w = StructuralWalker::new();
    w.step(FbxEvent::StartNode {
        name: "Root".to_string(),
        attrs: vec![Ok(RawAttr::Bool(true))],
    })
    .expect("Root must open");
    let r = w.step(FbxEvent::StartNode {
        name: "Broken".to_string(),
        attrs: vec![
            Ok(RawAttr::I32(1)),
            Err(StreamError::new("array element decode failed".to_string(), None)),
            Ok(RawAttr::I32(2)),
        ],
    });
    let err = r.expect_err("the first failing attribute must abort the walk");
    assert_eq!(err.causes[0].message, "array element decode failed");
    assert!(w.is_finished());
    // the failing node and its attributes are not committed
    assert_eq!(w.nodes().len(), 2);
    assert_eq!(w.nodes()[1].name, "Root");
    assert_eq!(w.store().len(), 1);
}

#[test]
fn stream_end_with_error_still_appends_the_footer() {
    let mut w = StructuralWalker::new();
    let r = w.step(FbxEvent::EndStream {
        error: Some(StreamError::new("broken footer".to_string(), None)),
    });
    let err = r.expect_err("the terminal error must pass through");
    assert_eq!(err.causes[0].message, "broken footer");
    assert!(w.is_finished());
    assert_eq!(w.nodes().len(), 2);
    assert_eq!(w.nodes()[0].name, "(FBX header)");
    assert_eq!(w.nodes()[1].name, "(FBX footer)");
}

#[test]
fn nested_nodes_get_monotonic_disjoint_ranges() {
    let mut w = StructuralWalker::new();
    w.step(FbxEvent::StartNode {
        name: "A".to_string(),
        attrs: vec![Ok(RawAttr::I32(1)), Ok(RawAttr::I32(2))],
    })
    .expect("A must open");
    w.step(FbxEvent::StartNode {
        name: "B".to_string(),
        attrs: vec![Ok(RawAttr::I32(3))],
    })
    .expect("B must open");
    w.step(FbxEvent::EndNode).expect("B must close");
    w.step(FbxEvent::StartNode {
        name: "C".to_string(),
        attrs: vec![Ok(RawAttr::I32(4)), Ok(RawAttr::I32(5))],
    })
    .expect("C must open");
    w.step(FbxEvent::EndNode).expect("C must close");
    w.step(FbxEvent::EndNode).expect("A must close");
    w.step(FbxEvent::EndStream { error: None }).expect("the stream must end cleanly");

    let nodes = w.nodes();
    // A at [0, 2), B at [2, 3), C at [3, 5): disjoint and covering
    assert_eq!((nodes[1].attr_start, nodes[1].attr_count), (0, Some(2)));
    assert_eq!((nodes[2].attr_start, nodes[2].attr_count), (2, Some(1)));
    assert_eq!((nodes[3].attr_start, nodes[3].attr_count), (3, Some(2)));
    assert_eq!(nodes[2].parent, Some(1));
    assert_eq!(nodes[3].parent, Some(1));
    assert_eq!(w.store().len(), 5);
    let total: usize = nodes.iter().map(|n| n.attr_count.unwrap_or(0)).sum();
    assert_eq!(total, w.store().len());
}

#[test]
fn phases_move_from_awaiting_header_to_finished() {
    let mut w = StructuralWalker::new();
    assert_eq!(w.phase(), WalkPhase::AwaitingHeader);
    assert_eq!(w.nodes().len(), 0);
    w.step(FbxEvent::StartNode { name: "N".to_string(), attrs: vec![] })
        .expect("N must open");
    assert_eq!(w.phase(), WalkPhase::Walking);
    assert_eq!(w.open_depth(), 1);
    w.step(FbxEvent::EndNode).expect("N must close");
    assert_eq!(w.open_depth(), 0);
    w.step(FbxEvent::EndStream { error: None }).expect("the stream must end cleanly");
    assert_eq!(w.phase(), WalkPhase::Finished);
}

#[test]
fn show_attrs_renders_one_node_range() {
    let mut w = StructuralWalker::new();
    w.step(FbxEvent::StartNode {
        name: "Geometry".to_string(),
        attrs: vec![
            Ok(RawAttr::I64(-8)),
            Ok(RawAttr::Text(b"mesh".to_vec())),
            Ok(RawAttr::Binary(vec![0x0f])),
        ],
    })
    .expect("Geometry must open");
    let node = &w.nodes()[1];
    let rows = w.store().show_attrs(node.attr_start, node.attr_count.unwrap());
    assert_eq!(rows.len(), 3);
    assert_eq!(rows[0], ("i64".to_string(), "-8".to_string()));
    assert_eq!(rows[1], ("String".to_string(), "mesh".to_string()));
    assert_eq!(rows[2], ("[u8]".to_string(), "0f, ".to_string()));
}
