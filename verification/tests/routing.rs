use sparkle::routing::adjlist::{AdjList, NodeData};
use sparkle::routing::effect::{EffectDesc, EffectId, EffectInput, EffectMeta, EffectOutput};
use sparkle::routing::routegraph::{DagHandle, Edge, EdgeWeight, NodeHandle};
use sparkle::stdfx::passthrough::{get_desc, get_id};

#[test]
fn toplevel_handle_has_no_node() {
    let h = NodeHandle::toplevel();
    assert!(h.is_toplevel());
    assert_eq!(*h.node_handle(), None);
    assert_eq!(h.dag_handle().id(), 0);
    assert_eq!(DagHandle::toplevel(), DagHandle::new(0));
}

#[test]
fn node_handle_with_node_is_not_toplevel() {
    let h = NodeHandle::new(DagHandle::new(3), Some(7));
    assert!(!h.is_toplevel());
    assert_eq!(*h.node_handle(), Some(7));
    assert_eq!(h.dag_handle().id(), 3);
}

#[test]
fn edge_from_null_starts_at_the_graph_inputs() {
    let to = NodeHandle::new(DagHandle::new(2), Some(5));
    let e = Edge::new_from_null(to, EdgeWeight::new(4, 9));
    assert_eq!(e.to_full(), to);
    assert_eq!(e.from_full(), NodeHandle::new(DagHandle::new(2), None));
    assert!(e.from_full().is_toplevel());
    assert_eq!(e.from_slot(), 4);
    assert_eq!(e.to_slot(), 9);
    assert_eq!(e.weight(), EdgeWeight::new(4, 9));
}

#[test]
fn edge_new_keeps_its_parts() {
    let a = NodeHandle::new(DagHandle::new(0), Some(1));
    let b = NodeHandle::new(DagHandle::new(0), Some(2));
    let e = Edge::new(a, b, EdgeWeight::new(1, 2));
    assert_eq!(e.from_full(), a);
    assert_eq!(e.to_full(), b);
    assert_eq!(e.weight().from_slot(), 1);
    assert_eq!(e.weight().to_slot(), 2);
}

#[test]
fn effect_meta_id_copies_name_and_digest() {
    let meta = EffectMeta::new(
        "Gain".to_string(),
        Some("abcd".to_string()),
        vec![(0, EffectInput::new("in".to_string(), 1))],
        vec![(0, EffectOutput::new("out".to_string(), 2))],
    );
    let id = meta.id();
    assert_eq!(id.name(), "Gain");
    assert_eq!(id.sha256, Some("abcd".to_string()));
    assert_eq!(meta.inputs()[0].1.name(), "in");
    assert_eq!(meta.inputs()[0].1.channel(), 1);
    assert_eq!(meta.outputs()[0].1.name(), "out");
    assert_eq!(meta.outputs()[0].1.channel(), 2);
    let desc = EffectDesc::new(meta, AdjList { nodes: vec![], edges: vec![] });
    assert_eq!(desc.id().name(), "Gain");
    let id2 = EffectId::new("x".to_string(), None);
    assert_eq!(id2.name(), "x");
    assert_eq!(id2.sha256, None);
}

#[test]
fn adjlist_holds_nodes_and_edges() {
    let h = NodeHandle::new(DagHandle::new(0), Some(1));
    let list = AdjList {
        nodes: vec![(h, NodeData::Graph(DagHandle::new(4)))],
        edges: vec![Edge::new_from_null(h, EdgeWeight::new(0, 0))],
    };
    assert_eq!(list.nodes.len(), 1);
    match &list.nodes[0].1 {
        NodeData::Graph(d) => assert_eq!(d.id(), 4),
        NodeData::Effect(_) => panic!("expected a nested graph"),
    }
    assert_eq!(list.edges[0].to_full(), h);
}

#[test]
fn passthrough_desc_routes_input_zero_to_output_zero() {
    let d = get_desc();
    let meta = d.meta();
    assert_eq!(meta.name(), "Passthrough");
    assert_eq!(meta.sha256, None);
    assert_eq!(meta.inputs().len(), 1);
    assert_eq!(meta.inputs()[0].0, 0);
    assert_eq!(meta.inputs()[0].1.name(), "source");
    assert_eq!(meta.inputs()[0].1.channel(), 0);
    assert_eq!(meta.outputs().len(), 1);
    assert_eq!(meta.outputs()[0].0, 0);
    assert_eq!(meta.outputs()[0].1.name(), "result");
    assert_eq!(meta.outputs()[0].1.channel(), 0);
    let proc_ = d.procedure();
    assert!(proc_.nodes.is_empty());
    assert_eq!(
        proc_.edges,
        vec![Edge::new(NodeHandle::toplevel(), NodeHandle::toplevel(), EdgeWeight::new(0, 0))]
    );
}

#[test]
fn passthrough_id_is_named_passthrough() {
    let id = get_id();
    assert_eq!(id.name(), "Passthrough");
    assert_eq!(id.sha256, None);
}
