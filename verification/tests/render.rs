use sparkle::render::sparkle::{output_fn_name, MyNodeData, SampleSource, SparkleRenderer};
use sparkle::routing::effect::EffectId;
use sparkle::routing::routegraph::{DagHandle, Edge, EdgeWeight, NodeHandle};
use sparkle::stdfx::passthrough::get_desc;

type Renderer = SparkleRenderer<f32, Vec<f32>>;

fn node(n: u32) -> NodeHandle {
    NodeHandle::new(DagHandle::new(0), Some(n))
}

fn top() -> NodeHandle {
    NodeHandle::toplevel()
}

fn func(name: &str) -> MyNodeData<Vec<f32>> {
    MyNodeData::LlvmFunc(name.to_string())
}

#[test]
fn new_renderer_is_empty() {
    let r = Renderer::new(0.0);
    assert_eq!(r.head(), 0);
    assert!(r.output_edges().is_empty());
    assert!(r.inputs().is_empty());
    assert!(!r.has_node(&node(1)));
    assert_eq!(r.silence(), 0.0);
}

#[test]
fn add_node_then_lookup() {
    let mut r = Renderer::new(0.0);
    r.on_add_node(&node(1), func("a_get_output"));
    assert!(r.has_node(&node(1)));
    let n = r.node(&node(1)).unwrap();
    assert_eq!(n.data, func("a_get_output"));
    assert!(n.inbound.is_empty());
    assert!(r.node(&node(2)).is_none());
}

#[test]
fn add_node_replaces_existing() {
    let mut r = Renderer::new(0.0);
    r.on_add_node(&node(1), func("a"));
    r.on_add_edge(&Edge::new_from_null(node(1), EdgeWeight::new(0, 0)));
    r.on_add_node(&node(1), MyNodeData::Buffer(vec![1.0]));
    let n = r.node(&node(1)).unwrap();
    assert_eq!(n.data, MyNodeData::Buffer(vec![1.0]));
    assert!(n.inbound.is_empty());
}

#[test]
fn del_node_removes_only_that_node() {
    let mut r = Renderer::new(0.0);
    r.on_add_node(&node(1), func("a"));
    r.on_add_node(&node(2), func("b"));
    r.on_del_node(&node(1));
    assert!(!r.has_node(&node(1)));
    assert!(r.has_node(&node(2)));
    // deleting a missing node does nothing
    r.on_del_node(&node(7));
    assert!(r.has_node(&node(2)));
}

#[test]
fn add_edge_to_output_pads_with_empty_slots() {
    let mut r = Renderer::new(0.0);
    let e = Edge::new_from_null(top(), EdgeWeight::new(1, 3));
    r.on_add_edge(&e);
    assert_eq!(r.output_edges().clone(), vec![None, None, None, Some(e)]);
}

#[test]
fn add_edge_to_node_fills_its_inbound_slot() {
    let mut r = Renderer::new(0.0);
    r.on_add_node(&node(4), func("f"));
    let e = Edge::new(node(9), node(4), EdgeWeight::new(0, 1));
    r.on_add_edge(&e);
    assert_eq!(r.node(&node(4)).unwrap().inbound.clone(), vec![None, Some(e)]);
    assert!(r.output_edges().is_empty());
}

#[test]
fn add_edge_overwrites_slot_and_keeps_others() {
    let mut r = Renderer::new(0.0);
    let e0 = Edge::new_from_null(top(), EdgeWeight::new(0, 0));
    let e1 = Edge::new_from_null(top(), EdgeWeight::new(1, 1));
    let e1b = Edge::new_from_null(top(), EdgeWeight::new(2, 1));
    r.on_add_edge(&e0);
    r.on_add_edge(&e1);
    r.on_add_edge(&e1b);
    assert_eq!(r.output_edges().clone(), vec![Some(e0), Some(e1b)]);
}

#[test]
fn del_edge_undoes_add_edge() {
    let mut r = Renderer::new(0.0);
    r.on_add_node(&node(1), func("f"));
    let e = Edge::new_from_null(node(1), EdgeWeight::new(0, 2));
    r.on_add_edge(&e);
    r.on_del_edge(&e);
    assert_eq!(r.node(&node(1)).unwrap().inbound.clone(), vec![None, None, None]);
    // deleting an edge whose slot does not exist does nothing
    let far = Edge::new_from_null(top(), EdgeWeight::new(0, 5));
    r.on_del_edge(&far);
    assert!(r.output_edges().is_empty());
}

#[test]
fn input_value_out_of_range_is_silence() {
    let mut r = Renderer::new(-1.0);
    r.fill_inputs(0, 2, 2, &vec![vec![0.5, 0.25]]);
    assert_eq!(r.input_value(0, 0), 0.5);
    assert_eq!(r.input_value(1, 0), 0.25);
    assert_eq!(r.input_value(2, 0), -1.0);
    assert_eq!(r.input_value(0, 7), -1.0);
}

#[test]
fn fill_inputs_records_rows_and_pads_with_last_sample() {
    let mut r = Renderer::new(0.0);
    let rows = vec![vec![1.0, 2.0], vec![]];
    assert!(r.can_fill(0, 4, 2, &rows));
    r.fill_inputs(0, 4, 2, &rows);
    assert_eq!(r.head(), 4);
    assert_eq!(r.inputs().clone(), vec![vec![1.0, 2.0, 2.0, 2.0], vec![0.0, 0.0, 0.0, 0.0]]);
}

#[test]
fn fill_inputs_continues_history_at_head() {
    let mut r = Renderer::new(0.0);
    r.fill_inputs(0, 2, 1, &vec![vec![1.0, 2.0]]);
    r.fill_inputs(2, 3, 1, &vec![vec![5.0]]);
    assert_eq!(r.head(), 5);
    assert_eq!(r.inputs().clone(), vec![vec![1.0, 2.0, 5.0, 5.0, 5.0]]);
    // an empty row repeats the last recorded sample
    r.fill_inputs(5, 2, 1, &vec![vec![]]);
    assert_eq!(r.inputs().clone(), vec![vec![1.0, 2.0, 5.0, 5.0, 5.0, 5.0, 5.0]]);
}

#[test]
fn fill_inputs_seek_forgets_history() {
    let mut r = Renderer::new(0.0);
    r.fill_inputs(0, 2, 1, &vec![vec![1.0, 2.0]]);
    r.fill_inputs(5, 1, 1, &vec![vec![9.0]]);
    assert_eq!(r.head(), 6);
    assert_eq!(r.inputs().clone(), vec![vec![0.0, 0.0, 0.0, 0.0, 0.0, 9.0]]);
}

#[test]
fn fill_inputs_grows_rows_to_buffer_length() {
    let mut r = Renderer::new(0.0);
    // rows that get no samples in this block are only prepared up to the block start
    r.fill_inputs(3, 1, 3, &vec![]);
    assert_eq!(r.inputs().clone(), vec![vec![0.0, 0.0, 0.0], vec![0.0, 0.0, 0.0], vec![0.0, 0.0, 0.0]]);
}

#[test]
fn rows_without_samples_keep_their_history() {
    let mut r = Renderer::new(0.0);
    r.fill_inputs(0, 2, 2, &vec![vec![1.0, 2.0], vec![3.0]]);
    r.fill_inputs(2, 1, 2, &vec![vec![4.0]]);
    assert_eq!(r.inputs().clone(), vec![vec![1.0, 2.0, 4.0], vec![3.0, 3.0]]);
}

#[test]
fn can_fill_rejects_what_would_panic() {
    let mut r = Renderer::new(0.0);
    // a row longer than the block
    assert!(!r.can_fill(0, 1, 1, &vec![vec![1.0, 2.0]]));
    r.fill_inputs(0, 2, 2, &vec![vec![1.0, 2.0]]);
    // the second row was not extended, so it no longer lines up with the head
    assert!(!r.can_fill(2, 1, 2, &vec![vec![1.0], vec![1.0]]));
    // a seek resets every row, so it lines up again
    assert!(r.can_fill(7, 1, 2, &vec![vec![1.0], vec![1.0]]));
    // overflow of the block's end
    assert!(!r.can_fill(u64::MAX, 1, 0, &vec![]));
}

#[test]
fn unconnected_output_is_silent() {
    let r = Renderer::new(0.5);
    assert_eq!(r.sample_source(3, 0), SampleSource::Value(0.5));
}

#[test]
fn output_fed_by_input_reads_the_input() {
    let mut r = Renderer::new(0.0);
    r.fill_inputs(0, 3, 2, &vec![vec![0.0, 0.0, 0.0], vec![1.0, 2.0, 3.0]]);
    r.on_add_edge(&Edge::new_from_null(top(), EdgeWeight::new(1, 0)));
    assert_eq!(r.sample_source(1, 0), SampleSource::Value(2.0));
    assert_eq!(r.sample_source(1, 1), SampleSource::Value(0.0));
}

#[test]
fn output_fed_by_node_names_the_node() {
    let mut r = Renderer::new(0.0);
    r.on_add_node(&node(1), func("f"));
    r.on_add_node(&node(2), MyNodeData::Buffer(vec![1.0, 2.0]));
    r.on_add_edge(&Edge::new(node(1), top(), EdgeWeight::new(3, 0)));
    r.on_add_edge(&Edge::new(node(2), top(), EdgeWeight::new(1, 1)));
    assert_eq!(r.sample_source(8, 0), SampleSource::Function { node: node(1), time: 8, slot: 3 });
    assert_eq!(r.sample_source(8, 1), SampleSource::Buffer { node: node(2), time: 8, slot: 1 });
}

#[test]
fn inbound_source_follows_the_node_inputs() {
    let mut r = Renderer::new(0.0);
    r.fill_inputs(0, 2, 1, &vec![vec![7.0, 8.0]]);
    r.on_add_node(&node(1), func("f"));
    r.on_add_edge(&Edge::new_from_null(node(1), EdgeWeight::new(0, 1)));
    assert_eq!(r.inbound_source(&node(1), 1, 1), SampleSource::Value(8.0));
    assert_eq!(r.inbound_source(&node(1), 1, 0), SampleSource::Value(0.0));
    assert_eq!(r.inbound_source(&node(1), 1, 5), SampleSource::Value(0.0));
    let e = Edge::new_from_null(node(1), EdgeWeight::new(0, 1));
    assert_eq!(r.edge_source(0, &e), SampleSource::Value(7.0));
    let slot = Some(e);
    assert_eq!(r.maybe_edge_source(0, Some(&slot)), SampleSource::Value(7.0));
    assert_eq!(r.maybe_edge_source(0, Some(&None)), SampleSource::Value(0.0));
    assert_eq!(r.maybe_edge_source(0, None), SampleSource::Value(0.0));
}

#[test]
fn passthrough_edges_route_input_to_output() {
    let mut r = Renderer::new(0.0);
    r.fill_inputs(0, 2, 1, &vec![vec![0.25, 0.75]]);
    for e in get_desc().procedure().edges.iter() {
        r.on_add_edge(e);
    }
    assert_eq!(r.sample_source(0, 0), SampleSource::Value(0.25));
    assert_eq!(r.sample_source(1, 0), SampleSource::Value(0.75));
}

#[test]
fn output_fn_name_appends_suffix() {
    let id = EffectId::new("Delay".to_string(), None);
    assert_eq!(output_fn_name(&id), "Delay_get_output");
}

#[test]
fn graph_changes_keep_recorded_inputs() {
    let mut r = Renderer::new(0.0);
    r.fill_inputs(0, 2, 1, &vec![vec![3.0, 4.0]]);
    r.on_add_node(&node(1), func("f"));
    r.on_add_edge(&Edge::new_from_null(node(1), EdgeWeight::new(0, 0)));
    r.on_del_edge(&Edge::new_from_null(node(1), EdgeWeight::new(0, 0)));
    r.on_del_node(&node(1));
    assert_eq!(r.head(), 2);
    assert_eq!(r.inputs().clone(), vec![vec![3.0, 4.0]]);
}

#[test]
fn callback_of_function_reads_its_node_inbound_edges() {
    let mut r = Renderer::new(0.0);
    r.fill_inputs(0, 2, 2, &vec![vec![1.0, 2.0], vec![3.0, 4.0]]);
    r.on_add_node(&node(1), func("f_get_output"));
    r.on_add_edge(&Edge::new_from_null(node(1), EdgeWeight::new(1, 0)));
    r.on_add_edge(&Edge::new(node(1), top(), EdgeWeight::new(2, 0)));
    let src = r.sample_source(1, 0);
    assert_eq!(src, SampleSource::Function { node: node(1), time: 1, slot: 2 });
    assert_eq!(r.callback_source(&src, 0, 0), SampleSource::Value(3.0));
    assert_eq!(r.callback_source(&src, 1, 0), SampleSource::Value(4.0));
    assert_eq!(r.callback_source(&src, 1, 1), SampleSource::Value(0.0));
}

#[test]
fn same_node_id_in_different_graphs_are_different_nodes() {
    let mut r = Renderer::new(0.0);
    let a = NodeHandle::new(DagHandle::new(0), Some(1));
    let b = NodeHandle::new(DagHandle::new(1), Some(1));
    let c = NodeHandle::new(DagHandle::new(0), None);
    r.on_add_node(&a, func("a"));
    assert!(!r.has_node(&b));
    assert!(!r.has_node(&c));
    r.on_add_node(&b, func("b"));
    r.on_del_node(&a);
    assert!(r.has_node(&b));
    assert_eq!(r.node(&b).unwrap().data, func("b"));
}
