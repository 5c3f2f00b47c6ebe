//! The passthrough effect.

use vstd::prelude::*;
use vstd::string::StringExecFns;

use crate::routing::adjlist::{AdjList, NodeData};
use crate::routing::effect::{EffectDesc, EffectId, EffectInput, EffectMeta, EffectOutput};
use crate::routing::routegraph::{DagHandle, Edge, EdgeWeight, NodeHandle};

verus! {

/// The single edge of the passthrough procedure: input slot 0 of the
/// top-level graph to its output slot 0.
pub open spec fn passthrough_edge() -> Edge {
    Edge {
        from: NodeHandle { dag: DagHandle { id: 0 }, node: None },
        to: NodeHandle { dag: DagHandle { id: 0 }, node: None },
        weight: EdgeWeight { from_slot: 0, to_slot: 0 },
    }
}

/// `d` describes the passthrough effect: named "Passthrough", no digest, one
/// input slot 0 named "source" on channel 0, one output slot 0 named "result"
/// on channel 0, and a procedure without nodes whose only edge carries input
/// slot 0 to output slot 0.
pub open spec fn is_passthrough_desc(d: EffectDesc) -> bool {
    let meta = d.spec_meta();
    &&& meta.spec_name() == "Passthrough"@
    &&& meta.spec_sha256() is None
    &&& meta.spec_inputs().len() == 1
    &&& meta.spec_inputs()[0].0 == 0
    &&& meta.spec_inputs()[0].1.spec_name() == "source"@
    &&& meta.spec_inputs()[0].1.spec_channel() == 0
    &&& meta.spec_outputs().len() == 1
    &&& meta.spec_outputs()[0].0 == 0
    &&& meta.spec_outputs()[0].1.spec_name() == "result"@
    &&& meta.spec_outputs()[0].1.spec_channel() == 0
    &&& d.spec_procedure().nodes@.len() == 0
    &&& d.spec_procedure().edges@ == seq![passthrough_edge()]
}

/// Get the EffectDesc for the Passthrough effect.
/// The passthrough effect takes all data input to slot 0 and sends it to
/// output slot 0.
pub fn get_desc() -> (d: EffectDesc)
    ensures
        is_passthrough_desc(d),
{
    let edge = Edge::new_from_null(NodeHandle::toplevel(), EdgeWeight::new(0, 0));
    let nodes: Vec<(NodeHandle, NodeData)> = Vec::new();
    let mut edges: Vec<Edge> = Vec::new();
    edges.push(edge);

    let list = AdjList { nodes, edges };
    let mut inputs: Vec<(u32, EffectInput)> = Vec::new();
    inputs.push((0, EffectInput::new(String::from_str("source"), 0)));
    let mut outputs: Vec<(u32, EffectOutput)> = Vec::new();
    outputs.push((0, EffectOutput::new(String::from_str("result"), 0)));
    let d = EffectDesc::new(
        EffectMeta::new(String::from_str("Passthrough"), None, inputs, outputs),
        list,
    );
    assert(d.spec_procedure().edges@ =~= seq![passthrough_edge()]);
    d
}

/// The identity of the Passthrough effect.
pub fn get_id() -> (id: EffectId)
    ensures
        id.spec_name() == "Passthrough"@,
        id.spec_sha256() is None,
{
    get_desc().id()
}

} // verus!
