//! Handles that name nodes of a route graph, and the weighted edges between them.

use vstd::prelude::*;

verus! {

/// Names one route graph (a DAG of effects). The top-level graph has id 0.
#[derive(Clone, Copy, Debug, PartialEq, Eq, Structural, Hash)]
pub struct DagHandle {
    pub id: u32,
}

impl DagHandle {
    pub open spec fn spec_id(self) -> u32 {
        self.id
    }

    pub fn new(id: u32) -> (h: DagHandle)
        ensures
            h.spec_id() == id,
    {
        DagHandle { id }
    }

    /// The handle of the top-level graph.
    pub fn toplevel() -> (h: DagHandle)
        ensures
            h.spec_id() == 0,
    {
        DagHandle { id: 0 }
    }

    pub fn id(&self) -> (r: u32)
        ensures
            r == self.spec_id(),
    {
        self.id
    }
}

/// Names a node inside a route graph. A handle without a node id names the
/// graph itself: as the source of an edge it stands for the graph's inputs,
/// as the destination of an edge for the graph's outputs.
#[derive(Clone, Copy, Debug, PartialEq, Eq, Structural, Hash)]
pub struct NodeHandle {
    pub dag: DagHandle,
    pub node: Option<u32>,
}

impl NodeHandle {
    pub open spec fn spec_dag(self) -> DagHandle {
        self.dag
    }

    pub open spec fn spec_node(self) -> Option<u32> {
        self.node
    }

    /// Whether this handle names the graph's own inputs/outputs rather than a node.
    pub open spec fn spec_is_toplevel(self) -> bool {
        self.node is None
    }

    pub fn new(dag: DagHandle, node: Option<u32>) -> (h: NodeHandle)
        ensures
            h.spec_dag() == dag,
            h.spec_node() == node,
    {
        NodeHandle { dag, node }
    }

    /// The handle of the top-level graph's own inputs and outputs.
    pub fn toplevel() -> (h: NodeHandle)
        ensures
            h.spec_dag().spec_id() == 0,
            h.spec_node() is None,
    {
        NodeHandle { dag: DagHandle::toplevel(), node: None }
    }

    pub fn is_toplevel(&self) -> (r: bool)
        ensures
            r == self.spec_is_toplevel(),
    {
        self.node.is_none()
    }

    pub fn dag_handle(&self) -> (r: DagHandle)
        ensures
            r == self.spec_dag(),
    {
        self.dag
    }

    pub fn node_handle(&self) -> (r: &Option<u32>)
        ensures
            *r == self.spec_node(),
    {
        &self.node
    }
}

/// The slots an edge connects: output slot `from_slot` of the source to
/// input slot `to_slot` of the destination.
#[derive(Clone, Copy, Debug, PartialEq, Eq, Structural, Hash)]
pub struct EdgeWeight {
    pub from_slot: u32,
    pub to_slot: u32,
}

impl EdgeWeight {
    pub open spec fn spec_from_slot(self) -> u32 {
        self.from_slot
    }

    pub open spec fn spec_to_slot(self) -> u32 {
        self.to_slot
    }

    pub fn new(from_slot: u32, to_slot: u32) -> (w: EdgeWeight)
        ensures
            w.spec_from_slot() == from_slot,
            w.spec_to_slot() == to_slot,
    {
        EdgeWeight { from_slot, to_slot }
    }

    pub fn from_slot(&self) -> (r: u32)
        ensures
            r == self.spec_from_slot(),
    {
        self.from_slot
    }

    pub fn to_slot(&self) -> (r: u32)
        ensures
            r == self.spec_to_slot(),
    {
        self.to_slot
    }
}

/// A directed edge carrying one slot of `from` into one slot of `to`.
#[derive(Clone, Copy, Debug, PartialEq, Eq, Structural, Hash)]
pub struct Edge {
    pub from: NodeHandle,
    pub to: NodeHandle,
    pub weight: EdgeWeight,
}

impl Edge {
    pub open spec fn spec_from(self) -> NodeHandle {
        self.from
    }

    pub open spec fn spec_to(self) -> NodeHandle {
        self.to
    }

    pub open spec fn spec_weight(self) -> EdgeWeight {
        self.weight
    }

    pub open spec fn spec_from_slot(self) -> u32 {
        self.weight.from_slot
    }

    pub open spec fn spec_to_slot(self) -> u32 {
        self.weight.to_slot
    }

    pub fn new(from: NodeHandle, to: NodeHandle, weight: EdgeWeight) -> (e: Edge)
        ensures
            e.spec_from() == from,
            e.spec_to() == to,
            e.spec_weight() == weight,
    {
        Edge { from, to, weight }
    }

    /// An edge whose source is the inputs of the graph that `to` belongs to.
    pub fn new_from_null(to: NodeHandle, weight: EdgeWeight) -> (e: Edge)
        ensures
            e.spec_from() == NodeHandle::new_spec(to.spec_dag(), None),
            e.spec_to() == to,
            e.spec_weight() == weight,
    {
        Edge { from: NodeHandle { dag: to.dag, node: None }, to, weight }
    }

    pub fn from_full(&self) -> (r: NodeHandle)
        ensures
            r == self.spec_from(),
    {
        self.from
    }

    pub fn to_full(&self) -> (r: NodeHandle)
        ensures
            r == self.spec_to(),
    {
        self.to
    }

    pub fn weight(&self) -> (r: EdgeWeight)
        ensures
            r == self.spec_weight(),
    {
        self.weight
    }

    pub fn from_slot(&self) -> (r: u32)
        ensures
            r == self.spec_from_slot(),
    {
        self.weight.from_slot
    }

    pub fn to_slot(&self) -> (r: u32)
        ensures
            r == self.spec_to_slot(),
    {
        self.weight.to_slot
    }
}

impl NodeHandle {
    /// The handle with the given parts, in specifications.
    pub open spec fn new_spec(dag: DagHandle, node: Option<u32>) -> NodeHandle {
        NodeHandle { dag, node }
    }
}

} // verus!
