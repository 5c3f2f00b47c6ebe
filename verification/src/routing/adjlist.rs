//! A route graph written out as an adjacency list: its nodes with their
//! data, and its edges. This is the form in which route graphs are
//! serialized.

use vstd::prelude::*;

use crate::routing::effect::EffectMeta;
use crate::routing::routegraph::{DagHandle, Edge, NodeHandle};

verus! {

/// What a node of a route graph holds: an effect, or a nested graph.
#[derive(Clone, Debug)]
pub enum NodeData {
    Effect(EffectMeta),
    Graph(DagHandle),
}

/// A route graph written out as its nodes and its edges.
#[derive(Clone, Debug)]
pub struct AdjList {
    pub nodes: Vec<(NodeHandle, NodeData)>,
    pub edges: Vec<Edge>,
}

} // verus!
