//! Sparkle is a JIT-based renderer: every effect node is compiled to a
//! function that, given a time and an output slot, returns a sample and asks
//! for its own inputs through a callback.
//!
//! This module holds the renderer's state that is independent of the code
//! generator: the map of nodes, the edges that feed each slot, and the
//! history of the external inputs. It answers where any sample comes from:
//! a recorded input, a compiled function of a node, or a node's buffer.

use vstd::prelude::*;
use vstd::string::StringExecFns;

use std::collections::HashMap;

use crate::routing::effect::EffectId;
use crate::routing::routegraph::{Edge, NodeHandle};

verus! {

/// What a renderer keeps for a node.
#[derive(Debug, PartialEq)]
pub enum MyNodeData<B> {
    /// The node corresponds to a compiled function with the provided name.
    LlvmFunc(String),
    /// External audio.
    Buffer(B),
}

/// A node of the renderer's graph.
#[derive(Debug)]
pub struct Node<B> {
    pub data: MyNodeData<B>,
    /// Inbound edges, indexed by slot idx.
    pub inbound: Vec<Option<Edge>>,
}

/// A node as a value: its data and the edges feeding its input slots.
pub struct NodeView<B> {
    pub data: MyNodeData<B>,
    pub inbound: Seq<Option<Edge>>,
}

impl<B> View for Node<B> {
    type V = NodeView<B>;

    open spec fn view(&self) -> NodeView<B> {
        NodeView { data: self.data, inbound: self.inbound@ }
    }
}

impl<B> Node<B> {
    pub fn new(data: MyNodeData<B>) -> (n: Node<B>)
        ensures
            n@.data == data,
            n@.inbound == Seq::<Option<Edge>>::empty(),
    {
        Node { data: data, inbound: Vec::new() }
    }
}

/// The integer key under which the node of `h` is stored: the graph id
/// times 2^33, plus 2^32 + the node id when there is a node id.
pub open spec fn handle_key(h: NodeHandle) -> u128 {
    (h.spec_dag().spec_id() * 0x2_0000_0000 + match h.spec_node() {
        Some(n) => 0x1_0000_0000 + n,
        None => 0,
    }) as u128
}

/// Different handles have different keys.
pub proof fn lemma_handle_key_injective(a: NodeHandle, b: NodeHandle)
    ensures
        handle_key(a) == handle_key(b) ==> a == b,
{
    let ta: int = match a.spec_node() {
        Some(n) => 0x1_0000_0000 + n,
        None => 0,
    };
    let tb: int = match b.spec_node() {
        Some(n) => 0x1_0000_0000 + n,
        None => 0,
    };
    let ia = a.spec_dag().spec_id() as int;
    let ib = b.spec_dag().spec_id() as int;
    assert(0 <= ia * 0x2_0000_0000 + ta < 0x1_0000_0000_0000_0000_0000_0000_0000_0000) by (
    nonlinear_arith)
        requires
            0 <= ia < 0x1_0000_0000,
            0 <= ta < 0x2_0000_0000,
    ;
    assert(0 <= ib * 0x2_0000_0000 + tb < 0x1_0000_0000_0000_0000_0000_0000_0000_0000) by (
    nonlinear_arith)
        requires
            0 <= ib < 0x1_0000_0000,
            0 <= tb < 0x2_0000_0000,
    ;
    if handle_key(a) == handle_key(b) {
        assert(ia * 0x2_0000_0000 + ta == ib * 0x2_0000_0000 + tb);
        assert(ia == ib && ta == tb) by (nonlinear_arith)
            requires
                ia * 0x2_0000_0000 + ta == ib * 0x2_0000_0000 + tb,
                0 <= ta < 0x2_0000_0000,
                0 <= tb < 0x2_0000_0000,
        ;
        assert(a.spec_dag() == b.spec_dag());
        assert(a.spec_node() == b.spec_node());
    }
}

/// The key under which the node of `h` is stored.
fn node_key(h: &NodeHandle) -> (k: u128)
    ensures
        k == handle_key(*h),
{
    let tag: u128 = match h.node {
        Some(n) => 0x1_0000_0000u128 + n as u128,
        None => 0,
    };
    let id = h.dag.id as u128;
    assert(id * 0x2_0000_0000 + tag < 0x1_0000_0000_0000_0000_0000_0000_0000_0000) by (
    nonlinear_arith)
        requires
            id < 0x1_0000_0000,
            tag < 0x2_0000_0000,
    ;
    id * 0x2_0000_0000u128 + tag
}

/// The renderer's node map: nodes keyed by handle, and the edges feeding the
/// graph's own output slots.
#[derive(Debug)]
pub struct NodeMap<B> {
    nodes: HashMap<u128, Node<B>>,
    output_edges: Vec<Option<Edge>>,
}

impl<B> NodeMap<B> {
    /// Every stored key is the key of some handle.
    pub closed spec fn wf(&self) -> bool {
        forall|k: u128| #[trigger]
            self.nodes@.contains_key(k) ==> exists|h: NodeHandle| handle_key(h) == k
    }

    pub closed spec fn nodes(&self) -> Map<NodeHandle, NodeView<B>> {
        Map::new(
            |h: NodeHandle| self.nodes@.contains_key(handle_key(h)),
            |h: NodeHandle| self.nodes@[handle_key(h)]@,
        )
    }

    pub closed spec fn outputs(&self) -> Seq<Option<Edge>> {
        self.output_edges@
    }

    pub fn new() -> (m: NodeMap<B>)
        ensures
            m.wf(),
            m.nodes() == Map::<NodeHandle, NodeView<B>>::empty(),
            m.outputs() == Seq::<Option<Edge>>::empty(),
    {
        let m = NodeMap { nodes: HashMap::new(), output_edges: Vec::new() };
        assert(m.nodes() =~= Map::<NodeHandle, NodeView<B>>::empty());
        m
    }

    pub fn contains(&self, h: &NodeHandle) -> (r: bool)
        requires
            self.wf(),
        ensures
            r == self.nodes().dom().contains(*h),
    {
        broadcast use vstd::std_specs::hash::group_hash_axioms;

        let k = node_key(h);
        self.nodes.contains_key(&k)
    }

    pub fn get(&self, h: &NodeHandle) -> (r: Option<&Node<B>>)
        requires
            self.wf(),
        ensures
            match r {
                Some(n) => self.nodes().dom().contains(*h) && n@ == self.nodes()[*h],
                None => !self.nodes().dom().contains(*h),
            },
    {
        broadcast use vstd::std_specs::hash::group_hash_axioms;

        let k = node_key(h);
        self.nodes.get(&k)
    }

    /// Adds `node` under `h`, replacing any node already there.
    pub fn insert(&mut self, h: NodeHandle, node: Node<B>)
        requires
            old(self).wf(),
        ensures
            final(self).wf(),
            final(self).nodes() == old(self).nodes().insert(h, node@),
            final(self).outputs() == old(self).outputs(),
    {
        broadcast use vstd::std_specs::hash::group_hash_axioms;

        let k = node_key(&h);
        let ghost nv = node@;
        self.nodes.insert(k, node);
        assert forall|k2: u128| #[trigger]
            self.nodes@.contains_key(k2) implies exists|h2: NodeHandle| handle_key(h2) == k2 by {
            if k2 == k {
                assert(handle_key(h) == k2);
            } else {
                assert(old(self).nodes@.contains_key(k2));
            }
        }
        assert forall|h2: NodeHandle| #[trigger]
            self.nodes().dom().contains(h2) <==> old(self).nodes().insert(h, nv).dom().contains(
                h2,
            ) by {
            lemma_handle_key_injective(h, h2);
        }
        assert forall|h2: NodeHandle| #[trigger]
            self.nodes().dom().contains(h2) implies self.nodes()[h2] == old(self).nodes().insert(
            h,
            nv,
        )[h2] by {
            lemma_handle_key_injective(h, h2);
        }
        assert(self.nodes() =~= old(self).nodes().insert(h, nv));
    }

    /// Removes the node under `h`, if any, and hands it back.
    pub fn remove(&mut self, h: &NodeHandle) -> (r: Option<Node<B>>)
        requires
            old(self).wf(),
        ensures
            final(self).wf(),
            final(self).nodes() == old(self).nodes().remove(*h),
            final(self).outputs() == old(self).outputs(),
            match r {
                Some(n) => old(self).nodes().dom().contains(*h) && n@ == old(self).nodes()[*h],
                None => !old(self).nodes().dom().contains(*h),
            },
    {
        broadcast use vstd::std_specs::hash::group_hash_axioms;

        let k = node_key(h);
        let r = self.nodes.remove(&k);
        assert forall|k2: u128| #[trigger]
            self.nodes@.contains_key(k2) implies exists|h2: NodeHandle| handle_key(h2) == k2 by {
            assert(old(self).nodes@.contains_key(k2));
        }
        assert forall|h2: NodeHandle| #[trigger]
            self.nodes().dom().contains(h2) <==> old(self).nodes().remove(*h).dom().contains(h2) by {
            lemma_handle_key_injective(*h, h2);
        }
        assert forall|h2: NodeHandle| #[trigger]
            self.nodes().dom().contains(h2) implies self.nodes()[h2] == old(self).nodes().remove(
            *h,
        )[h2] by {
            lemma_handle_key_injective(*h, h2);
        }
        assert(self.nodes() =~= old(self).nodes().remove(*h));
        r
    }
}

/// `slots` with `edge` stored at its destination slot, padding with empty
/// slots first when the slot lies beyond the end.
pub open spec fn slots_with_edge(slots: Seq<Option<Edge>>, edge: Edge) -> Seq<Option<Edge>> {
    let slot = edge.spec_to_slot() as int;
    let padded = if slots.len() <= slot {
        slots + Seq::new((slot + 1 - slots.len()) as nat, |i: int| None::<Edge>)
    } else {
        slots
    };
    padded.update(slot, Some(edge))
}

/// `slots` with the given slot emptied, when it exists.
pub open spec fn slots_without(slots: Seq<Option<Edge>>, slot: u32) -> Seq<Option<Edge>> {
    if (slot as int) < slots.len() {
        slots.update(slot as int, None)
    } else {
        slots
    }
}

/// Stores `edge` in the slot it names, growing `slots` with empty slots as needed.
fn store_edge(slots: &mut Vec<Option<Edge>>, edge: Edge)
    requires
        edge.spec_to_slot() < usize::MAX,
    ensures
        final(slots)@ == slots_with_edge(old(slots)@, edge),
{
    let slot = edge.to_slot() as usize;
    // allocate space to store the edge.
    if slots.len() <= slot {
        let ghost start = slots@;
        while slots.len() <= slot
            invariant
                start.len() <= slots@.len() <= slot + 1,
                slots@ == start + Seq::new((slots@.len() - start.len()) as nat, |i: int| None::<Edge>),
            decreases slot + 1 - slots@.len(),
        {
            slots.push(None);
        }
    }
    slots.set(slot, Some(edge));
    proof {
        let padded = if old(slots)@.len() <= slot as int {
            old(slots)@ + Seq::new((slot + 1 - old(slots)@.len()) as nat, |i: int| None::<Edge>)
        } else {
            old(slots)@
        };
        assert(final(slots)@ =~= padded.update(slot as int, Some(edge)));
    }
}

/// Empties the given slot, when it exists.
fn clear_slot(slots: &mut Vec<Option<Edge>>, slot: u32)
    ensures
        final(slots)@ == slots_without(old(slots)@, slot),
{
    let slot = slot as usize;
    if slot < slots.len() {
        slots.set(slot, None);
    }
}

impl<B> NodeMap<B> {
    /// The edges feeding the graph's own output slots.
    pub fn output_edges(&self) -> (r: &Vec<Option<Edge>>)
        ensures
            r@ == self.outputs(),
    {
        &self.output_edges
    }

    /// Add an edge that connects two nodes within this graph.
    pub fn add_edge(&mut self, edge: &Edge)
        requires
            old(self).wf(),
            edge.spec_to().spec_is_toplevel() || old(self).nodes().dom().contains(edge.spec_to()),
            edge.spec_to_slot() < usize::MAX,
        ensures
            final(self).wf(),
            edge.spec_to().spec_is_toplevel() ==> final(self).outputs() == slots_with_edge(
                old(self).outputs(),
                *edge,
            ) && final(self).nodes() == old(self).nodes(),
            !edge.spec_to().spec_is_toplevel() ==> final(self).outputs() == old(self).outputs()
                && final(self).nodes() == old(self).nodes().insert(
                edge.spec_to(),
                NodeView {
                    data: old(self).nodes()[edge.spec_to()].data,
                    inbound: slots_with_edge(old(self).nodes()[edge.spec_to()].inbound, *edge),
                },
            ),
    {
        let to = edge.to_full();
        if to.is_toplevel() {
            store_edge(&mut self.output_edges, *edge);
        } else {
            let mut node = self.remove(&to).unwrap();
            store_edge(&mut node.inbound, *edge);
            self.insert(to, node);
            assert(old(self).nodes().remove(to).insert(to, self.nodes()[to]) =~= old(
                self,
            ).nodes().insert(to, self.nodes()[to]));
            assert(self.nodes() =~= old(self).nodes().insert(
                to,
                NodeView {
                    data: old(self).nodes()[to].data,
                    inbound: slots_with_edge(old(self).nodes()[to].inbound, *edge),
                },
            ));
        }
    }

    /// Remove an edge: its destination slot becomes empty, when that slot exists.
    pub fn del_edge(&mut self, edge: &Edge)
        requires
            old(self).wf(),
            edge.spec_to().spec_is_toplevel() || old(self).nodes().dom().contains(edge.spec_to()),
        ensures
            final(self).wf(),
            edge.spec_to().spec_is_toplevel() ==> final(self).outputs() == slots_without(
                old(self).outputs(),
                edge.spec_to_slot(),
            ) && final(self).nodes() == old(self).nodes(),
            !edge.spec_to().spec_is_toplevel() ==> final(self).outputs() == old(self).outputs()
                && final(self).nodes() == old(self).nodes().insert(
                edge.spec_to(),
                NodeView {
                    data: old(self).nodes()[edge.spec_to()].data,
                    inbound: slots_without(
                        old(self).nodes()[edge.spec_to()].inbound,
                        edge.spec_to_slot(),
                    ),
                },
            ),
    {
        let to = edge.to_full();
        if to.is_toplevel() {
            clear_slot(&mut self.output_edges, edge.to_slot());
        } else {
            let mut node = self.remove(&to).unwrap();
            clear_slot(&mut node.inbound, edge.to_slot());
            self.insert(to, node);
            assert(old(self).nodes().remove(to).insert(to, self.nodes()[to]) =~= old(
                self,
            ).nodes().insert(to, self.nodes()[to]));
            assert(self.nodes() =~= old(self).nodes().insert(
                to,
                NodeView {
                    data: old(self).nodes()[to].data,
                    inbound: slots_without(old(self).nodes()[to].inbound, edge.spec_to_slot()),
                },
            ));
        }
    }
}

/// Where a sample comes from.
#[derive(Debug, PartialEq)]
pub enum SampleSource<S> {
    /// The sample is known: a recorded external input, or silence when no
    /// edge feeds the slot.
    Value(S),
    /// Output `slot` at `time` of the compiled function of node `node`.
    Function { node: NodeHandle, time: u64, slot: u32 },
    /// Output `slot` at `time` of the buffer held by node `node`.
    Buffer { node: NodeHandle, time: u64, slot: u32 },
}

/// The state of a renderer as a value.
pub struct RenderView<S, B> {
    /// The nodes of the top-level graph.
    pub nodes: Map<NodeHandle, NodeView<B>>,
    /// The edges feeding the graph's output slots, by slot.
    pub outputs: Seq<Option<Edge>>,
    /// `inputs[slot][time]` is the external input recorded at that slot and time.
    pub inputs: Seq<Seq<S>>,
    /// The next time expected to be rendered.
    pub head: u64,
    /// The value read where nothing was recorded or nothing is connected.
    pub silence: S,
}

/// The slot `slot` of `slots`, when it exists.
pub open spec fn slot_entry(slots: Seq<Option<Edge>>, slot: u32) -> Option<Option<Edge>> {
    if (slot as int) < slots.len() {
        Some(slots[slot as int])
    } else {
        None
    }
}

/// `n` copies of `value`.
pub open spec fn repeated<S>(value: S, n: nat) -> Seq<S> {
    Seq::new(n, |i: int| value)
}

/// `history` followed by `row`, then padded to `len` with its last value
/// (or with `silence` when both are empty).
pub open spec fn padded_row<S>(history: Seq<S>, row: Seq<S>, len: nat, silence: S) -> Seq<S> {
    let ext = history + row;
    let pad = if ext.len() > 0 {
        ext.last()
    } else {
        silence
    };
    ext + repeated(pad, (len - ext.len()) as nat)
}

/// The rows of a vector of vectors, as sequences.
pub open spec fn rows_of<S>(rows: Seq<Vec<S>>) -> Seq<Seq<S>> {
    rows.map_values(|r: Vec<S>| r@)
}

impl<S, B> RenderView<S, B> {
    /// The destination of `edge` is the graph's output or a node of the graph.
    pub open spec fn target_known(self, edge: Edge) -> bool {
        edge.spec_to().spec_is_toplevel() || self.nodes.dom().contains(edge.spec_to())
    }

    /// The source of `edge` is the graph's input or a node of the graph.
    pub open spec fn source_known(self, edge: Edge) -> bool {
        edge.spec_from().spec_is_toplevel() || self.nodes.dom().contains(edge.spec_from())
    }

    /// A slot entry is either empty, absent, or an edge whose source is known.
    pub open spec fn entry_known(self, entry: Option<Option<Edge>>) -> bool {
        entry matches Some(Some(e)) ==> self.source_known(e)
    }

    /// The state after a node is added (replacing any node under the same handle).
    pub open spec fn with_node(self, handle: NodeHandle, data: MyNodeData<B>) -> Self {
        RenderView {
            nodes: self.nodes.insert(handle, NodeView { data, inbound: Seq::empty() }),
            outputs: self.outputs,
            inputs: self.inputs,
            head: self.head,
            silence: self.silence,
        }
    }

    /// The state after a node is removed.
    pub open spec fn without_node(self, handle: NodeHandle) -> Self {
        RenderView {
            nodes: self.nodes.remove(handle),
            outputs: self.outputs,
            inputs: self.inputs,
            head: self.head,
            silence: self.silence,
        }
    }

    /// The state after `edge` is stored at its destination slot.
    pub open spec fn with_edge(self, edge: Edge) -> Self {
        if edge.spec_to().spec_is_toplevel() {
            RenderView {
                nodes: self.nodes,
                outputs: slots_with_edge(self.outputs, edge),
                inputs: self.inputs,
                head: self.head,
                silence: self.silence,
            }
        } else {
            RenderView {
                nodes: self.nodes.insert(
                    edge.spec_to(),
                    NodeView {
                        data: self.nodes[edge.spec_to()].data,
                        inbound: slots_with_edge(self.nodes[edge.spec_to()].inbound, edge),
                    },
                ),
                outputs: self.outputs,
                inputs: self.inputs,
                head: self.head,
                silence: self.silence,
            }
        }
    }

    /// The state after the destination slot of `edge` is emptied.
    pub open spec fn without_edge(self, edge: Edge) -> Self {
        if edge.spec_to().spec_is_toplevel() {
            RenderView {
                nodes: self.nodes,
                outputs: slots_without(self.outputs, edge.spec_to_slot()),
                inputs: self.inputs,
                head: self.head,
                silence: self.silence,
            }
        } else {
            RenderView {
                nodes: self.nodes.insert(
                    edge.spec_to(),
                    NodeView {
                        data: self.nodes[edge.spec_to()].data,
                        inbound: slots_without(
                            self.nodes[edge.spec_to()].inbound,
                            edge.spec_to_slot(),
                        ),
                    },
                ),
                outputs: self.outputs,
                inputs: self.inputs,
                head: self.head,
                silence: self.silence,
            }
        }
    }

    /// The external input recorded at `slot` and `time`; silence when none was.
    pub open spec fn input_value(self, time: u64, slot: u32) -> S {
        if (slot as int) < self.inputs.len() && (time as int) < self.inputs[slot as int].len() {
            self.inputs[slot as int][time as int]
        } else {
            self.silence
        }
    }

    /// Where the value carried by `edge` at `time` comes from.
    pub open spec fn edge_source(self, time: u64, edge: Edge) -> SampleSource<S> {
        if edge.spec_from().spec_node() is None {
            SampleSource::Value(self.input_value(time, edge.spec_from_slot()))
        } else {
            match self.nodes[edge.spec_from()].data {
                MyNodeData::LlvmFunc(_) => SampleSource::Function {
                    node: edge.spec_from(),
                    time,
                    slot: edge.spec_from_slot(),
                },
                MyNodeData::Buffer(_) => SampleSource::Buffer {
                    node: edge.spec_from(),
                    time,
                    slot: edge.spec_from_slot(),
                },
            }
        }
    }

    /// Where the value of a slot entry comes from: silence unless an edge is stored there.
    pub open spec fn entry_source(self, time: u64, entry: Option<Option<Edge>>) -> SampleSource<S> {
        match entry {
            Some(Some(e)) => self.edge_source(time, e),
            _ => SampleSource::Value(self.silence),
        }
    }

    /// Where output `slot` of the graph at `time` comes from.
    pub open spec fn sample_source(self, time: u64, slot: u32) -> SampleSource<S> {
        self.entry_source(time, slot_entry(self.outputs, slot))
    }

    /// Where input `slot` of node `node` at `time` comes from.
    pub open spec fn inbound_source(self, node: NodeHandle, time: u64, slot: u32) -> SampleSource<
        S,
    > {
        self.entry_source(time, slot_entry(self.nodes[node].inbound, slot))
    }

    /// Where a compiled function, asked for through `source`, gets its input
    /// `slot` at `time` from: the inbound edges of the node it belongs to.
    /// (Only function sources ask for inputs; any other source gets silence.)
    pub open spec fn callback_source(self, source: SampleSource<S>, time: u64, slot: u32) -> SampleSource<S> {
        match source {
            SampleSource::Function { node, .. } => self.inbound_source(node, time, slot),
            _ => SampleSource::Value(self.silence),
        }
    }

    /// The input rows once a render at `idx` has prepared them: all rows are
    /// reset to `idx` samples of silence when `idx` is not the head (a seek),
    /// then rows of `idx` samples of silence are added up to `buff_len` rows.
    pub open spec fn prepared_inputs(self, idx: u64, buff_len: usize) -> Seq<Seq<S>> {
        let base = if idx != self.head {
            Seq::new(self.inputs.len(), |i: int| repeated(self.silence, idx as nat))
        } else {
            self.inputs
        };
        if base.len() < buff_len {
            base + Seq::new(
                (buff_len - base.len()) as nat,
                |i: int| repeated(self.silence, idx as nat),
            )
        } else {
            base
        }
    }

    /// A render at `idx` of `n_times` samples can record `rows`: every
    /// prepared row that receives new samples holds exactly `idx` samples,
    /// and no row of new samples runs past the rendered block.
    pub open spec fn fill_ok(self, idx: u64, n_times: usize, buff_len: usize, rows: Seq<Seq<S>>) -> bool {
        let prepared = self.prepared_inputs(idx, buff_len);
        &&& idx + n_times <= u64::MAX
        &&& idx + n_times <= usize::MAX
        &&& forall|i: int|
            0 <= i < rows.len() && i < prepared.len() ==> (#[trigger] prepared[i]).len() == idx
                && rows[i].len() <= n_times
    }

    /// The state after the inputs of a render at `idx` of `n_times` samples
    /// are recorded: row `i` of `rows` extends prepared row `i`, which is then
    /// padded with its last sample to `idx + n_times` samples; the head moves
    /// past the block.
    pub open spec fn after_fill(self, idx: u64, n_times: usize, buff_len: usize, rows: Seq<Seq<S>>) -> Self {
        let prepared = self.prepared_inputs(idx, buff_len);
        RenderView {
            nodes: self.nodes,
            outputs: self.outputs,
            inputs: Seq::new(
                prepared.len(),
                |i: int|
                    if i < rows.len() {
                        padded_row(prepared[i], rows[i], (idx + n_times) as nat, self.silence)
                    } else {
                        prepared[i]
                    },
            ),
            head: (idx + n_times) as u64,
            silence: self.silence,
        }
    }
}

/// `n` copies of `value`.
fn repeat<S: Copy>(value: S, n: usize) -> (r: Vec<S>)
    ensures
        r@ == repeated(value, n as nat),
{
    let mut r = Vec::new();
    let mut i: usize = 0;
    while i < n
        invariant
            i <= n,
            r@ == repeated(value, i as nat),
        decreases n - i,
    {
        r.push(value);
        i = i + 1;
        assert(r@ =~= repeated(value, i as nat));
    }
    r
}

/// Appends `row` to `dest`, then pads `dest` to `len` with its last sample
/// (or `silence` when it is empty).
fn extend_and_pad<S: Copy>(dest: &mut Vec<S>, row: &Vec<S>, len: usize, silence: S)
    requires
        old(dest)@.len() + row@.len() <= len,
    ensures
        final(dest)@ == padded_row(old(dest)@, row@, len as nat, silence),
{
    let n = row.len();
    let mut i: usize = 0;
    while i < n
        invariant
            n == row@.len(),
            i <= n,
            dest@ == old(dest)@ + row@.subrange(0, i as int),
            old(dest)@.len() + n <= len,
        decreases n - i,
    {
        dest.push(row[i]);
        i = i + 1;
        assert(dest@ =~= old(dest)@ + row@.subrange(0, i as int));
    }
    assert(row@.subrange(0, n as int) =~= row@);
    let ghost ext = dest@;
    let pad = if dest.len() > 0 {
        dest[dest.len() - 1]
    } else {
        silence
    };
    while dest.len() < len
        invariant
            ext.len() <= dest@.len() <= len,
            dest@ == ext + repeated(pad, (dest@.len() - ext.len()) as nat),
        decreases len - dest@.len(),
    {
        dest.push(pad);
        assert(dest@ =~= ext + repeated(pad, (dest@.len() - ext.len()) as nat));
    }
}

/// The code-generator-independent state of the Sparkle renderer: the
/// top-level node map, the history of the external inputs, and the playhead.
/// `S` is the sample type and `B` the type of external audio buffers.
#[derive(Debug)]
pub struct SparkleRenderer<S, B> {
    // Top-level node map
    nodes: NodeMap<B>,
    /// inputs[slot][sample] represents the value of the external input at
    /// the given slot and time. On OOB, it is assumed to be silence.
    inputs: Vec<Vec<S>>,
    /// Next expected sample to be queried.
    /// This is tracked because if we do a seek, the inputs need to be zero'd.
    head: u64,
    /// The sample that stands for silence.
    silence: S,
}

impl<S: Copy, B> View for SparkleRenderer<S, B> {
    type V = RenderView<S, B>;

    closed spec fn view(&self) -> RenderView<S, B> {
        RenderView {
            nodes: self.nodes.nodes(),
            outputs: self.nodes.outputs(),
            inputs: rows_of(self.inputs@),
            head: self.head,
            silence: self.silence,
        }
    }
}

impl<S: Copy, B> SparkleRenderer<S, B> {
    pub closed spec fn wf(&self) -> bool {
        self.nodes.wf()
    }

    /// An empty renderer: no nodes, no edges, no recorded input, head at 0.
    pub fn new(silence: S) -> (r: SparkleRenderer<S, B>)
        ensures
            r.wf(),
            r@.nodes == Map::<NodeHandle, NodeView<B>>::empty(),
            r@.outputs == Seq::<Option<Edge>>::empty(),
            r@.inputs == Seq::<Seq<S>>::empty(),
            r@.head == 0,
            r@.silence == silence,
    {
        let r = SparkleRenderer { nodes: NodeMap::new(), inputs: Vec::new(), head: 0, silence };
        assert(r@.inputs =~= Seq::<Seq<S>>::empty());
        r
    }

    /// The next time expected to be rendered.
    pub fn head(&self) -> (r: u64)
        ensures
            r == self@.head,
    {
        self.head
    }

    /// The edges feeding the graph's output slots, by slot.
    pub fn output_edges(&self) -> (r: &Vec<Option<Edge>>)
        ensures
            r@ == self@.outputs,
    {
        self.nodes.output_edges()
    }

    /// The recorded external inputs: `inputs()[slot][time]`.
    pub fn inputs(&self) -> (r: &Vec<Vec<S>>)
        ensures
            rows_of(r@) == self@.inputs,
    {
        &self.inputs
    }

    /// The sample that stands for silence.
    pub fn silence(&self) -> (r: S)
        ensures
            r == self@.silence,
    {
        self.silence
    }

    /// Whether the top-level graph has a node under `handle`.
    pub fn has_node(&self, handle: &NodeHandle) -> (r: bool)
        requires
            self.wf(),
        ensures
            r == self@.nodes.dom().contains(*handle),
    {
        self.nodes.contains(handle)
    }

    /// The node under `handle`, if any.
    pub fn node(&self, handle: &NodeHandle) -> (r: Option<&Node<B>>)
        requires
            self.wf(),
        ensures
            match r {
                Some(n) => self@.nodes.dom().contains(*handle) && n@ == self@.nodes[*handle],
                None => !self@.nodes.dom().contains(*handle),
            },
    {
        self.nodes.get(handle)
    }

    /// Adds a node with the given data and no inbound edges, replacing any
    /// node under the same handle.
    pub fn on_add_node(&mut self, handle: &NodeHandle, data: MyNodeData<B>)
        requires
            old(self).wf(),
        ensures
            final(self).wf(),
            final(self)@ == old(self)@.with_node(*handle, data),
    {
        self.nodes.insert(*handle, Node::new(data));
        assert(self@.nodes =~= old(self)@.with_node(*handle, data).nodes);
    }

    /// Removes the node under `handle`, if any.
    pub fn on_del_node(&mut self, handle: &NodeHandle)
        requires
            old(self).wf(),
        ensures
            final(self).wf(),
            final(self)@ == old(self)@.without_node(*handle),
    {
        self.nodes.remove(handle);
    }

    /// Stores `edge` in the slot of its destination that it feeds.
    pub fn on_add_edge(&mut self, edge: &Edge)
        requires
            old(self).wf(),
            old(self)@.target_known(*edge),
            edge.spec_to_slot() < usize::MAX,
        ensures
            final(self).wf(),
            final(self)@ == old(self)@.with_edge(*edge),
    {
        self.nodes.add_edge(edge);
    }

    /// Empties the slot of the destination of `edge` that it fed, if that slot exists.
    pub fn on_del_edge(&mut self, edge: &Edge)
        requires
            old(self).wf(),
            old(self)@.target_known(*edge),
        ensures
            final(self).wf(),
            final(self)@ == old(self)@.without_edge(*edge),
    {
        self.nodes.del_edge(edge);
    }

    /// The external input recorded at `slot` and `time`; silence when none was.
    pub fn input_value(&self, time: u64, slot: u32) -> (r: S)
        ensures
            r == self@.input_value(time, slot),
    {
        let slot = slot as usize;
        if slot < self.inputs.len() {
            let row = &self.inputs[slot];
            if time < row.len() as u64 {
                return row[time as usize];
            }
        }
        self.silence
    }

    /// Where the value carried by `edge` at `time` comes from.
    pub fn edge_source(&self, time: u64, edge: &Edge) -> (r: SampleSource<S>)
        requires
            self.wf(),
            self@.source_known(*edge),
        ensures
            r == self@.edge_source(time, *edge),
    {
        let from = edge.from_full();
        let from_slot = edge.from_slot();
        if from.node_handle().is_none() {
            // reading from an input
            SampleSource::Value(self.input_value(time, from_slot))
        } else {
            // Reading from another node within the DAG
            let node = self.nodes.get(&from).unwrap();
            match &node.data {
                MyNodeData::LlvmFunc(_) => SampleSource::Function { node: from, time, slot: from_slot },
                MyNodeData::Buffer(_) => SampleSource::Buffer { node: from, time, slot: from_slot },
            }
        }
    }

    /// Where the value of a slot entry comes from: silence unless an edge is stored there.
    pub fn maybe_edge_source(&self, time: u64, maybe_edge: Option<&Option<Edge>>) -> (r:
        SampleSource<S>)
        requires
            self.wf(),
            self@.entry_known(
                match maybe_edge {
                    Some(e) => Some(*e),
                    None => None,
                },
            ),
        ensures
            r == self@.entry_source(
                time,
                match maybe_edge {
                    Some(e) => Some(*e),
                    None => None,
                },
            ),
    {
        if let Some(Some(edge)) = maybe_edge {
            self.edge_source(time, edge)
        } else {
            // Edge doesn't exist; value is silence.
            SampleSource::Value(self.silence)
        }
    }

    /// Where output `slot` of the graph at `time` comes from.
    pub fn sample_source(&self, time: u64, slot: u32) -> (r: SampleSource<S>)
        requires
            self.wf(),
            self@.entry_known(slot_entry(self@.outputs, slot)),
        ensures
            r == self@.sample_source(time, slot),
    {
        let slot = slot as usize;
        let out_edges = self.nodes.output_edges();
        let out_edge = if slot < out_edges.len() {
            Some(&out_edges[slot])
        } else {
            None
        };
        self.maybe_edge_source(time, out_edge)
    }

    /// Where input `slot` of node `node` at `time` comes from.
    pub fn inbound_source(&self, node: &NodeHandle, time: u64, slot: u32) -> (r: SampleSource<S>)
        requires
            self.wf(),
            self@.nodes.dom().contains(*node),
            self@.entry_known(slot_entry(self@.nodes[*node].inbound, slot)),
        ensures
            r == self@.inbound_source(*node, time, slot),
    {
        let n = self.nodes.get(node).unwrap();
        let slot = slot as usize;
        let in_edge = if slot < n.inbound.len() {
            Some(&n.inbound[slot])
        } else {
            None
        };
        self.maybe_edge_source(time, in_edge)
    }
}

impl<S: Copy, B> SparkleRenderer<S, B> {
    /// Where the compiled function named by `function` gets its input `slot`
    /// at `time` from, when it calls back for it: the inbound edges of that
    /// function's node.
    pub fn callback_source(&self, function: &SampleSource<S>, time: u64, slot: u32) -> (r:
        SampleSource<S>)
        requires
            self.wf(),
            (*function matches SampleSource::Function { node, .. } && self@.nodes.dom().contains(node)
                && self@.entry_known(slot_entry(self@.nodes[node].inbound, slot))),
        ensures
            r == self@.callback_source(*function, time, slot),
    {
        match function {
            SampleSource::Function { node, .. } => self.inbound_source(node, time, slot),
            _ => SampleSource::Value(self.silence),
        }
    }
}

impl<S: Copy, B> SparkleRenderer<S, B> {
    /// Whether a render at `idx` of `n_times` samples, into a buffer of
    /// `buff_len` samples, can record `rows` as its external inputs.
    pub fn can_fill(&self, idx: u64, n_times: usize, buff_len: usize, rows: &Vec<Vec<S>>) -> (r:
        bool)
        ensures
            r == self@.fill_ok(idx, n_times, buff_len, rows_of(rows@)),
    {
        if n_times as u64 > u64::MAX - idx || idx > usize::MAX as u64 || n_times > usize::MAX
            - idx as usize {
            return false;
        }
        let ghost prepared = self@.prepared_inputs(idx, buff_len);
        let n_prepared = if self.inputs.len() < buff_len {
            buff_len
        } else {
            self.inputs.len()
        };
        assert(prepared.len() == n_prepared);
        let n = if rows.len() < n_prepared {
            rows.len()
        } else {
            n_prepared
        };
        let seek = idx != self.head;
        let mut i: usize = 0;
        while i < n
            invariant
                n <= rows@.len(),
                n <= prepared.len(),
                prepared == self@.prepared_inputs(idx, buff_len),
                seek == (idx != self@.head),
                n_prepared == prepared.len(),
                i <= n,
                forall|j: int| 0 <= j < i ==> (#[trigger] prepared[j]).len() == idx,
                forall|j: int| 0 <= j < i ==> (#[trigger] rows@[j])@.len() <= n_times,
            decreases n - i,
        {
            assert(rows_of(rows@)[i as int] == rows@[i as int]@);
            if rows[i].len() > n_times {
                assert(prepared[i as int].len() >= 0);
                return false;
            }
            // rows past the recorded ones are prepared with `idx` samples
            if !seek && i < self.inputs.len() && self.inputs[i].len() as u64 != idx {
                assert(self@.inputs[i as int] == self.inputs@[i as int]@);
                assert(prepared[i as int] == self@.inputs[i as int]);
                return false;
            }
            proof {
                if !seek && i < self@.inputs.len() {
                    assert(self@.inputs[i as int] == self.inputs@[i as int]@);
                    assert(prepared[i as int] == self@.inputs[i as int]);
                } else {
                    assert(prepared[i as int] == repeated(self@.silence, idx as nat));
                }
                assert(prepared[i as int].len() == idx);
                assert(rows@[i as int]@.len() <= n_times);
            }
            i = i + 1;
        }
        assert forall|j: int|
            0 <= j < rows_of(rows@).len() && j < prepared.len() implies (#[trigger] prepared[j]).len()
            == idx && rows_of(rows@)[j].len() <= n_times by {
            assert(j < n);
            assert(rows_of(rows@)[j] == rows@[j]@);
            assert(rows@[j]@.len() <= n_times);
        }
        true
    }

    /// Records the external inputs of a render at `idx` of `n_times` samples
    /// into a buffer of `buff_len` samples, and moves the head past the block.
    /// A render that does not start at the head is a seek: the recorded
    /// history is then forgotten (reset to silence).
    pub fn fill_inputs(&mut self, idx: u64, n_times: usize, buff_len: usize, rows: &Vec<Vec<S>>)
        requires
            old(self).wf(),
            old(self)@.fill_ok(idx, n_times, buff_len, rows_of(rows@)),
        ensures
            final(self).wf(),
            final(self)@ == old(self)@.after_fill(idx, n_times, buff_len, rows_of(rows@)),
    {
        let ghost rows_v = rows_of(rows@);
        let ghost prepared = old(self)@.prepared_inputs(idx, buff_len);
        let start = idx as usize;
        let end = start + n_times;
        // If this is a seek operation, forget historical input values.
        if idx != self.head {
            let n = self.inputs.len();
            let mut i: usize = 0;
            while i < n
                invariant
                    n == self.inputs@.len(),
                    n == old(self).inputs@.len(),
                    i <= n,
                    start == idx,
                    self.silence == old(self).silence,
                    self.head == old(self).head,
                    self.nodes == old(self).nodes,
                    forall|j: int|
                        0 <= j < n ==> (#[trigger] self.inputs@[j])@ == (if j < i {
                            repeated(self.silence, idx as nat)
                        } else {
                            old(self).inputs@[j]@
                        }),
                decreases n - i,
            {
                let zeros = repeat(self.silence, start);
                self.inputs.set(i, zeros);
                i = i + 1;
            }
        }
        let ghost base = if idx != old(self)@.head {
            Seq::new(old(self)@.inputs.len(), |i: int| repeated(old(self)@.silence, idx as nat))
        } else {
            old(self)@.inputs
        };
        assert(rows_of(self.inputs@) =~= base);
        // Make sure we have storage space for all inputs.
        while self.inputs.len() < buff_len
            invariant
                start == idx,
                self.silence == old(self).silence,
                self.head == old(self).head,
                self.nodes == old(self).nodes,
                base.len() <= rows_of(self.inputs@).len(),
                base.len() < buff_len ==> rows_of(self.inputs@).len() <= buff_len,
                base.len() >= buff_len ==> rows_of(self.inputs@).len() == base.len(),
                rows_of(self.inputs@) == base + Seq::new(
                    (rows_of(self.inputs@).len() - base.len()) as nat,
                    |i: int| repeated(self.silence, idx as nat),
                ),
            decreases buff_len - self.inputs@.len(),
        {
            let zeros = repeat(self.silence, start);
            let ghost prev = rows_of(self.inputs@);
            self.inputs.push(zeros);
            assert(rows_of(self.inputs@) =~= prev.push(repeated(self.silence, idx as nat)));
            assert(rows_of(self.inputs@) =~= base + Seq::new(
                (rows_of(self.inputs@).len() - base.len()) as nat,
                |i: int| repeated(self.silence, idx as nat),
            ));
        }
        proof {
            let cur = rows_of(self.inputs@);
            if base.len() < buff_len {
                assert(cur.len() == buff_len);
                assert(cur =~= base + Seq::new(
                    (buff_len - base.len()) as nat,
                    |i: int| repeated(old(self)@.silence, idx as nat),
                ));
            } else {
                assert(cur.len() == base.len());
                assert(cur =~= base);
            }
        }
        assert(rows_of(self.inputs@) =~= prepared);
        let n = if rows.len() < self.inputs.len() {
            rows.len()
        } else {
            self.inputs.len()
        };
        let mut i: usize = 0;
        while i < n
            invariant
                n <= rows@.len(),
                n <= prepared.len(),
                prepared.len() == self.inputs@.len(),
                rows_v == rows_of(rows@),
                end == idx + n_times,
                start == idx,
                self.silence == old(self).silence,
                self.head == old(self).head,
                self.nodes == old(self).nodes,
                old(self)@.fill_ok(idx, n_times, buff_len, rows_v),
                prepared == old(self)@.prepared_inputs(idx, buff_len),
                i <= n,
                forall|j: int|
                    0 <= j < prepared.len() ==> (#[trigger] self.inputs@[j])@ == (if j < i {
                        padded_row(prepared[j], rows_v[j], end as nat, self.silence)
                    } else {
                        prepared[j]
                    }),
            decreases n - i,
        {
            let mut dest = Vec::new();
            self.inputs.set_and_swap(i, &mut dest);
            assert(dest@ == prepared[i as int]);
            assert(rows_v[i as int] == rows@[i as int]@);
            assert(prepared[i as int].len() == idx && rows_v[i as int].len() <= n_times);
            extend_and_pad(&mut dest, &rows[i], end, self.silence);
            self.inputs.set(i, dest);
            i = i + 1;
        }
        assert(rows_of(self.inputs@) =~= old(self)@.after_fill(idx, n_times, buff_len, rows_v).inputs);
        // Keep track of the playhead
        self.head = idx + n_times as u64;
    }
}

/// The name under which the compiled output function of an effect is
/// registered: the effect's name followed by "_get_output".
pub fn output_fn_name(id: &EffectId) -> (r: String)
    ensures
        r@ == id.spec_name() + "_get_output"@,
{
    let mut name = id.name().clone();
    name.append("_get_output");
    name
}

impl<S, B> RenderView<S, B> {
    /// The slots of the destination `handle`: the graph's output slots for
    /// the top-level handle, otherwise the inbound slots of that node.
    pub open spec fn slots_of(self, handle: NodeHandle) -> Seq<Option<Edge>> {
        if handle.spec_is_toplevel() {
            self.outputs
        } else {
            self.nodes[handle].inbound
        }
    }

    /// The edge stored in slot `slot` of destination `handle`, if any.
    pub open spec fn edge_at(self, handle: NodeHandle, slot: u32) -> Option<Edge> {
        match slot_entry(self.slots_of(handle), slot) {
            Some(Some(e)) => Some(e),
            _ => None,
        }
    }
}

} // verus!
