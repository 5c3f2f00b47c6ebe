//! What holds of the renderer's state across its operations.

use vstd::prelude::*;

use crate::render::sparkle::{
    padded_row, repeated, slot_entry, slots_with_edge, slots_without, MyNodeData, NodeView, RenderView,
    SampleSource,
};
use crate::routing::routegraph::{Edge, NodeHandle};
use crate::stdfx::passthrough::passthrough_edge;

verus! {

/// Two destination handles name the same slots: both are the graph's
/// outputs, or both are the same node.
pub open spec fn same_destination(a: NodeHandle, b: NodeHandle) -> bool {
    (a.spec_is_toplevel() && b.spec_is_toplevel()) || a == b
}

proof fn lemma_slots_with_edge(slots: Seq<Option<Edge>>, e: Edge, slot: u32)
    ensures
        slot_entry(slots_with_edge(slots, e), e.spec_to_slot()) == Some(Some(e)),
        slot != e.spec_to_slot() ==> match slot_entry(slots_with_edge(slots, e), slot) {
            Some(Some(x)) => slot_entry(slots, slot) == Some(Some(x)),
            _ => !(slot_entry(slots, slot) matches Some(Some(_))),
        },
{
}

proof fn lemma_slots_without(slots: Seq<Option<Edge>>, cleared: u32, slot: u32)
    ensures
        !(slot_entry(slots_without(slots, cleared), cleared) matches Some(Some(_))),
        slot != cleared ==> slot_entry(slots_without(slots, cleared), slot) == slot_entry(slots, slot),
{
}

/// Read after write: once `e` is stored, it is the edge in its destination
/// slot, and every other slot of every destination holds what it held.
pub proof fn law_add_edge_read_back<S, B>(v: RenderView<S, B>, e: Edge, h: NodeHandle, slot: u32)
    requires
        v.target_known(e),
    ensures
        v.with_edge(e).edge_at(e.spec_to(), e.spec_to_slot()) == Some(e),
        !(same_destination(h, e.spec_to()) && slot == e.spec_to_slot()) ==> v.with_edge(e).edge_at(
            h,
            slot,
        ) == v.edge_at(h, slot),
        v.with_edge(e).nodes.dom() == v.nodes.dom(),
        forall|k: NodeHandle| #[trigger]
            v.nodes.dom().contains(k) ==> v.with_edge(e).nodes[k].data == v.nodes[k].data,
{
    let w = v.with_edge(e);
    lemma_slots_with_edge(v.slots_of(e.spec_to()), e, slot);
    if same_destination(h, e.spec_to()) {
        assert(w.slots_of(h) == w.slots_of(e.spec_to()));
        assert(v.slots_of(h) == v.slots_of(e.spec_to()));
    } else {
        assert(w.slots_of(h) == v.slots_of(h));
    }
    assert(w.nodes.dom() =~= v.nodes.dom());
}

/// Deleting an edge empties its destination slot and leaves every other slot
/// of every destination as it was.
pub proof fn law_del_edge_clears<S, B>(v: RenderView<S, B>, e: Edge, h: NodeHandle, slot: u32)
    requires
        v.target_known(e),
    ensures
        v.without_edge(e).edge_at(e.spec_to(), e.spec_to_slot()) is None,
        !(same_destination(h, e.spec_to()) && slot == e.spec_to_slot())
            ==> v.without_edge(e).edge_at(h, slot) == v.edge_at(h, slot),
        v.without_edge(e).nodes.dom() == v.nodes.dom(),
{
    let w = v.without_edge(e);
    lemma_slots_without(v.slots_of(e.spec_to()), e.spec_to_slot(), slot);
    if same_destination(h, e.spec_to()) {
        assert(w.slots_of(h) == w.slots_of(e.spec_to()));
        assert(v.slots_of(h) == v.slots_of(e.spec_to()));
    } else {
        assert(w.slots_of(h) == v.slots_of(h));
    }
    assert(w.nodes.dom() =~= v.nodes.dom());
}

/// Deleting an edge undoes adding it: when the slot was empty before, every
/// slot of every destination holds what it held before both calls.
pub proof fn law_del_edge_undoes_add<S, B>(v: RenderView<S, B>, e: Edge, h: NodeHandle, slot: u32)
    requires
        v.target_known(e),
        v.edge_at(e.spec_to(), e.spec_to_slot()) is None,
    ensures
        v.with_edge(e).without_edge(e).edge_at(h, slot) == v.edge_at(h, slot),
        v.with_edge(e).without_edge(e).nodes.dom() == v.nodes.dom(),
{
    law_add_edge_read_back(v, e, h, slot);
    law_del_edge_clears(v.with_edge(e), e, h, slot);
    if same_destination(h, e.spec_to()) && slot == e.spec_to_slot() {
        assert(v.edge_at(h, slot) == v.edge_at(e.spec_to(), e.spec_to_slot()));
        assert(v.with_edge(e).without_edge(e).slots_of(h) == v.with_edge(e).without_edge(
            e,
        ).slots_of(e.spec_to()));
    }
}

/// A node that was just added has the given data and no inbound edge; the
/// other nodes are untouched.
pub proof fn law_add_node_fresh<S, B>(
    v: RenderView<S, B>,
    h: NodeHandle,
    data: MyNodeData<B>,
    k: NodeHandle,
)
    ensures
        v.with_node(h, data).nodes.dom().contains(h),
        v.with_node(h, data).nodes[h] == (NodeView { data, inbound: Seq::empty() }),
        k != h ==> (v.with_node(h, data).nodes.dom().contains(k) == v.nodes.dom().contains(k)
            && v.with_node(h, data).nodes[k] == v.nodes[k]),
{
}

/// A node that was just removed is gone; the other nodes are untouched.
pub proof fn law_del_node_gone<S, B>(v: RenderView<S, B>, h: NodeHandle, k: NodeHandle)
    ensures
        !v.without_node(h).nodes.dom().contains(h),
        k != h ==> (v.without_node(h).nodes.dom().contains(k) == v.nodes.dom().contains(k)
            && v.without_node(h).nodes[k] == v.nodes[k]),
{
}

/// A slot with no edge is silent.
pub proof fn law_unconnected_is_silent<S, B>(v: RenderView<S, B>, h: NodeHandle, time: u64, slot: u32)
    requires
        v.edge_at(h, slot) is None,
    ensures
        h.spec_is_toplevel() ==> v.sample_source(time, slot) == SampleSource::<S>::Value(v.silence),
        !h.spec_is_toplevel() ==> v.inbound_source(h, time, slot) == SampleSource::<S>::Value(
            v.silence,
        ),
{
}

/// Connecting the passthrough effect's edge makes output slot 0 carry
/// external input slot 0, at every time.
pub proof fn law_passthrough_routes_input<S, B>(v: RenderView<S, B>, time: u64)
    ensures
        v.target_known(passthrough_edge()),
        v.with_edge(passthrough_edge()).sample_source(time, 0) == SampleSource::<S>::Value(
            v.input_value(time, 0),
        ),
{
    let e = passthrough_edge();
    lemma_slots_with_edge(v.outputs, e, 0);
}

/// A render moves the head past its block.
pub proof fn law_fill_moves_head<S, B>(
    v: RenderView<S, B>,
    idx: u64,
    n_times: usize,
    buff_len: usize,
    rows: Seq<Seq<S>>,
)
    requires
        v.fill_ok(idx, n_times, buff_len, rows),
    ensures
        v.after_fill(idx, n_times, buff_len, rows).head == idx + n_times,
        v.after_fill(idx, n_times, buff_len, rows).nodes == v.nodes,
        v.after_fill(idx, n_times, buff_len, rows).outputs == v.outputs,
{
}

/// Read back of recorded inputs: inside the rendered block, an input slot
/// that received samples reads them back in order, and past its last sample
/// it repeats the last sample it holds (silence when it never held one).
pub proof fn law_fill_reads_back<S, B>(
    v: RenderView<S, B>,
    idx: u64,
    n_times: usize,
    buff_len: usize,
    rows: Seq<Seq<S>>,
    slot: u32,
    t: u64,
)
    requires
        v.fill_ok(idx, n_times, buff_len, rows),
        (slot as int) < rows.len(),
        (slot as int) < v.prepared_inputs(idx, buff_len).len(),
        idx <= t < idx + n_times,
    ensures
        ({
            let after = v.after_fill(idx, n_times, buff_len, rows);
            let row = rows[slot as int];
            &&& t - idx < row.len() ==> after.input_value(t, slot) == row[t - idx]
            &&& t - idx >= row.len() ==> after.input_value(t, slot) == (if row.len() > 0 {
                row.last()
            } else if idx > 0 {
                after.input_value((idx - 1) as u64, slot)
            } else {
                v.silence
            })
        }),
{
    let prepared = v.prepared_inputs(idx, buff_len);
    let after = v.after_fill(idx, n_times, buff_len, rows);
    let s = slot as int;
    let row = rows[s];
    let history = prepared[s];
    assert(history.len() == idx);
    let r = padded_row(history, row, (idx + n_times) as nat, v.silence);
    assert(after.inputs[s] == r);
    let ext = history + row;
    assert(ext.len() <= idx + n_times);
    assert(r.len() == idx + n_times);
    if t - idx < row.len() {
        assert(r[t as int] == ext[t as int]);
    } else {
        let pad = if ext.len() > 0 {
            ext.last()
        } else {
            v.silence
        };
        assert(r[t as int] == repeated(pad, (idx + n_times - ext.len()) as nat)[t - ext.len()]);
        if row.len() == 0 && idx > 0 {
            assert(r[idx - 1] == ext[idx - 1]);
        }
    }
}

/// History kept or forgotten: before the rendered block, an input slot reads
/// what it read before the render, unless the render is a seek (it does not
/// start at the head), in which case it reads silence.
pub proof fn law_fill_history<S, B>(
    v: RenderView<S, B>,
    idx: u64,
    n_times: usize,
    buff_len: usize,
    rows: Seq<Seq<S>>,
    slot: u32,
    t: u64,
)
    requires
        v.fill_ok(idx, n_times, buff_len, rows),
        t < idx,
    ensures
        v.after_fill(idx, n_times, buff_len, rows).input_value(t, slot) == (if idx != v.head {
            v.silence
        } else {
            v.input_value(t, slot)
        }),
{
    let prepared = v.prepared_inputs(idx, buff_len);
    let after = v.after_fill(idx, n_times, buff_len, rows);
    let s = slot as int;
    if s < prepared.len() {
        if s < rows.len() {
            let r = padded_row(prepared[s], rows[s], (idx + n_times) as nat, v.silence);
            assert(after.inputs[s] == r);
            assert(prepared[s].len() == idx);
            assert(r[t as int] == prepared[s][t as int]);
        }
        if s >= v.inputs.len() {
            assert(prepared[s] == repeated(v.silence, idx as nat));
        }
    }
}

/// A slot that receives no samples in a render keeps all it held, unless
/// the render is a seek, in which case it reads silence everywhere.
pub proof fn law_fill_untouched_rows<S, B>(
    v: RenderView<S, B>,
    idx: u64,
    n_times: usize,
    buff_len: usize,
    rows: Seq<Seq<S>>,
    slot: u32,
    t: u64,
)
    requires
        v.fill_ok(idx, n_times, buff_len, rows),
        (slot as int) >= rows.len(),
    ensures
        v.after_fill(idx, n_times, buff_len, rows).input_value(t, slot) == (if idx != v.head {
            v.silence
        } else {
            v.input_value(t, slot)
        }),
{
    let prepared = v.prepared_inputs(idx, buff_len);
    let s = slot as int;
    if s < prepared.len() && s >= v.inputs.len() {
        assert(prepared[s] == repeated(v.silence, idx as nat));
    }
}

/// Changing the graph (nodes or edges) leaves the recorded inputs, the
/// head and the silence value as they were.
pub proof fn law_graph_changes_keep_inputs<S, B>(
    v: RenderView<S, B>,
    h: NodeHandle,
    data: MyNodeData<B>,
    e: Edge,
)
    ensures
        v.with_node(h, data).inputs == v.inputs && v.with_node(h, data).head == v.head
            && v.with_node(h, data).silence == v.silence,
        v.without_node(h).inputs == v.inputs && v.without_node(h).head == v.head
            && v.without_node(h).silence == v.silence,
        v.with_edge(e).inputs == v.inputs && v.with_edge(e).head == v.head
            && v.with_edge(e).silence == v.silence,
        v.without_edge(e).inputs == v.inputs && v.without_edge(e).head == v.head
            && v.without_edge(e).silence == v.silence,
        forall|t: u64, s: u32| #[trigger]
            v.with_edge(e).input_value(t, s) == v.input_value(t, s),
{
}

/// A compiled node's output is computed from its own inputs: an edge from a
/// node holding a compiled function is answered by that function, at the
/// edge's source slot, and every input the function asks for is read
/// through that same node's inbound edges.
pub proof fn law_function_reads_own_inbound<S, B>(
    v: RenderView<S, B>,
    e: Edge,
    time: u64,
    time2: u64,
    slot2: u32,
)
    requires
        !e.spec_from().spec_is_toplevel(),
        v.nodes.dom().contains(e.spec_from()),
        (v.nodes[e.spec_from()].data matches MyNodeData::LlvmFunc(_)),
    ensures
        v.edge_source(time, e) == (SampleSource::<S>::Function {
            node: e.spec_from(),
            time,
            slot: e.spec_from_slot(),
        }),
        v.callback_source(v.edge_source(time, e), time2, slot2) == v.inbound_source(
            e.spec_from(),
            time2,
            slot2,
        ),
        v.inbound_source(e.spec_from(), time2, slot2) == v.entry_source(
            time2,
            slot_entry(v.nodes[e.spec_from()].inbound, slot2),
        ),
{
}

/// An output slot reads the edge stored there: silence past the last slot
/// or on an empty slot, otherwise the source of that edge. The same holds of
/// a node's input slots.
pub proof fn law_sources_follow_stored_edges<S, B>(
    v: RenderView<S, B>,
    node: NodeHandle,
    time: u64,
    slot: u32,
)
    ensures
        (slot as int) >= v.outputs.len() ==> v.sample_source(time, slot) == SampleSource::<
            S,
        >::Value(v.silence),
        (slot as int) < v.outputs.len() ==> v.sample_source(time, slot) == (match v.outputs[slot as int] {
            Some(e) => v.edge_source(time, e),
            None => SampleSource::<S>::Value(v.silence),
        }),
        (slot as int) >= v.nodes[node].inbound.len() ==> v.inbound_source(node, time, slot)
            == SampleSource::<S>::Value(v.silence),
        (slot as int) < v.nodes[node].inbound.len() ==> v.inbound_source(node, time, slot)
            == (match v.nodes[node].inbound[slot as int] {
            Some(e) => v.edge_source(time, e),
            None => SampleSource::<S>::Value(v.silence),
        }),
{
}

/// A node holding a buffer is read at the source slot of the edge, at the
/// requested time; a node holding a compiled function likewise.
pub proof fn law_node_read_at_source_slot<S, B>(v: RenderView<S, B>, e: Edge, time: u64)
    requires
        !e.spec_from().spec_is_toplevel(),
        v.nodes.dom().contains(e.spec_from()),
    ensures
        (v.nodes[e.spec_from()].data matches MyNodeData::Buffer(_)) ==> v.edge_source(time, e) == (
        SampleSource::<S>::Buffer { node: e.spec_from(), time, slot: e.spec_from_slot() }),
        (v.nodes[e.spec_from()].data matches MyNodeData::LlvmFunc(_)) ==> v.edge_source(time, e)
            == (SampleSource::<S>::Function { node: e.spec_from(), time, slot: e.spec_from_slot() }),
{
}

/// An edge from the graph's inputs reads the external input recorded at
/// the edge's source slot and the requested time (silence where nothing was
/// recorded), whatever its destination slot.
pub proof fn law_input_read_at_source_slot<S, B>(v: RenderView<S, B>, e: Edge, time: u64)
    requires
        e.spec_from().spec_is_toplevel(),
    ensures
        v.edge_source(time, e) == SampleSource::<S>::Value(
            if (e.spec_from_slot() as int) < v.inputs.len() && (time as int) < v.inputs[e.spec_from_slot() as int].len() {
                v.inputs[e.spec_from_slot() as int][time as int]
            } else {
                v.silence
            },
        ),
{
}

/// Adding or removing a node leaves the graph's output edges as they were,
/// so every output slot keeps the edge it had.
pub proof fn law_node_changes_keep_outputs<S, B>(
    v: RenderView<S, B>,
    h: NodeHandle,
    data: MyNodeData<B>,
    slot: u32,
)
    ensures
        v.with_node(h, data).outputs == v.outputs,
        v.without_node(h).outputs == v.outputs,
        v.with_node(h, data).edge_at(NodeHandle::new_spec(h.spec_dag(), None), slot) == v.edge_at(
            NodeHandle::new_spec(h.spec_dag(), None),
            slot,
        ),
        v.without_node(h).edge_at(NodeHandle::new_spec(h.spec_dag(), None), slot) == v.edge_at(
            NodeHandle::new_spec(h.spec_dag(), None),
            slot,
        ),
{
}

/// When a render can record its inputs: exactly when the block's end fits
/// both `u64` and `usize`, and each input row that receives samples (row `i`
/// for `i` below both the number of rows given and the number of rows kept,
/// which is at least `buff_len`) holds `idx` samples before the render (any
/// row does on a seek, as do the rows added for `buff_len`) and receives at
/// most `n_times` samples.
pub proof fn law_fill_ok_exactly<S, B>(
    v: RenderView<S, B>,
    idx: u64,
    n_times: usize,
    buff_len: usize,
    rows: Seq<Seq<S>>,
)
    ensures
        v.fill_ok(idx, n_times, buff_len, rows) <==> {
            &&& idx + n_times <= u64::MAX
            &&& idx + n_times <= usize::MAX
            &&& forall|i: int|
                #![trigger rows[i]]
                0 <= i < rows.len() && (i < v.inputs.len() || i < buff_len) ==> {
                    &&& (idx == v.head && i < v.inputs.len()) ==> v.inputs[i].len() == idx
                    &&& rows[i].len() <= n_times
                }
        },
{
    let prepared = v.prepared_inputs(idx, buff_len);
    assert(prepared.len() == if v.inputs.len() < buff_len {
        buff_len as int
    } else {
        v.inputs.len() as int
    });
    let rhs = {
        &&& idx + n_times <= u64::MAX
        &&& idx + n_times <= usize::MAX
        &&& forall|i: int|
            #![trigger rows[i]]
            0 <= i < rows.len() && (i < v.inputs.len() || i < buff_len) ==> {
                &&& (idx == v.head && i < v.inputs.len()) ==> v.inputs[i].len() == idx
                &&& rows[i].len() <= n_times
            }
    };
    if v.fill_ok(idx, n_times, buff_len, rows) {
        assert forall|i: int|
            #![trigger rows[i]]
            0 <= i < rows.len() && (i < v.inputs.len() || i < buff_len) implies {
            &&& (idx == v.head && i < v.inputs.len()) ==> v.inputs[i].len() == idx
            &&& rows[i].len() <= n_times
        } by {
            assert(prepared[i].len() == idx);
            if idx == v.head && i < v.inputs.len() {
                assert(prepared[i] == v.inputs[i]);
            }
        }
    }
    if rhs {
        assert forall|i: int|
            0 <= i < rows.len() && i < prepared.len() implies (#[trigger] prepared[i]).len() == idx
            && rows[i].len() <= n_times by {
            assert(rows[i].len() <= n_times);
            if idx == v.head && i < v.inputs.len() {
                assert(v.inputs[i].len() == idx);
                assert(prepared[i] == v.inputs[i]);
            } else {
                assert(prepared[i] == repeated(v.silence, idx as nat));
            }
        }
    }
}

} // verus!
