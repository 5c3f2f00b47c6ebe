# sparkle

The routing model and the rendering bookkeeping of a JIT audio renderer,
written in Verus.

- `src/routing/`: handles for graphs and nodes, weighted edges, effect
  descriptions, and the adjacency-list form of a route graph.
- `src/stdfx/passthrough.rs`: the description of the passthrough effect.
- `src/render/sparkle.rs`: the renderer state that does not depend on the code
  generator (node map, edges per slot, history of external inputs, playhead)
  and the choice of where each sample comes from; `src/render/laws.rs` holds
  what is proved of it across operations.
- `app/`: the program around the library: the floating-point sample types,
  the serde forms of the routing types, and the LLVM code generator that
  drives the library's renderer state.
