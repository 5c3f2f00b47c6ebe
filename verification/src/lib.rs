//! Routing model and rendering bookkeeping for an audio effect graph.
//!
//! `routing` describes route graphs (nodes, edges, effect descriptions),
//! `render` keeps the state a renderer needs between calls (the node map,
//! the edges feeding each slot, and the history of external inputs) and
//! decides where each output sample comes from, and `stdfx` holds the
//! descriptions of the built-in effects.

pub mod render;
pub mod routing;
pub mod stdfx;
