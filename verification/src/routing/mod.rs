//! Contains all functionality necessary to define the mathematical relationships that govern
//! each sample's value.
//! It's the Renderer's job to determine the most optimial order to computations to satisfy these
//! mathematical relationships.

pub mod adjlist;
pub mod effect;
pub mod routegraph;

pub use self::adjlist::AdjList;
pub use self::effect::{EffectDesc, EffectId, EffectInput, EffectMeta, EffectOutput};
pub use self::routegraph::{DagHandle, Edge, EdgeWeight, NodeHandle};
