//! Per-frame GPU work scheduling for a real-time renderer.
//!
//! The crate models the layer between "a set of visible objects" and "a
//! sequence of draw calls": a render-graph node that caches GPU bindings
//! across frames with identity-keyed invalidation, a pipeline specializer
//! that derives and memoizes pipeline variants from a bit-packed feature
//! key, and a render phase that collects, stably sorts and dispatches
//! drawable items. GPU work is represented as a recorded command sequence,
//! so every contract can state exactly which commands a step emits.

pub mod gpu;
pub mod key;
pub mod node;
pub mod phase;
pub mod pipeline_cache;
pub mod queue;
pub mod render_resource;
pub mod specialize;
