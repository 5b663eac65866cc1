//! A bindless mesh pipeline: triangle meshes are normalized into per-triangle
//! primitive records, a bounding-volume hierarchy is built over them and
//! flattened into a stackless linear node array, and all compiled meshes are
//! packed into three global buffers addressed by per-mesh integer offsets.
//!
//! Coordinates are carried as IEEE-754 single-precision bit patterns in `u32`
//! fields; the pipeline itself only moves them and compares them under the
//! IEEE-754 total order, which on bit patterns is expressible with plain
//! integer arithmetic.
pub mod bvh;
pub mod extract;
pub mod geometry;
pub mod pack;
pub mod pipeline;
pub mod registry;
pub mod tracker;
pub mod types;
