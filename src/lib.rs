//! Visibility culling by bounding volumes, and fixed-capacity mesh batching.
//!
//! `geometry` holds exact integer vectors, transforms and planes; `culling`
//! the bounding box, sphere and the two-stage frustum test; `mesh` the vertex
//! and index storage of one draw call; `shape_renderer` the pool of meshes
//! that emitted vertices are written into.
pub mod culling;
pub mod geometry;
pub mod mesh;
pub mod shape_renderer;
