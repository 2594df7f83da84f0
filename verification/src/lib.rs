//! Synthesis of physics collision shapes from a loaded scene graph.
//!
//! A loaded scene is a forest of nodes, each with a local transform, an
//! optional reference into a mesh table, free-form textual metadata, and
//! owned children. The library walks that forest in depth-first pre-order,
//! extracts a triangle-mesh collision shape from every well-formed mesh
//! primitive it meets, and decides, from each node's metadata, whether the
//! shapes sourced from that node become active colliders (solid or sensor,
//! with event reporting and continuous collision detection). A one-shot load
//! gate makes sure the whole pipeline runs exactly once per expected asset
//! handle.

pub mod gate;
pub mod geometry;
pub mod matcher;
pub mod metadata;
pub mod pipeline;
pub mod scene;
pub mod traverse;
