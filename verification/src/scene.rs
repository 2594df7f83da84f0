//! The data the asset-loading collaborator hands over: a forest of scene
//! nodes, and a table of meshes made of primitives.
//!
//! The host works with binary32 coordinates. This library never interprets a
//! coordinate: it only carries transforms and vertex positions through to the
//! attachment step. Each such scalar is therefore held as its raw bit
//! pattern, a `u32`, which the host converts losslessly in both directions.

use vstd::prelude::*;

verus! {

/// A 3-component vector, each component the bit pattern of a host scalar.
#[derive(Clone, Copy, PartialEq, Eq, Structural, Debug)]
pub struct Vec3Bits {
    pub x: u32,
    pub y: u32,
    pub z: u32,
}

/// A rotation quaternion, each component the bit pattern of a host scalar.
#[derive(Clone, Copy, PartialEq, Eq, Structural, Debug)]
pub struct QuatBits {
    pub x: u32,
    pub y: u32,
    pub z: u32,
    pub w: u32,
}

/// A node's local transform, exactly as authored: translation, rotation and
/// non-uniform scale. The library copies it into descriptors unmodified.
#[derive(Clone, Copy, PartialEq, Eq, Structural, Debug)]
pub struct Transform {
    pub translation: Vec3Bits,
    pub rotation: QuatBits,
    pub scale: Vec3Bits,
}

/// One chunk of geometry belonging to a mesh: vertex positions, and
/// optionally an index sequence whose consecutive triples are triangles.
pub struct MeshPrimitive {
    pub positions: Vec<Vec3Bits>,
    pub indices: Option<Vec<u32>>,
}

/// A mesh: the primitives it is made of, in declaration order.
pub struct Mesh {
    pub primitives: Vec<MeshPrimitive>,
}

/// A node of the scene hierarchy. `mesh` is an index into the loaded asset's
/// mesh table; it may be absent, or point outside the table when the
/// sub-resource has not been loaded, and then the node contributes no
/// geometry. `metadata` is the node's raw textual annotation, if any.
/// Children are owned, in declared order: the hierarchy is a finite tree.
pub struct SceneNode {
    pub mesh: Option<usize>,
    pub transform: Transform,
    pub metadata: Option<String>,
    pub children: Vec<SceneNode>,
}

/// A loaded scene: its list of root nodes, in declared order.
pub struct Scene {
    pub roots: Vec<SceneNode>,
}

/// The metadata annotation of a node, as a mathematical value.
pub open spec fn meta_view(m: Option<String>) -> Option<Seq<char>> {
    match m {
        Some(s) => Some(s@),
        None => None,
    }
}

} // verus!
