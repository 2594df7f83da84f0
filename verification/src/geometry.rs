//! The geometry extractor: from a mesh primitive's vertex and index buffers,
//! a triangle-mesh collision shape, or nothing when the primitive is
//! degenerate or malformed.

use crate::scene::MeshPrimitive;
use crate::scene::Vec3Bits;
use vstd::prelude::*;

verus! {

/// A triangle-mesh collision shape: the primitive's vertex buffer, exactly as
/// authored, and an index buffer whose consecutive triples are triangles. The
/// invariant `shape_valid` holds of every shape the extractor yields.
pub struct TriMeshShape {
    pub positions: Vec<Vec3Bits>,
    pub triangles: Vec<u32>,
}

/// A well-formed index buffer over `nverts` vertices: non-empty, a whole
/// number of triangles, every index in bounds. These are exactly the buffers
/// from which the simulation collaborator constructs a triangle-mesh shape:
/// its constructor rejects an empty triangle list, and an out-of-bounds index
/// would make the mesh malformed.
pub open spec fn indices_valid(idx: Seq<u32>, nverts: int) -> bool {
    &&& idx.len() > 0
    &&& idx.len() % 3 == 0
    &&& forall|i: int| 0 <= i < idx.len() ==> (#[trigger] idx[i]) < nverts
}

/// A primitive from which a collision shape can be built: at least 3
/// vertices, an index buffer present and well-formed.
pub open spec fn prim_valid(p: MeshPrimitive) -> bool {
    &&& p.positions@.len() >= 3
    &&& p.indices is Some
    &&& indices_valid(p.indices->0@, p.positions@.len() as int)
}

/// Well-formedness of an extracted shape.
pub open spec fn shape_valid(s: TriMeshShape) -> bool {
    &&& s.positions@.len() >= 3
    &&& indices_valid(s.triangles@, s.positions@.len() as int)
}

/// Build a collision shape from a primitive: its geometry, unmodified.
/// Yields `None` exactly when the primitive is degenerate or malformed
/// (fewer than 3 vertices, no index buffer, or an index buffer that is
/// empty, ragged or out of bounds); the caller skips such a primitive and
/// goes on. Pure: no side effects.
pub fn extract_shape(p: &MeshPrimitive) -> (r: Option<TriMeshShape>)
    ensures
        (r is Some) == prim_valid(*p),
        r matches Some(s) ==> {
            &&& s.positions@ == p.positions@
            &&& s.triangles@ == p.indices->0@
            &&& shape_valid(s)
        },
{
    if p.positions.len() < 3 {
        return None;
    }
    let idx: &Vec<u32> = match &p.indices {
        Some(idx) => idx,
        None => {
            return None;
        },
    };
    if idx.len() == 0 || idx.len() % 3 != 0 {
        return None;
    }
    let nverts = p.positions.len();
    let mut i: usize = 0;
    while i < idx.len()
        invariant
            0 <= i <= idx@.len(),
            p.indices is Some,
            idx@ == p.indices->0@,
            nverts == p.positions@.len(),
            forall|k: int| 0 <= k < i ==> (#[trigger] idx@[k]) < nverts,
        decreases idx@.len() - i,
    {
        if idx[i] as usize >= nverts {
            proof {
                assert(idx@[i as int] >= nverts);
                assert(!indices_valid(idx@, p.positions@.len() as int));
            }
            return None;
        }
        i += 1;
    }
    let mut positions: Vec<Vec3Bits> = Vec::new();
    let mut j: usize = 0;
    while j < p.positions.len()
        invariant
            0 <= j <= p.positions@.len(),
            positions@ == p.positions@.take(j as int),
        decreases p.positions@.len() - j,
    {
        positions.push(p.positions[j]);
        proof {
            assert(positions@ =~= p.positions@.take(j as int + 1));
        }
        j += 1;
    }
    let mut triangles: Vec<u32> = Vec::new();
    let mut k: usize = 0;
    while k < idx.len()
        invariant
            0 <= k <= idx@.len(),
            triangles@ == idx@.take(k as int),
        decreases idx@.len() - k,
    {
        triangles.push(idx[k]);
        proof {
            assert(triangles@ =~= idx@.take(k as int + 1));
        }
        k += 1;
    }
    proof {
        assert(positions@ =~= p.positions@);
        assert(triangles@ =~= idx@);
    }
    Some(TriMeshShape { positions, triangles })
}

/// A primitive with fewer than 3 vertices never yields a shape.
pub proof fn lemma_too_few_vertices_no_shape(p: MeshPrimitive)
    requires
        p.positions@.len() < 3,
    ensures
        !prim_valid(p),
{
}

} // verus!
