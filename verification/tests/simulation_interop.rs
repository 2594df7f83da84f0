//! The shapes the extractor yields are exactly what the simulation
//! collaborator's triangle-mesh constructor accepts.

use bevy_rapier3d::math::Vect;
use bevy_rapier3d::prelude::Collider;
use gltf_colliders::geometry::TriMeshShape;
use gltf_colliders::geometry::extract_shape;
use gltf_colliders::scene::MeshPrimitive;
use gltf_colliders::scene::Vec3Bits;

fn v3(x: f32, y: f32, z: f32) -> Vec3Bits {
    Vec3Bits { x: x.to_bits(), y: y.to_bits(), z: z.to_bits() }
}

fn to_buffers(shape: &TriMeshShape) -> (Vec<Vect>, Vec<[u32; 3]>) {
    let vertices: Vec<Vect> = shape
        .positions
        .iter()
        .map(|p| Vect::new(f32::from_bits(p.x), f32::from_bits(p.y), f32::from_bits(p.z)))
        .collect();
    let triangles: Vec<[u32; 3]> =
        shape.triangles.chunks(3).map(|t| [t[0], t[1], t[2]]).collect();
    (vertices, triangles)
}

#[test]
fn extracted_shape_builds_a_rapier_trimesh_collider() {
    let prim = MeshPrimitive {
        positions: vec![
            v3(0.0, 0.0, 0.0),
            v3(1.0, 0.0, 0.0),
            v3(1.0, 1.0, 0.0),
            v3(0.0, 1.0, 0.0),
        ],
        indices: Some(vec![0, 1, 2, 0, 2, 3]),
    };
    let shape = extract_shape(&prim).expect("a quad must yield a shape");
    let (vertices, triangles) = to_buffers(&shape);
    assert_eq!(vertices.len(), 4);
    assert_eq!(triangles.len(), 2);
    let collider = Collider::trimesh(vertices, triangles);
    assert!(collider.is_ok());
}

#[test]
fn bit_patterns_round_trip_through_the_host_scalars() {
    let p = v3(1.5, -2.25, 1000.125);
    assert_eq!(f32::from_bits(p.x), 1.5);
    assert_eq!(f32::from_bits(p.y), -2.25);
    assert_eq!(f32::from_bits(p.z), 1000.125);
}
