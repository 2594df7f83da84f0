use gltf_colliders::gate::LoadGate;
use gltf_colliders::matcher::MatchOutcome;
use gltf_colliders::metadata::ActivationConfig;
use gltf_colliders::metadata::ActivationMode;
use gltf_colliders::pipeline::process_ready;
use gltf_colliders::scene::Mesh;
use gltf_colliders::scene::MeshPrimitive;
use gltf_colliders::scene::QuatBits;
use gltf_colliders::scene::Scene;
use gltf_colliders::scene::SceneNode;
use gltf_colliders::scene::Transform;
use gltf_colliders::scene::Vec3Bits;

fn v3(x: f32, y: f32, z: f32) -> Vec3Bits {
    Vec3Bits { x: x.to_bits(), y: y.to_bits(), z: z.to_bits() }
}

/// A transform distinguishable by its translation's first component.
fn tf(tag: f32) -> Transform {
    Transform {
        translation: v3(tag, 0.0, 0.0),
        rotation: QuatBits { x: 0, y: 0, z: 0, w: 1.0f32.to_bits() },
        scale: v3(1.0, 1.0, 1.0),
    }
}

fn triangle_mesh() -> Mesh {
    Mesh {
        primitives: vec![MeshPrimitive {
            positions: vec![v3(0.0, 0.0, 0.0), v3(1.0, 0.0, 0.0), v3(0.0, 1.0, 0.0)],
            indices: Some(vec![0, 1, 2]),
        }],
    }
}

fn node(
    mesh: Option<usize>,
    tag: f32,
    metadata: Option<&str>,
    children: Vec<SceneNode>,
) -> SceneNode {
    SceneNode { mesh, transform: tf(tag), metadata: metadata.map(String::from), children }
}

fn solid_cfg() -> ActivationConfig {
    ActivationConfig { sensor_default: false }
}

#[test]
fn three_level_tree_activates_only_the_annotated_node() {
    // root (no mesh) -> child A (mesh M1, collider:"true") -> grandchild B (mesh M2, no metadata)
    let meshes = vec![triangle_mesh(), triangle_mesh()];
    let b = node(Some(1), 3.0, None, Vec::new());
    let a = node(Some(0), 2.0, Some("{\"collider\":\"true\"}"), vec![b]);
    let root = node(None, 1.0, None, vec![a]);
    let scene = Scene { roots: vec![root] };
    let mut gate = LoadGate::new(7);
    let out = process_ready(&mut gate, 7, &scene, &meshes, &solid_cfg())
        .expect("the expected handle must fire");

    // every node visited once, in pre-order: root, A, B
    assert_eq!(out.traversal.visited.len(), 3);
    assert_eq!(out.traversal.visited[0].transform, tf(1.0));
    assert_eq!(out.traversal.visited[1].transform, tf(2.0));
    assert_eq!(out.traversal.visited[2].transform, tf(3.0));

    // A and B each produced one descriptor, with their own transforms
    assert_eq!(out.traversal.descriptors.len(), 2);
    assert_eq!(out.traversal.descriptors[0].node, 1);
    assert_eq!(out.traversal.descriptors[0].transform, tf(2.0));
    assert_eq!(out.traversal.descriptors[1].node, 2);
    assert_eq!(out.traversal.descriptors[1].transform, tf(3.0));

    // only A carries metadata, so only A's descriptor gets an outcome,
    // and only A's collider is materialized; B's never is
    assert_eq!(out.outcomes.len(), 1);
    match out.outcomes[0] {
        MatchOutcome::Decision { descriptor, node, decision } => {
            assert_eq!(descriptor, 0);
            assert_eq!(node, 1);
            assert_eq!(decision.mode, ActivationMode::Solid);
            assert!(decision.report_events);
            assert!(decision.continuous);
        },
        MatchOutcome::ParseFailure { .. } => panic!("A's metadata is valid JSON"),
    }
    assert_eq!(out.active.len(), 1);
    assert_eq!(out.active[0].descriptor, 0);
    assert_eq!(out.active[0].node, 1);
}

#[test]
fn collider_false_extracts_a_shape_but_never_activates_it() {
    let meshes = vec![triangle_mesh()];
    let n = node(Some(0), 1.0, Some("{\"collider\":\"false\"}"), Vec::new());
    let scene = Scene { roots: vec![n] };
    let mut gate = LoadGate::new(1);
    let out = process_ready(&mut gate, 1, &scene, &meshes, &solid_cfg()).expect("must fire");
    assert_eq!(out.traversal.descriptors.len(), 1);
    assert_eq!(out.outcomes.len(), 1);
    match out.outcomes[0] {
        MatchOutcome::Decision { decision, .. } => {
            assert_eq!(decision.mode, ActivationMode::Inactive);
        },
        MatchOutcome::ParseFailure { .. } => panic!("valid JSON must parse"),
    }
    assert!(out.active.is_empty());
}

#[test]
fn malformed_metadata_is_reported_and_siblings_still_process() {
    let meshes = vec![triangle_mesh(), triangle_mesh()];
    let bad = node(Some(0), 2.0, Some("not-json"), Vec::new());
    let good = node(Some(1), 3.0, Some("{\"collider\":\"true\"}"), Vec::new());
    let root = node(None, 1.0, None, vec![bad, good]);
    let scene = Scene { roots: vec![root] };
    let mut gate = LoadGate::new(9);
    let out = process_ready(&mut gate, 9, &scene, &meshes, &solid_cfg()).expect("must fire");

    assert_eq!(out.traversal.descriptors.len(), 2);
    assert_eq!(out.outcomes.len(), 2);
    match out.outcomes[0] {
        MatchOutcome::ParseFailure { descriptor, node } => {
            assert_eq!(descriptor, 0);
            assert_eq!(node, 1);
        },
        MatchOutcome::Decision { .. } => panic!("malformed metadata must be reported"),
    }
    match out.outcomes[1] {
        MatchOutcome::Decision { descriptor, node, decision } => {
            assert_eq!(descriptor, 1);
            assert_eq!(node, 2);
            assert_eq!(decision.mode, ActivationMode::Solid);
        },
        MatchOutcome::ParseFailure { .. } => panic!("the sibling's metadata is valid"),
    }
    // no collider for the malformed node; the sibling's is materialized
    assert_eq!(out.active.len(), 1);
    assert_eq!(out.active[0].node, 2);
}

#[test]
fn resignal_after_consumption_yields_nothing() {
    let meshes = vec![triangle_mesh()];
    let n = node(Some(0), 1.0, Some("{\"collider\":\"true\"}"), Vec::new());
    let scene = Scene { roots: vec![n] };
    let mut gate = LoadGate::new(4);
    let first = process_ready(&mut gate, 4, &scene, &meshes, &solid_cfg());
    assert!(first.is_some());
    assert_eq!(first.unwrap().active.len(), 1);
    let second = process_ready(&mut gate, 4, &scene, &meshes, &solid_cfg());
    assert!(second.is_none());
}

#[test]
fn foreign_handle_is_ignored_and_the_gate_keeps_waiting() {
    let meshes = vec![triangle_mesh()];
    let n = node(Some(0), 1.0, None, Vec::new());
    let scene = Scene { roots: vec![n] };
    let mut gate = LoadGate::new(4);
    assert!(process_ready(&mut gate, 5, &scene, &meshes, &solid_cfg()).is_none());
    // the expected handle still fires afterwards
    assert!(process_ready(&mut gate, 4, &scene, &meshes, &solid_cfg()).is_some());
}

#[test]
fn preorder_visits_children_in_declared_order_depth_first() {
    // root -> [a (-> c), b]: pre-order is root, a, c, b
    let c = node(None, 3.0, None, Vec::new());
    let a = node(None, 2.0, None, vec![c]);
    let b = node(None, 4.0, None, Vec::new());
    let root = node(None, 1.0, None, vec![a, b]);
    let scene = Scene { roots: vec![root] };
    let mut gate = LoadGate::new(0);
    let out = process_ready(&mut gate, 0, &scene, &Vec::new(), &solid_cfg()).expect("must fire");
    assert_eq!(out.traversal.visited.len(), 4);
    assert_eq!(out.traversal.visited[0].transform, tf(1.0));
    assert_eq!(out.traversal.visited[1].transform, tf(2.0));
    assert_eq!(out.traversal.visited[2].transform, tf(3.0));
    assert_eq!(out.traversal.visited[3].transform, tf(4.0));
    assert!(out.traversal.descriptors.is_empty());
    assert!(out.outcomes.is_empty());
    assert!(out.active.is_empty());
}

#[test]
fn degenerate_primitive_is_skipped_and_traversal_goes_on() {
    // the first mesh has a 2-vertex primitive (degenerate) and a valid one
    let degenerate = MeshPrimitive {
        positions: vec![v3(0.0, 0.0, 0.0), v3(1.0, 0.0, 0.0)],
        indices: Some(vec![0, 1, 0]),
    };
    let valid = MeshPrimitive {
        positions: vec![v3(0.0, 0.0, 0.0), v3(1.0, 0.0, 0.0), v3(0.0, 1.0, 0.0)],
        indices: Some(vec![0, 1, 2]),
    };
    let meshes = vec![Mesh { primitives: vec![degenerate, valid] }, triangle_mesh()];
    let child = node(Some(1), 2.0, None, Vec::new());
    let root = node(Some(0), 1.0, None, vec![child]);
    let scene = Scene { roots: vec![root] };
    let mut gate = LoadGate::new(2);
    let out = process_ready(&mut gate, 2, &scene, &meshes, &solid_cfg()).expect("must fire");
    // the degenerate primitive yields nothing; the valid one of the root and
    // the child's both do
    assert_eq!(out.traversal.descriptors.len(), 2);
    assert_eq!(out.traversal.descriptors[0].node, 0);
    assert_eq!(out.traversal.descriptors[1].node, 1);
}

#[test]
fn missing_mesh_reference_contributes_nothing() {
    // the node references mesh 3, but the table has one entry: the
    // sub-resource is absent, the node contributes nothing
    let meshes = vec![triangle_mesh()];
    let n = node(Some(3), 1.0, Some("{\"collider\":\"true\"}"), Vec::new());
    let scene = Scene { roots: vec![n] };
    let mut gate = LoadGate::new(2);
    let out = process_ready(&mut gate, 2, &scene, &meshes, &solid_cfg()).expect("must fire");
    assert!(out.traversal.descriptors.is_empty());
    // no descriptor, so metadata alone decides nothing
    assert!(out.outcomes.is_empty());
    assert!(out.active.is_empty());
}

#[test]
fn sensor_default_materializes_sensors() {
    let meshes = vec![triangle_mesh()];
    let n = node(Some(0), 1.0, Some("{\"collider\":\"true\"}"), Vec::new());
    let scene = Scene { roots: vec![n] };
    let mut gate = LoadGate::new(1);
    let cfg = ActivationConfig { sensor_default: true };
    let out = process_ready(&mut gate, 1, &scene, &meshes, &cfg).expect("must fire");
    assert_eq!(out.active.len(), 1);
    assert_eq!(out.active[0].decision.mode, ActivationMode::Sensor);
    assert!(out.active[0].decision.report_events);
    assert!(out.active[0].decision.continuous);
}

#[test]
fn metadata_without_geometry_decides_nothing() {
    // the node carries enabling metadata, but its only primitive is
    // degenerate: no descriptor, so no decision and no collider
    let degenerate = Mesh {
        primitives: vec![MeshPrimitive {
            positions: vec![v3(0.0, 0.0, 0.0), v3(1.0, 0.0, 0.0)],
            indices: Some(vec![0, 1, 0]),
        }],
    };
    let meshes = vec![degenerate];
    let n = node(Some(0), 1.0, Some("{\"collider\":\"true\"}"), Vec::new());
    let scene = Scene { roots: vec![n] };
    let mut gate = LoadGate::new(1);
    let out = process_ready(&mut gate, 1, &scene, &meshes, &solid_cfg()).expect("must fire");
    assert!(out.traversal.descriptors.is_empty());
    assert!(out.outcomes.is_empty());
    assert!(out.active.is_empty());
}

#[test]
fn empty_scene_yields_nothing() {
    let scene = Scene { roots: Vec::new() };
    let mut gate = LoadGate::new(0);
    let out = process_ready(&mut gate, 0, &scene, &Vec::new(), &solid_cfg()).expect("must fire");
    assert!(out.traversal.visited.is_empty());
    assert!(out.traversal.descriptors.is_empty());
    assert!(out.active.is_empty());
}
