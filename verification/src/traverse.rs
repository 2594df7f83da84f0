//! The node traversal engine: a depth-first pre-order walk of the scene
//! forest that gives every node its pre-order index, extracts a collision
//! shape from every well-formed primitive of every mesh-bearing node, and
//! emits the descriptors in visit order.

use crate::geometry::TriMeshShape;
use crate::geometry::extract_shape;
use crate::geometry::prim_valid;
use crate::scene::Mesh;
use crate::scene::MeshPrimitive;
use crate::scene::Scene;
use crate::scene::SceneNode;
use crate::scene::Transform;
use crate::scene::meta_view;
use vstd::prelude::*;

verus! {

/// What the traversal records of a visited node: its local transform and its
/// raw metadata. A node's identity is its pre-order index: the position of
/// its record in the visited list.
pub struct NodeRecord {
    pub transform: Transform,
    pub metadata: Option<String>,
}

/// A synthesized collider: the extracted shape, the source node's local
/// transform exactly as authored (not the accumulated world transform), and
/// the source node's identity (its pre-order index).
pub struct ColliderDescriptor {
    pub shape: TriMeshShape,
    pub transform: Transform,
    pub node: usize,
}

/// Everything one traversal produces: the visited nodes in depth-first
/// pre-order, and the descriptors in emission order.
pub struct TraversalOutput {
    pub visited: Vec<NodeRecord>,
    pub descriptors: Vec<ColliderDescriptor>,
}

/// A node record as a mathematical value.
#[verifier::ext_equal]
pub ghost struct RecView {
    pub transform: Transform,
    pub metadata: Option<Seq<char>>,
}

/// A collider descriptor as a mathematical value.
#[verifier::ext_equal]
pub ghost struct DescView {
    pub positions: Seq<crate::scene::Vec3Bits>,
    pub triangles: Seq<u32>,
    pub transform: Transform,
    pub node: int,
}

pub open spec fn rec_view(r: NodeRecord) -> RecView {
    RecView { transform: r.transform, metadata: meta_view(r.metadata) }
}

pub open spec fn node_rec(n: SceneNode) -> RecView {
    RecView { transform: n.transform, metadata: meta_view(n.metadata) }
}

pub open spec fn desc_view(d: ColliderDescriptor) -> DescView {
    DescView {
        positions: d.shape.positions@,
        triangles: d.shape.triangles@,
        transform: d.transform,
        node: d.node as int,
    }
}

/// The descriptor that a valid primitive of a node yields: the primitive's
/// geometry unmodified, the node's transform, the node's identity.
pub open spec fn mk_desc(p: MeshPrimitive, t: Transform, node: int) -> DescView {
    DescView { positions: p.positions@, triangles: p.indices->0@, transform: t, node }
}

pub open spec fn recs_view(s: Seq<NodeRecord>) -> Seq<RecView> {
    s.map_values(|r: NodeRecord| rec_view(r))
}

pub open spec fn descs_view(s: Seq<ColliderDescriptor>) -> Seq<DescView> {
    s.map_values(|d: ColliderDescriptor| desc_view(d))
}

pub open spec fn nodes_rec_view(s: Seq<SceneNode>) -> Seq<RecView> {
    s.map_values(|n: SceneNode| node_rec(n))
}

/// The depth-first pre-order sequence of a subtree: the node itself, then its
/// children's subtrees in declared order.
pub open spec fn preorder_nodes(n: SceneNode) -> Seq<SceneNode>
    decreases n,
{
    seq![n] + preorder_forest(n.children@)
}

/// The depth-first pre-order sequence of a forest, in declared order.
pub open spec fn preorder_forest(s: Seq<SceneNode>) -> Seq<SceneNode>
    decreases s,
{
    if s.len() == 0 {
        Seq::empty()
    } else {
        preorder_nodes(s[0]) + preorder_forest(s.drop_first())
    }
}

/// How many nodes a subtree holds.
pub open spec fn node_count(n: SceneNode) -> nat
    decreases n,
{
    1 + forest_count(n.children@)
}

/// How many nodes a forest holds.
pub open spec fn forest_count(s: Seq<SceneNode>) -> nat
    decreases s,
{
    if s.len() == 0 {
        0
    } else {
        node_count(s[0]) + forest_count(s.drop_first())
    }
}

/// The descriptors a primitive list yields for one node: one per valid
/// primitive, in declaration order, each carrying the node's transform and
/// identity; invalid primitives are skipped.
pub open spec fn prim_descs(ps: Seq<MeshPrimitive>, t: Transform, node: int) -> Seq<DescView>
    decreases ps.len(),
{
    if ps.len() == 0 {
        Seq::empty()
    } else {
        prim_descs(ps.drop_last(), t, node) + if prim_valid(ps.last()) {
            seq![mk_desc(ps.last(), t, node)]
        } else {
            Seq::empty()
        }
    }
}

/// The descriptors one node yields, given the mesh table: nothing when the
/// node references no mesh or the reference points outside the table (the
/// sub-resource is simply absent), else one descriptor per valid primitive.
pub open spec fn node_descs(n: SceneNode, meshes: Seq<Mesh>, node_id: int) -> Seq<DescView> {
    match n.mesh {
        Some(m) => if (m as int) < meshes.len() {
            prim_descs(meshes[m as int].primitives@, n.transform, node_id)
        } else {
            Seq::empty()
        },
        None => Seq::empty(),
    }
}

/// The descriptors a node sequence yields when its nodes get the identities
/// `base`, `base + 1`, ...: each node's descriptors in order.
pub open spec fn descs_of_nodes(nodes: Seq<SceneNode>, meshes: Seq<Mesh>, base: int) -> Seq<
    DescView,
>
    decreases nodes.len(),
{
    if nodes.len() == 0 {
        Seq::empty()
    } else {
        descs_of_nodes(nodes.drop_last(), meshes, base) + node_descs(
            nodes.last(),
            meshes,
            base + nodes.len() - 1,
        )
    }
}

/// Mapping a view over a concatenation is the concatenation of the maps.
pub proof fn lemma_map_values_add<A, B>(a: Seq<A>, b: Seq<A>, f: spec_fn(A) -> B)
    ensures
        (a + b).map_values(f) == a.map_values(f) + b.map_values(f),
{
    assert((a + b).map_values(f) =~= a.map_values(f) + b.map_values(f));
}

/// Appending one node to a forest appends its subtree to the pre-order.
pub proof fn lemma_forest_push(s: Seq<SceneNode>, x: SceneNode)
    ensures
        preorder_forest(s.push(x)) == preorder_forest(s) + preorder_nodes(x),
    decreases s.len(),
{
    if s.len() == 0 {
        assert(s.push(x)[0] == x);
        assert(s.push(x).drop_first() =~= Seq::<SceneNode>::empty());
        assert(preorder_forest(Seq::<SceneNode>::empty()) == Seq::<SceneNode>::empty());
        assert(preorder_forest(s.push(x)) == preorder_nodes(x) + Seq::<SceneNode>::empty());
        assert(preorder_forest(s.push(x)) =~= preorder_forest(s) + preorder_nodes(x));
    } else {
        assert(s.push(x)[0] == s[0]);
        assert(s.push(x).drop_first() =~= s.drop_first().push(x));
        lemma_forest_push(s.drop_first(), x);
        assert(preorder_forest(s.push(x)) == preorder_nodes(s[0]) + (preorder_forest(
            s.drop_first(),
        ) + preorder_nodes(x)));
        assert(preorder_forest(s.push(x)) =~= preorder_forest(s) + preorder_nodes(x));
    }
}

/// The descriptors of a node sequence split at any point, with the
/// identities of the second part shifted past the first.
pub proof fn lemma_descs_concat(a: Seq<SceneNode>, b: Seq<SceneNode>, meshes: Seq<Mesh>, base: int)
    ensures
        descs_of_nodes(a + b, meshes, base) == descs_of_nodes(a, meshes, base) + descs_of_nodes(
            b,
            meshes,
            base + a.len(),
        ),
    decreases b.len(),
{
    if b.len() == 0 {
        assert(a + b =~= a);
        assert(descs_of_nodes(a, meshes, base) + descs_of_nodes(b, meshes, base + a.len())
            =~= descs_of_nodes(a, meshes, base));
    } else {
        lemma_descs_concat(a, b.drop_last(), meshes, base);
        assert((a + b).drop_last() =~= a + b.drop_last());
        assert((a + b).last() == b.last());
        assert(descs_of_nodes(a + b, meshes, base) =~= descs_of_nodes(a, meshes, base)
            + descs_of_nodes(b, meshes, base + a.len()));
    }
}

/// Every node is visited exactly once: the pre-order sequence of a subtree
/// has exactly as many entries as the subtree has nodes, and it starts with
/// the subtree's root.
pub proof fn lemma_preorder_count(n: SceneNode)
    ensures
        preorder_nodes(n).len() == node_count(n),
        preorder_nodes(n)[0] == n,
    decreases n,
{
    lemma_forest_preorder_count(n.children@);
}

/// Every node of a forest is visited exactly once.
pub proof fn lemma_forest_preorder_count(s: Seq<SceneNode>)
    ensures
        preorder_forest(s).len() == forest_count(s),
    decreases s,
{
    if s.len() == 0 {
    } else {
        lemma_preorder_count(s[0]);
        lemma_forest_preorder_count(s.drop_first());
    }
}

/// Every descriptor a primitive list yields carries the node's own transform
/// and identity, and there is exactly one per valid primitive.
pub proof fn lemma_prim_descs_source(ps: Seq<MeshPrimitive>, t: Transform, node: int)
    ensures
        forall|k: int|
            0 <= k < prim_descs(ps, t, node).len() ==> {
                &&& (#[trigger] prim_descs(ps, t, node)[k]).transform == t
                &&& prim_descs(ps, t, node)[k].node == node
            },
    decreases ps.len(),
{
    if ps.len() == 0 {
    } else {
        lemma_prim_descs_source(ps.drop_last(), t, node);
        let whole = prim_descs(ps, t, node);
        let front = prim_descs(ps.drop_last(), t, node);
        assert forall|k: int| 0 <= k < whole.len() implies {
            &&& (#[trigger] whole[k]).transform == t
            &&& whole[k].node == node
        } by {
            if k < front.len() {
                assert(whole[k] == front[k]);
            } else {
                assert(whole[k] == mk_desc(ps.last(), t, node));
            }
        }
    }
}

/// How many primitives of a list are valid, that is, yield a shape.
pub open spec fn count_valid(ps: Seq<MeshPrimitive>) -> nat
    decreases ps.len(),
{
    if ps.len() == 0 {
        0
    } else {
        count_valid(ps.drop_last()) + if prim_valid(ps.last()) {
            1nat
        } else {
            0nat
        }
    }
}

/// A node's primitive list yields exactly one descriptor per valid
/// primitive: none is dropped, none is duplicated.
pub proof fn lemma_prim_descs_count(ps: Seq<MeshPrimitive>, t: Transform, node: int)
    ensures
        prim_descs(ps, t, node).len() == count_valid(ps),
    decreases ps.len(),
{
    if ps.len() == 0 {
    } else {
        lemma_prim_descs_count(ps.drop_last(), t, node);
    }
}

/// Every descriptor points back into the node sequence it came from: its
/// identity lies in `[base, base + nodes.len())`, and its transform is the
/// identified source node's local transform, unmodified. A descriptor is
/// never tagged with any other node's identity — in particular never with an
/// ancestor's.
pub proof fn lemma_descs_source(nodes: Seq<SceneNode>, meshes: Seq<Mesh>, base: int)
    ensures
        forall|k: int|
            0 <= k < descs_of_nodes(nodes, meshes, base).len() ==> {
                let d = #[trigger] descs_of_nodes(nodes, meshes, base)[k];
                &&& base <= d.node < base + nodes.len()
                &&& d.transform == nodes[d.node - base].transform
            },
    decreases nodes.len(),
{
    if nodes.len() == 0 {
    } else {
        lemma_descs_source(nodes.drop_last(), meshes, base);
        let last_id = base + nodes.len() - 1;
        match nodes.last().mesh {
            Some(m) => {
                if (m as int) < meshes.len() {
                    lemma_prim_descs_source(
                        meshes[m as int].primitives@,
                        nodes.last().transform,
                        last_id,
                    );
                }
            },
            None => {},
        }
        assert(forall|j: int|
            0 <= j < nodes.len() - 1 ==> nodes.drop_last()[j] == nodes[j]);
    }
}

/// Walk one subtree depth-first in pre-order, appending to `visited` one
/// record per node (its pre-order index continues from the records already
/// there) and to `descriptors` one collider per valid primitive of each
/// mesh-bearing node, tagged with its source node's identity and local
/// transform. A degenerate primitive, a missing mesh reference or one
/// pointing outside the table contributes nothing; the walk goes on.
#[verifier::loop_isolation(false)]
pub fn traverse_node(
    n: &SceneNode,
    meshes: &Vec<Mesh>,
    visited: &mut Vec<NodeRecord>,
    descriptors: &mut Vec<ColliderDescriptor>,
)
    ensures
        recs_view(final(visited)@) == recs_view(old(visited)@) + nodes_rec_view(
            preorder_nodes(*n),
        ),
        final(visited)@.len() == old(visited)@.len() + preorder_nodes(*n).len(),
        descs_view(final(descriptors)@) == descs_view(old(descriptors)@) + descs_of_nodes(
            preorder_nodes(*n),
            meshes@,
            old(visited)@.len() as int,
        ),
    decreases *n,
{
    let ghost pre_vis = visited@;
    let ghost pre_descs = descriptors@;
    let node_id = visited.len();
    let md: Option<String> = match &n.metadata {
        Some(s) => Some(s.clone()),
        None => None,
    };
    visited.push(NodeRecord { transform: n.transform, metadata: md });
    proof {
        assert(rec_view(visited@.last()) == node_rec(*n));
        assert(recs_view(visited@) =~= recs_view(pre_vis) + seq![node_rec(*n)]);
    }
    if let Some(m) = n.mesh {
        if m < meshes.len() {
            let prims = &meshes[m].primitives;
            let mut pi: usize = 0;
            while pi < prims.len()
                invariant
                    0 <= pi <= prims@.len(),
                    descs_view(descriptors@) == descs_view(pre_descs) + prim_descs(
                        prims@.take(pi as int),
                        n.transform,
                        node_id as int,
                    ),
                decreases prims@.len() - pi,
            {
                let ghost step_descs = descriptors@;
                match extract_shape(&prims[pi]) {
                    Some(shape) => {
                        let d = ColliderDescriptor { shape, transform: n.transform, node: node_id };
                        proof {
                            assert(desc_view(d) =~= mk_desc(
                                prims@[pi as int],
                                n.transform,
                                node_id as int,
                            ));
                        }
                        descriptors.push(d);
                        proof {
                            assert(prims@.take(pi as int + 1).drop_last() =~= prims@.take(
                                pi as int,
                            ));
                            assert(prims@.take(pi as int + 1).last() == prims@[pi as int]);
                            assert(descs_view(descriptors@) =~= descs_view(step_descs) + seq![
                                desc_view(d),
                            ]);
                            assert(descs_view(descriptors@) =~= descs_view(pre_descs) + prim_descs(
                                prims@.take(pi as int + 1),
                                n.transform,
                                node_id as int,
                            ));
                        }
                    },
                    None => {
                        proof {
                            assert(prims@.take(pi as int + 1).drop_last() =~= prims@.take(
                                pi as int,
                            ));
                            assert(prims@.take(pi as int + 1).last() == prims@[pi as int]);
                            assert(descs_view(descriptors@) =~= descs_view(pre_descs) + prim_descs(
                                prims@.take(pi as int + 1),
                                n.transform,
                                node_id as int,
                            ));
                        }
                    },
                }
                pi += 1;
            }
            proof {
                assert(prims@.take(prims@.len() as int) =~= prims@);
            }
        }
    }
    proof {
        assert(descs_view(descriptors@) =~= descs_view(pre_descs) + node_descs(
            *n,
            meshes@,
            node_id as int,
        ));
    }
    let mut ci: usize = 0;
    while ci < n.children.len()
        invariant
            0 <= ci <= n.children@.len(),
            recs_view(visited@) == recs_view(pre_vis) + seq![node_rec(*n)] + nodes_rec_view(
                preorder_forest(n.children@.take(ci as int)),
            ),
            visited@.len() == pre_vis.len() + 1 + preorder_forest(
                n.children@.take(ci as int),
            ).len(),
            descs_view(descriptors@) == descs_view(pre_descs) + node_descs(
                *n,
                meshes@,
                node_id as int,
            ) + descs_of_nodes(
                preorder_forest(n.children@.take(ci as int)),
                meshes@,
                node_id + 1,
            ),
        decreases n.children@.len() - ci,
    {
        let ghost before_vis = visited@;
        let ghost before_descs = descriptors@;
        let ghost part = preorder_forest(n.children@.take(ci as int));
        let ghost child = n.children@[ci as int];
        traverse_node(&n.children[ci], meshes, visited, descriptors);
        proof {
            assert(n.children@.take(ci as int + 1) =~= n.children@.take(ci as int).push(child));
            lemma_forest_push(n.children@.take(ci as int), child);
            assert(preorder_forest(n.children@.take(ci as int + 1)) == part + preorder_nodes(
                child,
            ));
            lemma_map_values_add(part, preorder_nodes(child), |x: SceneNode| node_rec(x));
            assert(recs_view(visited@) =~= recs_view(pre_vis) + seq![node_rec(*n)]
                + nodes_rec_view(preorder_forest(n.children@.take(ci as int + 1))));
            lemma_descs_concat(part, preorder_nodes(child), meshes@, node_id + 1);
            assert(before_vis.len() as int == node_id + 1 + part.len());
            assert(descs_view(descriptors@) =~= descs_view(pre_descs) + node_descs(
                *n,
                meshes@,
                node_id as int,
            ) + descs_of_nodes(
                preorder_forest(n.children@.take(ci as int + 1)),
                meshes@,
                node_id + 1,
            ));
        }
        ci += 1;
    }
    proof {
        let cs = n.children@;
        assert(cs.take(cs.len() as int) =~= cs);
        assert(preorder_nodes(*n) == seq![*n] + preorder_forest(cs));
        lemma_map_values_add(seq![*n], preorder_forest(cs), |x: SceneNode| node_rec(x));
        assert(nodes_rec_view(seq![*n]) =~= seq![node_rec(*n)]);
        assert(recs_view(visited@) =~= recs_view(pre_vis) + nodes_rec_view(preorder_nodes(*n)));
        lemma_preorder_count(*n);
        lemma_forest_preorder_count(cs);
        lemma_descs_concat(seq![*n], preorder_forest(cs), meshes@, node_id as int);
        assert(seq![*n].drop_last() =~= Seq::<SceneNode>::empty());
        assert(seq![*n].last() == *n);
        assert(descs_of_nodes(Seq::<SceneNode>::empty(), meshes@, node_id as int)
            == Seq::<DescView>::empty());
        assert(descs_of_nodes(seq![*n], meshes@, node_id as int) =~= node_descs(
            *n,
            meshes@,
            node_id as int,
        ));
        assert(descs_view(descriptors@) =~= descs_view(pre_descs) + descs_of_nodes(
            preorder_nodes(*n),
            meshes@,
            node_id as int,
        ));
    }
}

/// Walk a whole scene: its root nodes in declared order, each depth-first.
/// The visited list is the scene forest's depth-first pre-order, one record
/// per node, the record's position being the node's identity; the descriptor
/// list holds one collider per valid primitive of every mesh-bearing node,
/// in visit order, and every descriptor's identity points at its own source
/// node's record.
#[verifier::loop_isolation(false)]
pub fn traverse_scene(scene: &Scene, meshes: &Vec<Mesh>) -> (out: TraversalOutput)
    ensures
        recs_view(out.visited@) == nodes_rec_view(preorder_forest(scene.roots@)),
        out.visited@.len() == preorder_forest(scene.roots@).len(),
        descs_view(out.descriptors@) == descs_of_nodes(preorder_forest(scene.roots@), meshes@, 0),
        forall|k: int|
            0 <= k < out.descriptors@.len() ==> {
                let d = #[trigger] out.descriptors@[k];
                &&& (d.node as int) < out.visited@.len()
                &&& d.transform == preorder_forest(scene.roots@)[d.node as int].transform
            },
{
    let mut visited: Vec<NodeRecord> = Vec::new();
    let mut descriptors: Vec<ColliderDescriptor> = Vec::new();
    let mut i: usize = 0;
    while i < scene.roots.len()
        invariant
            0 <= i <= scene.roots@.len(),
            recs_view(visited@) == nodes_rec_view(preorder_forest(scene.roots@.take(i as int))),
            visited@.len() == preorder_forest(scene.roots@.take(i as int)).len(),
            descs_view(descriptors@) == descs_of_nodes(
                preorder_forest(scene.roots@.take(i as int)),
                meshes@,
                0,
            ),
        decreases scene.roots@.len() - i,
    {
        let ghost part = preorder_forest(scene.roots@.take(i as int));
        let ghost root = scene.roots@[i as int];
        traverse_node(&scene.roots[i], meshes, &mut visited, &mut descriptors);
        proof {
            assert(scene.roots@.take(i as int + 1) =~= scene.roots@.take(i as int).push(root));
            lemma_forest_push(scene.roots@.take(i as int), root);
            lemma_map_values_add(part, preorder_nodes(root), |x: SceneNode| node_rec(x));
            assert(recs_view(visited@) =~= nodes_rec_view(
                preorder_forest(scene.roots@.take(i as int + 1)),
            ));
            lemma_descs_concat(part, preorder_nodes(root), meshes@, 0);
            assert(descs_view(descriptors@) =~= descs_of_nodes(
                preorder_forest(scene.roots@.take(i as int + 1)),
                meshes@,
                0,
            ));
        }
        i += 1;
    }
    proof {
        assert(scene.roots@.take(scene.roots@.len() as int) =~= scene.roots@);
        lemma_descs_source(preorder_forest(scene.roots@), meshes@, 0);
        assert forall|k: int| 0 <= k < descriptors@.len() implies {
            let d = #[trigger] descriptors@[k];
            &&& (d.node as int) < visited@.len()
            &&& d.transform == preorder_forest(scene.roots@)[d.node as int].transform
        } by {
            assert(descs_view(descriptors@)[k] == desc_view(descriptors@[k]));
        }
    }
    TraversalOutput { visited, descriptors }
}

} // verus!
