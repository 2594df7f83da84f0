//! The whole pipeline, driven by one asset-ready signal: the load gate
//! decides whether the signaled handle fires the one traversal it guards;
//! when it does, the scene forest is walked, collision shapes are extracted,
//! and the activation matcher decides per node what to materialize.

use crate::gate::LoadGate;
use crate::gate::gate_step;
use crate::matcher::ActiveCollider;
use crate::matcher::MatchOutcome;
use crate::matcher::active_colliders;
use crate::matcher::match_activations;
use crate::matcher::spec_active;
use crate::matcher::spec_outcomes;
use crate::metadata::ActivationConfig;
use crate::scene::Mesh;
use crate::scene::Scene;
use crate::traverse::TraversalOutput;
use crate::traverse::descs_of_nodes;
use crate::traverse::descs_view;
use crate::traverse::nodes_rec_view;
use crate::traverse::preorder_forest;
use crate::traverse::recs_view;
use crate::traverse::traverse_scene;
use vstd::prelude::*;

verus! {

/// Everything one fired signal produces: the traversal's visited records and
/// descriptors, the matcher's outcomes (decisions and reported parse
/// failures), and the activations to materialize.
pub struct ProcessOutput {
    pub traversal: TraversalOutput,
    pub outcomes: Vec<MatchOutcome>,
    pub active: Vec<ActiveCollider>,
}

/// React to an asset-ready signal. The load gate steps as `gate_step` says, and
/// output is produced exactly when the signal fires: when the handle is the
/// expected one and was not consumed yet. A repeated or foreign signal
/// yields `None` — no traversal, no descriptors, no colliders. A fired
/// signal yields the traversal of the whole scene forest, the matcher's
/// outcomes for its descriptors, and the non-inactive activations.
pub fn process_ready(
    gate: &mut LoadGate,
    handle: u64,
    scene: &Scene,
    meshes: &Vec<Mesh>,
    cfg: &ActivationConfig,
) -> (r: Option<ProcessOutput>)
    ensures
        *final(gate) == gate_step(*old(gate), handle).0,
        (r is Some) == gate_step(*old(gate), handle).1,
        r matches Some(out) ==> {
            &&& recs_view(out.traversal.visited@) == nodes_rec_view(preorder_forest(scene.roots@))
            &&& out.traversal.visited@.len() == preorder_forest(scene.roots@).len()
            &&& descs_view(out.traversal.descriptors@) == descs_of_nodes(
                preorder_forest(scene.roots@),
                meshes@,
                0,
            )
            &&& out.outcomes@ == spec_outcomes(
                out.traversal.descriptors@,
                out.traversal.visited@,
                *cfg,
            )
            &&& out.active@ == spec_active(out.outcomes@)
        },
{
    let fire = gate.signal(handle);
    if fire {
        let traversal = traverse_scene(scene, meshes);
        let outcomes = match_activations(&traversal.descriptors, &traversal.visited, cfg);
        let active = active_colliders(&outcomes);
        Some(ProcessOutput { traversal, outcomes, active })
    } else {
        None
    }
}

} // verus!
