//! The activation matcher: for every collider descriptor whose own source
//! node carries metadata, the decision that metadata yields — matched by
//! node identity, never by geometry, and never across the hierarchy:
//! metadata does not propagate to descendants' colliders.

use crate::metadata::ActivationConfig;
use crate::metadata::ActivationDecision;
use crate::metadata::ActivationMode;
use crate::metadata::decide_activation;
use crate::metadata::spec_decision;
use crate::scene::meta_view;
use crate::traverse::ColliderDescriptor;
use crate::traverse::NodeRecord;
use vstd::prelude::*;

verus! {

/// What matching one descriptor against its source node's metadata yields:
/// a decision, or a reported parse failure for that node. `descriptor` is
/// the index of the matched descriptor, `node` its source node's identity.
#[derive(Clone, Copy, PartialEq, Eq, Structural, Debug)]
pub enum MatchOutcome {
    Decision { descriptor: usize, node: usize, decision: ActivationDecision },
    ParseFailure { descriptor: usize, node: usize },
}

/// An activation to materialize: the descriptor (by index) whose shape is
/// attached to the runtime representation of node `node`, with the decided
/// flags. Only non-inactive decisions are materialized.
#[derive(Clone, Copy, PartialEq, Eq, Structural, Debug)]
pub struct ActiveCollider {
    pub descriptor: usize,
    pub node: usize,
    pub decision: ActivationDecision,
}

/// The descriptor index an outcome speaks of.
pub open spec fn outcome_descriptor(o: MatchOutcome) -> int {
    match o {
        MatchOutcome::Decision { descriptor, .. } => descriptor as int,
        MatchOutcome::ParseFailure { descriptor, .. } => descriptor as int,
    }
}

/// The node identity an outcome speaks of.
pub open spec fn outcome_node(o: MatchOutcome) -> int {
    match o {
        MatchOutcome::Decision { node, .. } => node as int,
        MatchOutcome::ParseFailure { node, .. } => node as int,
    }
}

/// The outcomes one descriptor contributes: nothing when its source node
/// carries no metadata; else the decision its own node's metadata yields, or
/// a reported parse failure.
pub open spec fn outcome_for(
    d: ColliderDescriptor,
    idx: int,
    recs: Seq<NodeRecord>,
    cfg: ActivationConfig,
) -> Seq<MatchOutcome> {
    match meta_view(recs[d.node as int].metadata) {
        Some(m) => match spec_decision(m, cfg) {
            Some(dec) => seq![
                MatchOutcome::Decision { descriptor: idx as usize, node: d.node, decision: dec },
            ],
            None => seq![MatchOutcome::ParseFailure { descriptor: idx as usize, node: d.node }],
        },
        None => Seq::empty(),
    }
}

/// The outcomes of matching a descriptor list against the visited nodes, in
/// descriptor order.
pub open spec fn spec_outcomes(
    descs: Seq<ColliderDescriptor>,
    recs: Seq<NodeRecord>,
    cfg: ActivationConfig,
) -> Seq<MatchOutcome>
    decreases descs.len(),
{
    if descs.len() == 0 {
        Seq::empty()
    } else {
        spec_outcomes(descs.drop_last(), recs, cfg) + outcome_for(
            descs.last(),
            descs.len() - 1,
            recs,
            cfg,
        )
    }
}

/// The activations to materialize: the outcomes that decided anything other
/// than inactive, in order.
pub open spec fn spec_active(outcomes: Seq<MatchOutcome>) -> Seq<ActiveCollider>
    decreases outcomes.len(),
{
    if outcomes.len() == 0 {
        Seq::empty()
    } else {
        spec_active(outcomes.drop_last()) + match outcomes.last() {
            MatchOutcome::Decision { descriptor, node, decision } => {
                if decision.mode == ActivationMode::Inactive {
                    Seq::empty()
                } else {
                    seq![ActiveCollider { descriptor, node, decision }]
                }
            },
            MatchOutcome::ParseFailure { .. } => Seq::empty(),
        }
    }
}

/// Match every descriptor against its own source node's metadata. One
/// outcome per descriptor whose node carries metadata: the decision, or a
/// reported parse failure for that node (which never stops the remaining
/// descriptors from being processed).
#[verifier::loop_isolation(false)]
pub fn match_activations(
    descriptors: &Vec<ColliderDescriptor>,
    records: &Vec<NodeRecord>,
    cfg: &ActivationConfig,
) -> (outcomes: Vec<MatchOutcome>)
    requires
        forall|k: int|
            0 <= k < descriptors@.len() ==> (#[trigger] descriptors@[k].node as int)
                < records@.len(),
    ensures
        outcomes@ == spec_outcomes(descriptors@, records@, *cfg),
{
    let mut outcomes: Vec<MatchOutcome> = Vec::new();
    let mut i: usize = 0;
    while i < descriptors.len()
        invariant
            0 <= i <= descriptors@.len(),
            outcomes@ == spec_outcomes(descriptors@.take(i as int), records@, *cfg),
        decreases descriptors@.len() - i,
    {
        let d_node = descriptors[i].node;
        match &records[d_node].metadata {
            Some(text) => {
                match decide_activation(text.as_str(), cfg) {
                    Ok(decision) => {
                        outcomes.push(
                            MatchOutcome::Decision { descriptor: i, node: d_node, decision },
                        );
                    },
                    Err(_) => {
                        outcomes.push(MatchOutcome::ParseFailure { descriptor: i, node: d_node });
                    },
                }
            },
            None => {},
        }
        proof {
            assert(descriptors@.take(i as int + 1).drop_last() =~= descriptors@.take(i as int));
            assert(descriptors@.take(i as int + 1).last() == descriptors@[i as int]);
            assert(outcomes@ =~= spec_outcomes(descriptors@.take(i as int + 1), records@, *cfg));
        }
        i += 1;
    }
    proof {
        assert(descriptors@.take(descriptors@.len() as int) =~= descriptors@);
    }
    outcomes
}

/// Keep the outcomes that materialize a collider: every decision other than
/// inactive, in order.
#[verifier::loop_isolation(false)]
pub fn active_colliders(outcomes: &Vec<MatchOutcome>) -> (active: Vec<ActiveCollider>)
    ensures
        active@ == spec_active(outcomes@),
{
    let mut active: Vec<ActiveCollider> = Vec::new();
    let mut i: usize = 0;
    while i < outcomes.len()
        invariant
            0 <= i <= outcomes@.len(),
            active@ == spec_active(outcomes@.take(i as int)),
        decreases outcomes@.len() - i,
    {
        match outcomes[i] {
            MatchOutcome::Decision { descriptor, node, decision } => {
                let keep = match decision.mode {
                    ActivationMode::Inactive => false,
                    ActivationMode::Solid => true,
                    ActivationMode::Sensor => true,
                };
                if keep {
                    active.push(ActiveCollider { descriptor, node, decision });
                }
            },
            MatchOutcome::ParseFailure { .. } => {},
        }
        proof {
            assert(outcomes@.take(i as int + 1).drop_last() =~= outcomes@.take(i as int));
            assert(outcomes@.take(i as int + 1).last() == outcomes@[i as int]);
            assert(active@ =~= spec_active(outcomes@.take(i as int + 1)));
        }
        i += 1;
    }
    proof {
        assert(outcomes@.take(outcomes@.len() as int) =~= outcomes@);
    }
    active
}

/// Every materialized activation restates one of the outcomes: a decision
/// whose mode is not inactive, with the same descriptor, node and flags. In
/// particular a parse failure, or a decision that stayed inactive, never
/// materializes a collider, however well its shape was extracted.
pub proof fn lemma_active_sound(outcomes: Seq<MatchOutcome>)
    ensures
        forall|k: int|
            0 <= k < spec_active(outcomes).len() ==> {
                let a = #[trigger] spec_active(outcomes)[k];
                &&& a.decision.mode != ActivationMode::Inactive
                &&& exists|j: int|
                    0 <= j < outcomes.len() && outcomes[j] == (MatchOutcome::Decision {
                        descriptor: a.descriptor,
                        node: a.node,
                        decision: a.decision,
                    })
            },
    decreases outcomes.len(),
{
    if outcomes.len() == 0 {
    } else {
        lemma_active_sound(outcomes.drop_last());
        let whole = spec_active(outcomes);
        let front = spec_active(outcomes.drop_last());
        assert forall|k: int| 0 <= k < whole.len() implies {
            let a = #[trigger] whole[k];
            &&& a.decision.mode != ActivationMode::Inactive
            &&& exists|j: int|
                0 <= j < outcomes.len() && outcomes[j] == (MatchOutcome::Decision {
                    descriptor: a.descriptor,
                    node: a.node,
                    decision: a.decision,
                })
        } by {
            if k < front.len() {
                assert(whole[k] == front[k]);
                let a = whole[k];
                let j = choose|j: int|
                    0 <= j < outcomes.drop_last().len() && outcomes.drop_last()[j]
                        == (MatchOutcome::Decision {
                        descriptor: a.descriptor,
                        node: a.node,
                        decision: a.decision,
                    });
                assert(outcomes.drop_last()[j] == outcomes[j]);
            } else {
                let a = whole[k];
                assert(outcomes[outcomes.len() - 1] == (MatchOutcome::Decision {
                    descriptor: a.descriptor,
                    node: a.node,
                    decision: a.decision,
                }));
            }
        }
    }
}

/// Outcomes come only from nodes that carry metadata and that themselves
/// produced a descriptor: every outcome names a descriptor of the matched
/// list, its node is that descriptor's own source node, and that node
/// carries metadata. In particular a descriptor is never decided by an
/// ancestor's — or any other node's — metadata.
pub proof fn lemma_outcomes_sound(
    descs: Seq<ColliderDescriptor>,
    recs: Seq<NodeRecord>,
    cfg: ActivationConfig,
)
    requires
        descs.len() <= usize::MAX,
    ensures
        forall|k: int|
            0 <= k < spec_outcomes(descs, recs, cfg).len() ==> {
                let o = #[trigger] spec_outcomes(descs, recs, cfg)[k];
                &&& 0 <= outcome_descriptor(o) < descs.len()
                &&& outcome_node(o) == descs[outcome_descriptor(o)].node as int
                &&& meta_view(recs[outcome_node(o)].metadata) is Some
            },
    decreases descs.len(),
{
    if descs.len() == 0 {
    } else {
        lemma_outcomes_sound(descs.drop_last(), recs, cfg);
        let whole = spec_outcomes(descs, recs, cfg);
        let front = spec_outcomes(descs.drop_last(), recs, cfg);
        assert forall|k: int| 0 <= k < whole.len() implies {
            let o = #[trigger] whole[k];
            &&& 0 <= outcome_descriptor(o) < descs.len()
            &&& outcome_node(o) == descs[outcome_descriptor(o)].node as int
            &&& meta_view(recs[outcome_node(o)].metadata) is Some
        } by {
            if k < front.len() {
                assert(whole[k] == front[k]);
                assert(forall|j: int|
                    0 <= j < descs.len() - 1 ==> descs.drop_last()[j] == descs[j]);
            } else {
                let idx = descs.len() - 1;
                assert(whole[k] == outcome_for(descs.last(), idx, recs, cfg)[k - front.len()]);
                assert((idx as usize) as int == idx);
                assert(descs[idx] == descs.last());
            }
        }
    }
}

} // verus!
