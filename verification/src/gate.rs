//! The load gate: a one-shot guard that fires the collider pipeline exactly
//! once, for the one asset handle it is waiting for.

use vstd::prelude::*;

verus! {

/// The load gate's state: the asset handle it expects, and whether the expected
/// handle's readiness has already been consumed. Once consumed, the guard
/// never fires again.
#[derive(Clone, Copy, PartialEq, Eq, Structural, Debug)]
pub struct LoadGate {
    pub expected: u64,
    pub consumed: bool,
}

/// The load gate's transition function: from a state and a signaled handle, the
/// next state and whether the pipeline fires. A signal fires exactly when the
/// handle matches the expected one and the guard is still waiting; a signal
/// for another handle is a no-op.
pub open spec fn gate_step(g: LoadGate, handle: u64) -> (LoadGate, bool) {
    if handle == g.expected && !g.consumed {
        (LoadGate { expected: g.expected, consumed: true }, true)
    } else {
        (g, false)
    }
}

impl LoadGate {
    /// A gate waiting for `expected`.
    pub fn new(expected: u64) -> (g: LoadGate)
        ensures
            g == (LoadGate { expected, consumed: false }),
    {
        LoadGate { expected, consumed: false }
    }

    /// Consume a readiness signal. Returns whether the pipeline must run:
    /// true exactly when the signaled handle is the expected one and the guard
    /// had not consumed it yet.
    pub fn signal(&mut self, handle: u64) -> (fire: bool)
        ensures
            (*final(self), fire) == gate_step(*old(self), handle),
    {
        if handle == self.expected && !self.consumed {
            self.consumed = true;
            true
        } else {
            false
        }
    }
}

/// Once a signal has fired, no later signal fires, whatever handle it
/// carries: the load gate consumes its expected handle at most once.
pub proof fn lemma_gate_one_shot(g: LoadGate, first: u64, second: u64)
    ensures
        gate_step(g, first).1 ==> !gate_step(gate_step(g, first).0, second).1,
{
}

} // verus!
