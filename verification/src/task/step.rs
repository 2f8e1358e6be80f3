//! What a step of a task comes to.
use vstd::prelude::*;

verus! {

/// Why a task has to wait. These are the only two places at which a task
/// gives way to the others.
#[derive(Clone, Copy, Debug, PartialEq, Eq, Structural)]
pub enum Suspension {
    /// Its ingress is empty, and not closed.
    IngressEmpty,
    /// An egress queue that it has to write to takes no packet.
    EgressFull,
}

/// What one step of a task has done.
#[derive(Clone, Copy, Debug, PartialEq, Eq, Structural)]
pub enum Step {
    /// It has taken one packet off the ingress and has dealt with it.
    Advanced,
    /// It has done nothing, and has to wait.
    Suspended(Suspension),
    /// It has found the ingress exhausted and has closed the egress: the
    /// task is complete.
    Completed,
}

} // verus!
