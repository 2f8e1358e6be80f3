//! The tasks of a link.
use crate::error::DispatchIndexError;
use crate::link::packet_stream::PacketStream;
use vstd::prelude::*;

verus! {

/// How a task ends.
#[derive(Clone, Copy, Debug, PartialEq, Eq, Structural)]
pub enum Outcome {
    /// The task has seen its ingress exhausted and has closed its egress.
    Completed,
    /// The task has stopped at a packet that it could not route.
    Failed(DispatchIndexError),
}

/// A task that a scheduler has to drive for the packets of a link to move.
/// What one step of such a task does is said in `task`.
#[derive(Clone, Copy, Debug, PartialEq, Eq, Structural)]
pub enum Runnable {
    /// The task of a classify stage: it hands each packet of the ingress to
    /// the queue of the branch that the dispatcher names for it.
    ClassifyIngressor { num_egressors: usize, outcome: Outcome },
    /// The task of one ingress line of a join stage: it moves the packets of
    /// line `line` into the queue of that line.
    JoinIngressor { line: usize, queue_capacity: usize },
    /// The task of a clone stage: it puts one copy of each packet of the
    /// ingress into the queue of every branch.
    CloneIngressor { num_egressors: usize, queue_capacity: usize },
}

/// What a builder returns: the tasks of the stage, and its egress streams.
pub type Link<T> = (Vec<Runnable>, Vec<PacketStream<T>>);

} // verus!
