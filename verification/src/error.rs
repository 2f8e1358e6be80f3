//! The ways in which building or running a stage fails.
use vstd::prelude::*;

verus! {

/// A slot of a stage builder.
#[derive(Clone, Copy, Debug, PartialEq, Eq, Structural)]
pub enum Slot {
    /// The ingress stream or streams.
    Ingressors,
    /// The element that a process stage applies.
    Element,
    /// The classifier of a classify stage.
    Classifier,
    /// The dispatcher of a classify stage.
    Dispatcher,
    /// The number of egress streams.
    NumEgressors,
    /// The capacity of the queues of a join or clone stage.
    QueueCapacity,
    /// The capacity of the queues of a composite's join stage.
    JoinQueueCapacity,
    /// The capacity of the queues of a composite's clone stage.
    CloneQueueCapacity,
}

/// Why a builder cannot build its link. It is found before any packet has
/// moved.
#[derive(Clone, Copy, Debug, PartialEq, Eq, Structural)]
pub enum ConfigurationError {
    /// A mandatory slot was never set.
    Missing(Slot),
    /// A slot that was set already was set again.
    SetTwice(Slot),
    /// A count or a capacity lies outside the range valid for its slot.
    OutOfRange { slot: Slot, value: usize },
}

/// A dispatcher named a branch that the stage does not have.
#[derive(Clone, Copy, Debug, PartialEq, Eq, Structural)]
pub struct DispatchIndexError {
    /// The place in the ingress stream of the packet that was being routed.
    pub position: usize,
    /// The branch that the dispatcher named.
    pub index: usize,
    /// The number of branches of the stage.
    pub num_egressors: usize,
}

/// The least queue capacity that a builder accepts.
pub const MIN_QUEUE_CAPACITY: usize = 1;

/// The greatest queue capacity that a builder accepts.
pub const MAX_QUEUE_CAPACITY: usize = 1000;

/// The queue capacity of a stage whose builder was given none.
pub const DEFAULT_QUEUE_CAPACITY: usize = 10;

/// The greatest number of ingress or egress streams that a builder with a
/// bounded count accepts.
pub const MAX_STREAMS: usize = 1000;

/// Whether `capacity` is a valid queue capacity.
pub open spec fn valid_queue_capacity(capacity: usize) -> bool {
    MIN_QUEUE_CAPACITY <= capacity <= MAX_QUEUE_CAPACITY
}

} // verus!
