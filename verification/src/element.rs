//! The capabilities that stages are parameterised by.
use vstd::prelude::*;

verus! {

/// A synchronous, stateful mapping from one packet to at most one packet.
///
/// What an element does is a function of its state and of the packet it is
/// handed: `forwarded` says what it sends on, `next_state` in what state it
/// is left. It neither waits nor reorders. An implementation that is not
/// verified promises all this, and what is proved of a stage holds of such
/// an element only as far as it keeps the promise.
pub trait Element: Sized {
    /// The packets that the element takes.
    type Input: Sized + Send;

    /// The packets that the element sends on.
    type Output: Sized + Send;

    /// What an element in state `self` sends on for `packet`; `None` where
    /// it drops the packet.
    spec fn forwarded(&self, packet: Self::Input) -> Option<Self::Output>;

    /// The state in which `packet` leaves an element in state `self`.
    spec fn next_state(&self, packet: Self::Input) -> Self;

    /// Handles one packet.
    fn process(&mut self, packet: Self::Input) -> (out: Option<Self::Output>)
        ensures
            out == old(self).forwarded(packet),
            *final(self) == old(self).next_state(packet),
    ;
}

/// An element whose packets stay with the task that made them: it computes
/// as an `Element` does, and its packets need not be fit to be handed from
/// one thread to another.
pub trait AsyncElement: Sized {
    /// The packets that the element takes.
    type Input: Sized;

    /// The packets that the element sends on.
    type Output: Sized;

    /// What an element in state `self` sends on for `packet`; `None` where
    /// it drops the packet.
    spec fn forwarded(&self, packet: Self::Input) -> Option<Self::Output>;

    /// The state in which `packet` leaves an element in state `self`.
    spec fn next_state(&self, packet: Self::Input) -> Self;

    /// Handles one packet.
    fn process(&mut self, packet: Self::Input) -> (out: Option<Self::Output>)
        ensures
            out == old(self).forwarded(packet),
            *final(self) == old(self).next_state(packet),
    ;
}

/// A mapping from a packet to its category. It does not change the packet
/// and keeps no state between packets.
pub trait Classifier {
    /// The packets that are classified.
    type Packet;

    /// The categories.
    type Class;

    /// The category of `packet`.
    spec fn class_of(&self, packet: Self::Packet) -> Self::Class;

    /// Classifies one packet.
    fn classify(&self, packet: &Self::Packet) -> (class: Self::Class)
        ensures
            class == self.class_of(*packet),
    ;
}

/// A mapping from a category to the branch that its packets leave by, or to
/// `None` for the categories whose packets are dropped.
pub trait Dispatcher {
    /// The categories.
    type Class;

    /// The branch for `class`.
    spec fn branch_of(&self, class: Self::Class) -> Option<usize>;

    /// Names the branch for one category.
    fn dispatch(&self, class: Self::Class) -> (branch: Option<usize>)
        ensures
            branch == self.branch_of(class),
    ;
}

/// The state of `element` once it has handled `packets`, in order.
pub open spec fn state_after<E: Element>(element: E, packets: Seq<E::Input>) -> E
    decreases packets.len(),
{
    if packets.len() == 0 {
        element
    } else {
        state_after(element, packets.drop_last()).next_state(packets.last())
    }
}

/// What `element` sends on while it handles `packets`, in order: for each
/// packet what the element forwards in the state that the packets before
/// have left it in, the dropped ones left out.
pub open spec fn outputs<E: Element>(element: E, packets: Seq<E::Input>) -> Seq<E::Output>
    decreases packets.len(),
{
    if packets.len() == 0 {
        Seq::empty()
    } else {
        let before = outputs(element, packets.drop_last());
        match state_after(element, packets.drop_last()).forwarded(packets.last()) {
            Some(packet) => before.push(packet),
            None => before,
        }
    }
}

/// The element that sends every packet on as it is.
pub struct Identity<T> {
    marker: core::marker::PhantomData<T>,
}

impl<T> Identity<T> {
    /// The identity element.
    pub fn new() -> (element: Self) {
        Identity { marker: core::marker::PhantomData }
    }
}

impl<T: Send> Element for Identity<T> {
    type Input = T;

    type Output = T;

    open spec fn forwarded(&self, packet: T) -> Option<T> {
        Some(packet)
    }

    open spec fn next_state(&self, packet: T) -> Self {
        *self
    }

    fn process(&mut self, packet: T) -> (out: Option<T>) {
        Some(packet)
    }
}

impl<T> AsyncElement for Identity<T> {
    type Input = T;

    type Output = T;

    open spec fn forwarded(&self, packet: T) -> Option<T> {
        Some(packet)
    }

    open spec fn next_state(&self, packet: T) -> Self {
        *self
    }

    fn process(&mut self, packet: T) -> (out: Option<T>) {
        Some(packet)
    }
}

/// The identity element sends on what it is handed, whatever came before.
pub proof fn lemma_identity_outputs<T: Send>(element: Identity<T>, packets: Seq<T>)
    ensures
        outputs(element, packets) == packets,
        state_after(element, packets) == element,
    decreases packets.len(),
{
    if packets.len() > 0 {
        lemma_identity_outputs(element, packets.drop_last());
    }
}

} // verus!
