//! The clone stage: one ingress, a copy of every packet on each egress.
use crate::error::{
    valid_queue_capacity, ConfigurationError, Slot, DEFAULT_QUEUE_CAPACITY, MAX_QUEUE_CAPACITY,
    MIN_QUEUE_CAPACITY,
};
use crate::link::counting::total_len;
use crate::link::packet_stream::{contents, into_streams, packets_of, PacketStream};
use crate::link::runnable::{Link, Runnable};
use vstd::prelude::*;

verus! {

/// Whether `copies` holds, for each of `branches` branches, one copy of each
/// of `packets`, in the order of `packets`.
pub open spec fn replicated<T: Clone>(packets: Seq<T>, copies: Seq<Seq<T>>, branches: nat) -> bool {
    &&& copies.len() == branches
    &&& forall|branch: int|
        0 <= branch < branches ==> (#[trigger] copies[branch]).len() == packets.len()
    &&& forall|branch: int, place: int|
        0 <= branch < branches && 0 <= place < packets.len() ==> cloned(
            packets[place],
            #[trigger] copies[branch][place],
        )
}

/// Whether a copy of a `T` is always equal to what it was made from.
pub open spec fn copies_are_equal<T: Clone>() -> bool {
    forall|packet: T, copy: T| #[trigger] cloned(packet, copy) ==> packet == copy
}

/// Every branch of a clone stage yields the packets of the ingress, in their
/// order, where a copy of a packet is equal to the packet.
pub proof fn law_clone_branches_yield_ingress<T: Clone>(
    packets: Seq<T>,
    copies: Seq<Seq<T>>,
    branches: nat,
    branch: int,
)
    requires
        replicated(packets, copies, branches),
        copies_are_equal::<T>(),
        0 <= branch < branches,
    ensures
        copies[branch] == packets,
{
    assert(copies[branch] =~= packets);
}

/// A clone stage of `n` branches yields `n` times as many packets as it is
/// fed.
pub proof fn law_clone_total<T: Clone>(packets: Seq<T>, copies: Seq<Seq<T>>, branches: nat)
    requires
        replicated(packets, copies, branches),
    ensures
        total_len(copies) == branches * packets.len(),
    decreases branches,
{
    if branches > 0 {
        law_clone_total(packets, copies.drop_last(), (branches - 1) as nat);
        assert(branches * packets.len() == (branches - 1) * packets.len() + packets.len())
            by (nonlinear_arith);
    }
}

/// Makes `num_egressors` copies of each packet of `stream`, and returns for
/// each branch its copies, in the order of the stream.
pub fn replicate<T: Clone>(stream: PacketStream<T>, num_egressors: usize) -> (copies: Vec<Vec<T>>)
    ensures
        replicated(stream@, packets_of(copies@), num_egressors as nat),
{
    let mut stream = stream;
    let ghost all = stream@;
    let mut copies: Vec<Vec<T>> = Vec::new();
    let mut branch: usize = 0;
    while branch < num_egressors
        invariant
            branch <= num_egressors,
            copies@.len() == branch,
            forall|i: int| 0 <= i < branch ==> (#[trigger] copies@[i])@.len() == 0,
        decreases num_egressors - branch,
    {
        copies.push(Vec::new());
        branch = branch + 1;
    }
    let ghost done: int = 0;
    while stream.len() > 0
        invariant
            0 <= done <= all.len(),
            stream@ == all.skip(done),
            replicated(all.take(done), packets_of(copies@), num_egressors as nat),
        decreases stream@.len(),
    {
        let packet = stream.next().unwrap();
        let ghost before = packets_of(copies@);
        let mut branch: usize = 0;
        while branch < num_egressors
            invariant
                branch <= num_egressors,
                0 <= done < all.len(),
                packet == all[done],
                copies@.len() == num_egressors,
                before.len() == num_egressors,
                replicated(all.take(done), before, num_egressors as nat),
                forall|i: int|
                    0 <= i < branch ==> (#[trigger] copies@[i])@.len() == done + 1
                        && copies@[i]@.take(done) == before[i] && cloned(
                        packet,
                        copies@[i]@[done],
                    ),
                forall|i: int| branch <= i < num_egressors ==> (#[trigger] copies@[i])@ == before[i],
            decreases num_egressors - branch,
        {
            let copy = packet.clone();
            let queue = &mut copies[branch];
            queue.push(copy);
            proof {
                assert(copies@[branch as int]@.take(done) =~= before[branch as int]);
            }
            branch = branch + 1;
        }
        proof {
            assert forall|i: int, place: int|
                0 <= i < num_egressors && 0 <= place < done + 1 implies cloned(
                all.take(done + 1)[place],
                #[trigger] packets_of(copies@)[i][place],
            ) by {
                if place < done {
                    assert(cloned(all.take(done)[place], before[i][place]));
                }
            }
            done = done + 1;
        }
    }
    copies
}

/// The builder of a clone stage.
pub struct CloneLink<T: Clone> {
    in_stream: Option<PacketStream<T>>,
    num_egressors: Option<usize>,
    queue_capacity: Option<usize>,
    misuse: Option<ConfigurationError>,
}

/// What a `CloneLink` has been told so far.
pub struct CloneLinkModel<T> {
    /// The packets of the ingress stream, once it is set.
    pub in_stream: Option<Seq<T>>,
    /// The number of branches, once it is set.
    pub num_egressors: Option<usize>,
    /// The capacity of the queue of each branch, once it is set.
    pub queue_capacity: Option<usize>,
    /// The first misuse of the builder, if there was one.
    pub misuse: Option<ConfigurationError>,
}

impl<T> CloneLinkModel<T> {
    /// A builder that has been told nothing.
    pub open spec fn new() -> Self {
        CloneLinkModel { in_stream: None, num_egressors: None, queue_capacity: None, misuse: None }
    }

    /// Sets the ingress stream. A second ingress is a misuse.
    pub open spec fn ingressor(self, packets: Seq<T>) -> Self {
        if self.misuse is Some {
            self
        } else if self.in_stream is Some {
            CloneLinkModel { misuse: Some(ConfigurationError::SetTwice(Slot::Ingressors)), ..self }
        } else {
            CloneLinkModel { in_stream: Some(packets), ..self }
        }
    }

    /// Sets the ingress stream from a list, which has to hold one stream.
    pub open spec fn ingressors(self, streams: Seq<Seq<T>>) -> Self {
        if self.misuse is Some {
            self
        } else if self.in_stream is Some {
            CloneLinkModel { misuse: Some(ConfigurationError::SetTwice(Slot::Ingressors)), ..self }
        } else if streams.len() != 1 {
            CloneLinkModel {
                misuse: Some(
                    ConfigurationError::OutOfRange {
                        slot: Slot::Ingressors,
                        value: streams.len() as usize,
                    },
                ),
                ..self
            }
        } else {
            CloneLinkModel { in_stream: Some(streams[0]), ..self }
        }
    }

    /// Sets the number of branches. A number set again is a misuse, and so
    /// is no branch at all.
    pub open spec fn num_egressors(self, num_egressors: usize) -> Self {
        if self.misuse is Some {
            self
        } else if self.num_egressors is Some {
            CloneLinkModel { misuse: Some(ConfigurationError::SetTwice(Slot::NumEgressors)), ..self }
        } else if num_egressors == 0 {
            CloneLinkModel {
                misuse: Some(
                    ConfigurationError::OutOfRange { slot: Slot::NumEgressors, value: num_egressors },
                ),
                ..self
            }
        } else {
            CloneLinkModel { num_egressors: Some(num_egressors), ..self }
        }
    }

    /// Sets the capacity of the queue of each branch. A capacity set again
    /// is a misuse, and so is one that is not in `1..=1000`.
    pub open spec fn queue_capacity(self, queue_capacity: usize) -> Self {
        if self.misuse is Some {
            self
        } else if self.queue_capacity is Some {
            CloneLinkModel {
                misuse: Some(ConfigurationError::SetTwice(Slot::QueueCapacity)),
                ..self
            }
        } else if !valid_queue_capacity(queue_capacity) {
            CloneLinkModel {
                misuse: Some(
                    ConfigurationError::OutOfRange {
                        slot: Slot::QueueCapacity,
                        value: queue_capacity,
                    },
                ),
                ..self
            }
        } else {
            CloneLinkModel { queue_capacity: Some(queue_capacity), ..self }
        }
    }

    /// Whether the link can be built, and why not.
    pub open spec fn check(self) -> Result<(), ConfigurationError> {
        if let Some(misuse) = self.misuse {
            Err(misuse)
        } else if self.in_stream is None {
            Err(ConfigurationError::Missing(Slot::Ingressors))
        } else if self.num_egressors is None {
            Err(ConfigurationError::Missing(Slot::NumEgressors))
        } else {
            Ok(())
        }
    }

    /// The capacity that the queues of the built link have.
    pub open spec fn capacity(self) -> usize {
        match self.queue_capacity {
            Some(queue_capacity) => queue_capacity,
            None => DEFAULT_QUEUE_CAPACITY,
        }
    }

    /// The tasks of the built link: the one that copies.
    pub open spec fn runnables(self) -> Seq<Runnable> {
        seq![
            Runnable::CloneIngressor {
                num_egressors: self.num_egressors->0,
                queue_capacity: self.capacity(),
            },
        ]
    }
}

/// A misuse is never forgotten: a builder that was misused stays as it is
/// whatever it is told, and builds nothing.
pub proof fn law_clone_misuse_is_kept<T>(
    builder: CloneLinkModel<T>,
    packets: Seq<T>,
    streams: Seq<Seq<T>>,
    num_egressors: usize,
    queue_capacity: usize,
)
    requires
        builder.misuse is Some,
    ensures
        builder.ingressor(packets) == builder,
        builder.ingressors(streams) == builder,
        builder.num_egressors(num_egressors) == builder,
        builder.queue_capacity(queue_capacity) == builder,
        builder.check() == Err::<(), ConfigurationError>(builder.misuse->0),
{
}

/// A slot that is set twice is a misuse, whatever the builder was told
/// before and whatever is handed over; and so is a value that its slot does
/// not admit.
pub proof fn law_clone_slot_misused<T>(
    builder: CloneLinkModel<T>,
    packets: Seq<T>,
    again: Seq<T>,
    num_egressors: usize,
    queue_capacity: usize,
    other: usize,
)
    ensures
        builder.ingressor(packets).ingressor(again).check() is Err,
        builder.num_egressors(num_egressors).num_egressors(other).check() is Err,
        builder.queue_capacity(queue_capacity).queue_capacity(other).check() is Err,
        builder.num_egressors(0).check() is Err,
        !valid_queue_capacity(queue_capacity) ==> builder.queue_capacity(queue_capacity).check()
            is Err,
{
}

impl<T: Clone> View for CloneLink<T> {
    type V = CloneLinkModel<T>;

    closed spec fn view(&self) -> CloneLinkModel<T> {
        CloneLinkModel {
            in_stream: match self.in_stream {
                Some(stream) => Some(stream@),
                None => None,
            },
            num_egressors: self.num_egressors,
            queue_capacity: self.queue_capacity,
            misuse: self.misuse,
        }
    }
}

impl<T: Clone> CloneLink<T> {
    /// A builder with every slot unset.
    pub fn new() -> (builder: Self)
        ensures
            builder@ == CloneLinkModel::<T>::new(),
    {
        CloneLink { in_stream: None, num_egressors: None, queue_capacity: None, misuse: None }
    }

    /// Sets the stream that the stage reads.
    pub fn ingressor(self, in_stream: PacketStream<T>) -> (builder: Self)
        ensures
            builder@ == self@.ingressor(in_stream@),
    {
        let mut builder = self;
        if builder.misuse.is_none() {
            if builder.in_stream.is_some() {
                builder.misuse = Some(ConfigurationError::SetTwice(Slot::Ingressors));
            } else {
                builder.in_stream = Some(in_stream);
            }
        }
        builder
    }

    /// Sets the stream that the stage reads, from a list of one stream.
    pub fn ingressors(self, in_streams: Vec<PacketStream<T>>) -> (builder: Self)
        ensures
            builder@ == self@.ingressors(contents(in_streams@)),
    {
        let mut builder = self;
        let mut in_streams = in_streams;
        if builder.misuse.is_none() {
            if builder.in_stream.is_some() {
                builder.misuse = Some(ConfigurationError::SetTwice(Slot::Ingressors));
            } else if in_streams.len() != 1 {
                builder.misuse = Some(
                    ConfigurationError::OutOfRange {
                        slot: Slot::Ingressors,
                        value: in_streams.len(),
                    },
                );
            } else {
                builder.in_stream = in_streams.pop();
            }
        }
        builder
    }

    /// Sets the number of egress streams.
    pub fn num_egressors(self, num_egressors: usize) -> (builder: Self)
        ensures
            builder@ == self@.num_egressors(num_egressors),
    {
        let mut builder = self;
        if builder.misuse.is_none() {
            if builder.num_egressors.is_some() {
                builder.misuse = Some(ConfigurationError::SetTwice(Slot::NumEgressors));
            } else if num_egressors == 0 {
                builder.misuse = Some(
                    ConfigurationError::OutOfRange { slot: Slot::NumEgressors, value: num_egressors },
                );
            } else {
                builder.num_egressors = Some(num_egressors);
            }
        }
        builder
    }

    /// Sets the capacity of the queue of each branch. Where it is not set,
    /// the capacity is 10.
    pub fn queue_capacity(self, queue_capacity: usize) -> (builder: Self)
        ensures
            builder@ == self@.queue_capacity(queue_capacity),
    {
        let mut builder = self;
        if builder.misuse.is_none() {
            if builder.queue_capacity.is_some() {
                builder.misuse = Some(ConfigurationError::SetTwice(Slot::QueueCapacity));
            } else if queue_capacity < MIN_QUEUE_CAPACITY || queue_capacity > MAX_QUEUE_CAPACITY {
                builder.misuse = Some(
                    ConfigurationError::OutOfRange { slot: Slot::QueueCapacity, value: queue_capacity },
                );
            } else {
                builder.queue_capacity = Some(queue_capacity);
            }
        }
        builder
    }

    /// Builds the link: one task, and as many egress streams as were asked
    /// for, each of which yields a copy of every packet of the ingress, in
    /// the order of the ingress.
    pub fn build_link(self) -> (link: Result<Link<T>, ConfigurationError>)
        ensures
            match self@.check() {
                Err(error) => link == Err::<Link<T>, ConfigurationError>(error),
                Ok(()) => link matches Ok(built) && built.0@ == self@.runnables() && replicated(
                    self@.in_stream->0,
                    contents(built.1@),
                    self@.num_egressors->0 as nat,
                ),
            },
    {
        if let Some(misuse) = self.misuse {
            return Err(misuse);
        }
        let in_stream = match self.in_stream {
            Some(in_stream) => in_stream,
            None => {
                return Err(ConfigurationError::Missing(Slot::Ingressors));
            },
        };
        let num_egressors = match self.num_egressors {
            Some(num_egressors) => num_egressors,
            None => {
                return Err(ConfigurationError::Missing(Slot::NumEgressors));
            },
        };
        let queue_capacity = match self.queue_capacity {
            Some(queue_capacity) => queue_capacity,
            None => DEFAULT_QUEUE_CAPACITY,
        };
        let copies = replicate(in_stream, num_egressors);
        let egressors = into_streams(copies);
        let mut runnables: Vec<Runnable> = Vec::new();
        runnables.push(Runnable::CloneIngressor { num_egressors, queue_capacity });
        Ok((runnables, egressors))
    }
}

} // verus!
