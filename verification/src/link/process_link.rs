//! The process stage: one ingress, one element, one egress.
use crate::element::{outputs, state_after, Element};
use crate::error::{ConfigurationError, Slot};
use crate::link::packet_stream::{contents, PacketStream};
use crate::link::runnable::{Link, Runnable};
use vstd::prelude::*;

verus! {

/// Runs `element` over the packets of `stream`, in order, and returns what it
/// sends on.
pub fn process_all<E: Element>(element: &mut E, stream: PacketStream<E::Input>) -> (out: Vec<
    E::Output,
>)
    ensures
        out@ == outputs(*old(element), stream@),
        *final(element) == state_after(*old(element), stream@),
{
    let mut stream = stream;
    let mut out: Vec<E::Output> = Vec::new();
    let ghost all = stream@;
    let ghost done: int = 0;
    while stream.len() > 0
        invariant
            0 <= done <= all.len(),
            stream@ == all.skip(done),
            out@ == outputs(*old(element), all.take(done)),
            *element == state_after(*old(element), all.take(done)),
        decreases stream@.len(),
    {
        let packet = stream.next().unwrap();
        proof {
            assert(all.take(done + 1).drop_last() =~= all.take(done));
            done = done + 1;
        }
        match element.process(packet) {
            Some(packet) => {
                out.push(packet);
            },
            None => {},
        }
    }
    out
}

/// The builder of a process stage.
pub struct ProcessLink<E: Element> {
    in_stream: Option<PacketStream<E::Input>>,
    element: Option<E>,
    misuse: Option<ConfigurationError>,
}

/// What a `ProcessLink` has been told so far.
pub struct ProcessLinkModel<E: Element> {
    /// The packets of the ingress stream, once it is set.
    pub in_stream: Option<Seq<E::Input>>,
    /// The element, once it is set.
    pub element: Option<E>,
    /// The first misuse of the builder, if there was one.
    pub misuse: Option<ConfigurationError>,
}

impl<E: Element> ProcessLinkModel<E> {
    /// A builder that has been told nothing.
    pub open spec fn new() -> Self {
        ProcessLinkModel { in_stream: None, element: None, misuse: None }
    }

    /// Sets the ingress stream. A second ingress is a misuse.
    pub open spec fn ingressor(self, packets: Seq<E::Input>) -> Self {
        if self.misuse is Some {
            self
        } else if self.in_stream is Some {
            ProcessLinkModel { misuse: Some(ConfigurationError::SetTwice(Slot::Ingressors)), ..self }
        } else {
            ProcessLinkModel { in_stream: Some(packets), ..self }
        }
    }

    /// Sets the ingress stream from a list, which has to hold one stream.
    pub open spec fn ingressors(self, streams: Seq<Seq<E::Input>>) -> Self {
        if self.misuse is Some {
            self
        } else if self.in_stream is Some {
            ProcessLinkModel { misuse: Some(ConfigurationError::SetTwice(Slot::Ingressors)), ..self }
        } else if streams.len() != 1 {
            ProcessLinkModel {
                misuse: Some(
                    ConfigurationError::OutOfRange {
                        slot: Slot::Ingressors,
                        value: streams.len() as usize,
                    },
                ),
                ..self
            }
        } else {
            ProcessLinkModel { in_stream: Some(streams[0]), ..self }
        }
    }

    /// Sets the element. A second element is a misuse.
    pub open spec fn element(self, element: E) -> Self {
        if self.misuse is Some {
            self
        } else if self.element is Some {
            ProcessLinkModel { misuse: Some(ConfigurationError::SetTwice(Slot::Element)), ..self }
        } else {
            ProcessLinkModel { element: Some(element), ..self }
        }
    }

    /// Whether the link can be built, and why not.
    pub open spec fn check(self) -> Result<(), ConfigurationError> {
        if let Some(misuse) = self.misuse {
            Err(misuse)
        } else if self.in_stream is None {
            Err(ConfigurationError::Missing(Slot::Ingressors))
        } else if self.element is None {
            Err(ConfigurationError::Missing(Slot::Element))
        } else {
            Ok(())
        }
    }

    /// What the egress stream of the built link yields.
    pub open spec fn egress(self) -> Seq<E::Output> {
        outputs(self.element->0, self.in_stream->0)
    }
}

/// A misuse is never forgotten: a builder that was misused stays as it is
/// whatever it is told, and builds nothing.
pub proof fn law_process_misuse_is_kept<E: Element>(
    builder: ProcessLinkModel<E>,
    packets: Seq<E::Input>,
    streams: Seq<Seq<E::Input>>,
    element: E,
)
    requires
        builder.misuse is Some,
    ensures
        builder.ingressor(packets) == builder,
        builder.ingressors(streams) == builder,
        builder.element(element) == builder,
        builder.check() == Err::<(), ConfigurationError>(builder.misuse->0),
{
}

/// A slot that is set twice is a misuse, whatever the builder was told
/// before and whatever is handed over.
pub proof fn law_process_slot_set_twice<E: Element>(
    builder: ProcessLinkModel<E>,
    packets: Seq<E::Input>,
    streams: Seq<Seq<E::Input>>,
    element: E,
    again: Seq<E::Input>,
    more: Seq<Seq<E::Input>>,
    other: E,
)
    ensures
        builder.ingressor(packets).ingressor(again).check() is Err,
        builder.ingressor(packets).ingressors(more).check() is Err,
        builder.ingressors(streams).ingressor(again).check() is Err,
        builder.ingressors(streams).ingressors(more).check() is Err,
        builder.element(element).element(other).check() is Err,
{
}

impl<E: Element> View for ProcessLink<E> {
    type V = ProcessLinkModel<E>;

    closed spec fn view(&self) -> ProcessLinkModel<E> {
        ProcessLinkModel {
            in_stream: match self.in_stream {
                Some(stream) => Some(stream@),
                None => None,
            },
            element: self.element,
            misuse: self.misuse,
        }
    }
}

impl<E: Element> ProcessLink<E> {
    /// A builder with every slot unset.
    pub fn new() -> (builder: Self)
        ensures
            builder@ == ProcessLinkModel::<E>::new(),
    {
        ProcessLink { in_stream: None, element: None, misuse: None }
    }

    /// Sets the stream that the stage reads.
    pub fn ingressor(self, in_stream: PacketStream<E::Input>) -> (builder: Self)
        ensures
            builder@ == self@.ingressor(in_stream@),
    {
        let mut builder = self;
        if builder.misuse.is_none() {
            if builder.in_stream.is_some() {
                builder.misuse = Some(ConfigurationError::SetTwice(Slot::Ingressors));
            } else {
                builder.in_stream = Some(in_stream);
            }
        }
        builder
    }

    /// Sets the stream that the stage reads, from a list of one stream.
    pub fn ingressors(self, in_streams: Vec<PacketStream<E::Input>>) -> (builder: Self)
        ensures
            builder@ == self@.ingressors(contents(in_streams@)),
    {
        let mut builder = self;
        let mut in_streams = in_streams;
        if builder.misuse.is_none() {
            if builder.in_stream.is_some() {
                builder.misuse = Some(ConfigurationError::SetTwice(Slot::Ingressors));
            } else if in_streams.len() != 1 {
                builder.misuse = Some(
                    ConfigurationError::OutOfRange {
                        slot: Slot::Ingressors,
                        value: in_streams.len(),
                    },
                );
            } else {
                builder.in_stream = in_streams.pop();
            }
        }
        builder
    }

    /// Sets the element that the stage applies.
    pub fn element(self, element: E) -> (builder: Self)
        ensures
            builder@ == self@.element(element),
    {
        let mut builder = self;
        if builder.misuse.is_none() {
            if builder.element.is_some() {
                builder.misuse = Some(ConfigurationError::SetTwice(Slot::Element));
            } else {
                builder.element = Some(element);
            }
        }
        builder
    }

    /// Builds the link. The stage has no task of its own: its egress stream
    /// yields what the element sends on for the packets of the ingress, in
    /// their order.
    pub fn build_link(self) -> (link: Result<Link<E::Output>, ConfigurationError>)
        ensures
            match self@.check() {
                Err(error) => link == Err::<Link<E::Output>, ConfigurationError>(error),
                Ok(()) => link matches Ok(built) && built.0@ == Seq::<Runnable>::empty()
                    && contents(built.1@) == seq![self@.egress()],
            },
    {
        if let Some(misuse) = self.misuse {
            return Err(misuse);
        }
        let in_stream = match self.in_stream {
            Some(in_stream) => in_stream,
            None => {
                return Err(ConfigurationError::Missing(Slot::Ingressors));
            },
        };
        let mut element = match self.element {
            Some(element) => element,
            None => {
                return Err(ConfigurationError::Missing(Slot::Element));
            },
        };
        let out = process_all(&mut element, in_stream);
        let mut egressors: Vec<PacketStream<E::Output>> = Vec::new();
        egressors.push(PacketStream::immediate(out));
        Ok((Vec::new(), egressors))
    }
}

} // verus!
