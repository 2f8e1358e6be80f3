//! Stages assembled from the primitive ones.
use crate::element::{lemma_identity_outputs, outputs, Element, Identity};
use crate::error::{
    valid_queue_capacity, ConfigurationError, Slot, DEFAULT_QUEUE_CAPACITY, MAX_QUEUE_CAPACITY,
    MAX_STREAMS, MIN_QUEUE_CAPACITY,
};
use crate::link::clone_link::{replicated, CloneLink};
use crate::link::join_link::{join_runnables, law_join_uniform_count, merged, JoinLink};
use crate::link::packet_stream::{contents, PacketStream};
use crate::link::process_link::ProcessLink;
use crate::link::runnable::{Link, Runnable};
use vstd::prelude::*;

verus! {

/// The builder of a stage that merges its ingress lines, hands every packet
/// to one element, and puts a copy of what the element sends on onto each of
/// its egress streams: a join, a process and a clone stage in a row.
pub struct MtransformNComposite<E: Element> {
    in_streams: Option<Vec<PacketStream<E::Input>>>,
    element: Option<E>,
    join_queue_capacity: Option<usize>,
    clone_queue_capacity: Option<usize>,
    num_egressors: Option<usize>,
    misuse: Option<ConfigurationError>,
}

/// What an `MtransformNComposite` has been told so far.
pub struct MtransformNModel<E: Element> {
    /// The packets of each ingress line, once the lines are set.
    pub in_streams: Option<Seq<Seq<E::Input>>>,
    /// The element, once it is set.
    pub element: Option<E>,
    /// The capacity of the queues of the join stage, once it is set.
    pub join_queue_capacity: Option<usize>,
    /// The capacity of the queues of the clone stage, once it is set.
    pub clone_queue_capacity: Option<usize>,
    /// The number of egress streams, once it is set.
    pub num_egressors: Option<usize>,
    /// The first misuse of the builder, if there was one.
    pub misuse: Option<ConfigurationError>,
}

impl<E: Element> MtransformNModel<E> {
    /// A builder that has been told nothing.
    pub open spec fn new() -> Self {
        MtransformNModel {
            in_streams: None,
            element: None,
            join_queue_capacity: None,
            clone_queue_capacity: None,
            num_egressors: None,
            misuse: None,
        }
    }

    /// The builder after a misuse, unless it was misused before: the first
    /// misuse is the one that is kept.
    pub open spec fn misused(self, misuse: ConfigurationError) -> Self {
        if self.misuse is Some {
            self
        } else {
            MtransformNModel { misuse: Some(misuse), ..self }
        }
    }

    /// Sets the ingress lines. Lines set again are a misuse, and so is a
    /// number of lines that is not in `2..=1000`.
    pub open spec fn ingressors(self, lines: Seq<Seq<E::Input>>) -> Self {
        if self.misuse is Some {
            self
        } else if self.in_streams is Some {
            self.misused(ConfigurationError::SetTwice(Slot::Ingressors))
        } else if !(2 <= lines.len() <= MAX_STREAMS) {
            self.misused(
                ConfigurationError::OutOfRange {
                    slot: Slot::Ingressors,
                    value: lines.len() as usize,
                },
            )
        } else {
            MtransformNModel { in_streams: Some(lines), ..self }
        }
    }

    /// Sets the element. A second element is a misuse.
    pub open spec fn element(self, element: E) -> Self {
        if self.misuse is Some {
            self
        } else if self.element is Some {
            self.misused(ConfigurationError::SetTwice(Slot::Element))
        } else {
            MtransformNModel { element: Some(element), ..self }
        }
    }

    /// Sets the capacity of the queues of the join stage. A capacity set
    /// again is a misuse, and so is one that is not in `1..=1000`.
    pub open spec fn join_queue_capacity(self, queue_capacity: usize) -> Self {
        if self.misuse is Some {
            self
        } else if self.join_queue_capacity is Some {
            self.misused(ConfigurationError::SetTwice(Slot::JoinQueueCapacity))
        } else if !valid_queue_capacity(queue_capacity) {
            self.misused(
                ConfigurationError::OutOfRange {
                    slot: Slot::JoinQueueCapacity,
                    value: queue_capacity,
                },
            )
        } else {
            MtransformNModel { join_queue_capacity: Some(queue_capacity), ..self }
        }
    }

    /// Sets the capacity of the queues of the clone stage. A capacity set
    /// again is a misuse, and so is one that is not in `1..=1000`.
    pub open spec fn clone_queue_capacity(self, queue_capacity: usize) -> Self {
        if self.misuse is Some {
            self
        } else if self.clone_queue_capacity is Some {
            self.misused(ConfigurationError::SetTwice(Slot::CloneQueueCapacity))
        } else if !valid_queue_capacity(queue_capacity) {
            self.misused(
                ConfigurationError::OutOfRange {
                    slot: Slot::CloneQueueCapacity,
                    value: queue_capacity,
                },
            )
        } else {
            MtransformNModel { clone_queue_capacity: Some(queue_capacity), ..self }
        }
    }

    /// Sets the number of egress streams. A number set again is a misuse,
    /// and so is one that is not in `1..=1000`.
    pub open spec fn num_egressors(self, num_egressors: usize) -> Self {
        if self.misuse is Some {
            self
        } else if self.num_egressors is Some {
            self.misused(ConfigurationError::SetTwice(Slot::NumEgressors))
        } else if !(1 <= num_egressors <= MAX_STREAMS) {
            self.misused(
                ConfigurationError::OutOfRange { slot: Slot::NumEgressors, value: num_egressors },
            )
        } else {
            MtransformNModel { num_egressors: Some(num_egressors), ..self }
        }
    }

    /// Whether the link can be built, and why not: because of the first
    /// misuse, or else because of the first slot that is unset of the
    /// ingress lines, the number of egress streams and the element.
    pub open spec fn check(self) -> Result<(), ConfigurationError> {
        if let Some(misuse) = self.misuse {
            Err(misuse)
        } else if self.in_streams is None {
            Err(ConfigurationError::Missing(Slot::Ingressors))
        } else if self.num_egressors is None {
            Err(ConfigurationError::Missing(Slot::NumEgressors))
        } else if self.element is None {
            Err(ConfigurationError::Missing(Slot::Element))
        } else {
            Ok(())
        }
    }

    /// The capacity that the queues of the join stage have.
    pub open spec fn join_capacity(self) -> usize {
        match self.join_queue_capacity {
            Some(queue_capacity) => queue_capacity,
            None => DEFAULT_QUEUE_CAPACITY,
        }
    }

    /// The capacity that the queues of the clone stage have.
    pub open spec fn clone_capacity(self) -> usize {
        match self.clone_queue_capacity {
            Some(queue_capacity) => queue_capacity,
            None => DEFAULT_QUEUE_CAPACITY,
        }
    }

    /// The tasks of the built link: that of the clone stage, then those of
    /// the join stage. The process stage has none.
    pub open spec fn runnables(self) -> Seq<Runnable> {
        seq![
            Runnable::CloneIngressor {
                num_egressors: self.num_egressors->0,
                queue_capacity: self.clone_capacity(),
            },
        ] + join_runnables(self.in_streams->0.len(), self.join_capacity())
    }

    /// What the element sends on: its outputs for the merged ingress lines.
    pub open spec fn transformed(self) -> Seq<E::Output> {
        outputs(self.element->0, merged(self.in_streams->0))
    }

    /// Whether every value that was accepted for a slot is one that the slot
    /// admits.
    pub open spec fn in_range(self) -> bool {
        &&& self.in_streams matches Some(lines) ==> 2 <= lines.len() <= MAX_STREAMS
        &&& self.num_egressors matches Some(num_egressors) ==> 1 <= num_egressors <= MAX_STREAMS
        &&& self.join_queue_capacity matches Some(queue_capacity) ==> valid_queue_capacity(
            queue_capacity,
        )
        &&& self.clone_queue_capacity matches Some(queue_capacity) ==> valid_queue_capacity(
            queue_capacity,
        )
    }
}

/// One call of a setter of an `MtransformNComposite`.
pub enum Setting<E: Element> {
    /// `ingressors`, with the packets of each line.
    Ingressors(Seq<Seq<E::Input>>),
    /// `element`.
    Element(E),
    /// `join_queue_capacity`.
    JoinQueueCapacity(usize),
    /// `clone_queue_capacity`.
    CloneQueueCapacity(usize),
    /// `num_egressors`.
    NumEgressors(usize),
}

impl<E: Element> Setting<E> {
    /// The slot that the setter fills.
    pub open spec fn slot(self) -> Slot {
        match self {
            Setting::Ingressors(_) => Slot::Ingressors,
            Setting::Element(_) => Slot::Element,
            Setting::JoinQueueCapacity(_) => Slot::JoinQueueCapacity,
            Setting::CloneQueueCapacity(_) => Slot::CloneQueueCapacity,
            Setting::NumEgressors(_) => Slot::NumEgressors,
        }
    }

    /// Whether the value handed to the setter is one that its slot admits.
    pub open spec fn admitted(self) -> bool {
        match self {
            Setting::Ingressors(lines) => 2 <= lines.len() <= MAX_STREAMS,
            Setting::Element(_) => true,
            Setting::JoinQueueCapacity(queue_capacity) => valid_queue_capacity(queue_capacity),
            Setting::CloneQueueCapacity(queue_capacity) => valid_queue_capacity(queue_capacity),
            Setting::NumEgressors(num_egressors) => 1 <= num_egressors <= MAX_STREAMS,
        }
    }
}

impl<E: Element> MtransformNModel<E> {
    /// The builder after one call of a setter.
    pub open spec fn set(self, setting: Setting<E>) -> Self {
        match setting {
            Setting::Ingressors(lines) => self.ingressors(lines),
            Setting::Element(element) => self.element(element),
            Setting::JoinQueueCapacity(queue_capacity) => self.join_queue_capacity(queue_capacity),
            Setting::CloneQueueCapacity(queue_capacity) => self.clone_queue_capacity(
                queue_capacity,
            ),
            Setting::NumEgressors(num_egressors) => self.num_egressors(num_egressors),
        }
    }

    /// The builder after the calls `settings`, in their order.
    pub open spec fn configured(self, settings: Seq<Setting<E>>) -> Self
        decreases settings.len(),
    {
        if settings.len() == 0 {
            self
        } else {
            self.configured(settings.drop_last()).set(settings.last())
        }
    }

    /// Whether slot `slot` is set.
    pub open spec fn is_set(self, slot: Slot) -> bool {
        match slot {
            Slot::Ingressors => self.in_streams is Some,
            Slot::Element => self.element is Some,
            Slot::JoinQueueCapacity => self.join_queue_capacity is Some,
            Slot::CloneQueueCapacity => self.clone_queue_capacity is Some,
            Slot::NumEgressors => self.num_egressors is Some,
            _ => false,
        }
    }

    /// Whether slot `slot` holds what `setting` handed over.
    pub open spec fn holds(self, setting: Setting<E>) -> bool {
        match setting {
            Setting::Ingressors(lines) => self.in_streams == Some(lines),
            Setting::Element(element) => self.element == Some(element),
            Setting::JoinQueueCapacity(queue_capacity) => self.join_queue_capacity == Some(
                queue_capacity,
            ),
            Setting::CloneQueueCapacity(queue_capacity) => self.clone_queue_capacity == Some(
                queue_capacity,
            ),
            Setting::NumEgressors(num_egressors) => self.num_egressors == Some(num_egressors),
        }
    }
}

/// Whether `settings` use the builder as it is meant to be used: no slot is
/// set twice, and every value is one that its slot admits.
pub open spec fn proper<E: Element>(settings: Seq<Setting<E>>) -> bool {
    &&& forall|i: int| 0 <= i < settings.len() ==> (#[trigger] settings[i]).admitted()
    &&& forall|i: int, j: int|
        0 <= i < j < settings.len() ==> (#[trigger] settings[i]).slot() != (
        #[trigger] settings[j]).slot()
}

/// Whether one of `settings` fills slot `slot`.
pub open spec fn fills<E: Element>(settings: Seq<Setting<E>>, slot: Slot) -> bool {
    exists|i: int| 0 <= i < settings.len() && (#[trigger] settings[i]).slot() == slot
}

/// A misuse is never forgotten: whatever the builder is told after it, it
/// keeps its first misuse, and builds nothing.
pub proof fn law_misuse_is_kept<E: Element>(builder: MtransformNModel<E>, settings: Seq<Setting<E>>)
    requires
        builder.misuse is Some,
    ensures
        builder.configured(settings) == builder,
        builder.configured(settings).check() == Err::<(), ConfigurationError>(builder.misuse->0),
    decreases settings.len(),
{
    if settings.len() > 0 {
        law_misuse_is_kept(builder, settings.drop_last());
    }
}

/// A slot is filled by the last setting or by one before it.
proof fn lemma_fills_last<E: Element>(settings: Seq<Setting<E>>, slot: Slot)
    requires
        settings.len() > 0,
    ensures
        fills(settings, slot) <==> fills(settings.drop_last(), slot) || settings.last().slot()
            == slot,
{
    let before = settings.drop_last();
    if fills(settings, slot) {
        let i = choose|i: int| 0 <= i < settings.len() && (#[trigger] settings[i]).slot() == slot;
        if i < before.len() {
            assert(before[i].slot() == slot);
        }
    }
    if fills(before, slot) {
        let i = choose|i: int| 0 <= i < before.len() && (#[trigger] before[i]).slot() == slot;
        assert(settings[i].slot() == slot);
    }
    if settings.last().slot() == slot {
        assert(settings[settings.len() - 1].slot() == slot);
    }
}

/// Settings that are proper stay proper without the last of them, which
/// fills a slot that none of the others fills.
proof fn lemma_proper_last<E: Element>(settings: Seq<Setting<E>>)
    requires
        settings.len() > 0,
        proper(settings),
    ensures
        proper(settings.drop_last()),
        settings.last().admitted(),
        !fills(settings.drop_last(), settings.last().slot()),
{
    let before = settings.drop_last();
    assert forall|i: int| 0 <= i < before.len() implies (#[trigger] before[i]).admitted() by {
        assert(before[i] == settings[i]);
    }
    assert forall|i: int, j: int| 0 <= i < j < before.len() implies (#[trigger] before[i]).slot()
        != (#[trigger] before[j]).slot() by {
        assert(before[i] == settings[i] && before[j] == settings[j]);
    }
    if fills(before, settings.last().slot()) {
        let i = choose|i: int|
            0 <= i < before.len() && (#[trigger] before[i]).slot() == settings.last().slot();
        assert(settings[i].slot() != settings[settings.len() - 1].slot());
    }
}

/// What a builder that has been used properly has been told: the slots that
/// are set are those that the settings fill, with the values handed over.
proof fn lemma_proper_settings<E: Element>(settings: Seq<Setting<E>>)
    requires
        proper(settings),
    ensures
        MtransformNModel::<E>::new().configured(settings).misuse is None,
        MtransformNModel::<E>::new().configured(settings).in_range(),
        forall|slot: Slot|
            #[trigger] MtransformNModel::<E>::new().configured(settings).is_set(slot) <==> fills(
                settings,
                slot,
            ),
        forall|i: int|
            0 <= i < settings.len() ==> MtransformNModel::<E>::new().configured(settings).holds(
                #[trigger] settings[i],
            ),
    decreases settings.len(),
{
    let built = MtransformNModel::<E>::new().configured(settings);
    if settings.len() == 0 {
        assert forall|slot: Slot| #[trigger] built.is_set(slot) <==> fills(settings, slot) by {}
    } else {
        let before = settings.drop_last();
        let last = settings.last();
        let earlier = MtransformNModel::<E>::new().configured(before);
        lemma_proper_last(settings);
        lemma_proper_settings(before);
        assert(!earlier.is_set(last.slot()));
        assert forall|slot: Slot| #[trigger] built.is_set(slot) <==> fills(settings, slot) by {
            lemma_fills_last(settings, slot);
            assert(built.is_set(slot) <==> earlier.is_set(slot) || last.slot() == slot);
        }
        assert forall|i: int| 0 <= i < settings.len() implies built.holds(
            #[trigger] settings[i],
        ) by {
            if i < before.len() {
                assert(earlier.holds(before[i]));
            }
        }
    }
}

/// A fresh builder that is used properly builds its link when, and only
/// when, it has been told its ingress lines, its element and its number of
/// egress streams, in whatever order; and it then holds, in each slot that
/// was set, the value that was handed over for it.
pub proof fn law_proper_use_builds<E: Element>(settings: Seq<Setting<E>>)
    requires
        proper(settings),
    ensures
        MtransformNModel::<E>::new().configured(settings).check() is Ok <==> fills(
            settings,
            Slot::Ingressors,
        ) && fills(settings, Slot::Element) && fills(settings, Slot::NumEgressors),
        forall|i: int|
            0 <= i < settings.len() ==> MtransformNModel::<E>::new().configured(settings).holds(
                #[trigger] settings[i],
            ),
{
    lemma_proper_settings(settings);
    let built = MtransformNModel::<E>::new().configured(settings);
    assert(built.is_set(Slot::Ingressors) <==> fills(settings, Slot::Ingressors));
    assert(built.is_set(Slot::Element) <==> fills(settings, Slot::Element));
    assert(built.is_set(Slot::NumEgressors) <==> fills(settings, Slot::NumEgressors));
}

/// A builder that is not used properly builds nothing, whatever else it is
/// told: a slot that is set twice, or a value that its slot does not admit,
/// is a misuse.
pub proof fn law_improper_use_fails<E: Element>(settings: Seq<Setting<E>>)
    requires
        !proper(settings),
    ensures
        MtransformNModel::<E>::new().configured(settings).misuse is Some,
        MtransformNModel::<E>::new().configured(settings).check() is Err,
    decreases settings.len(),
{
    if settings.len() > 0 {
        let before = settings.drop_last();
        let last = settings.last();
        let earlier = MtransformNModel::<E>::new().configured(before);
        if proper(before) {
            lemma_proper_settings(before);
            if last.admitted() {
                assert forall|i: int| 0 <= i < settings.len() implies (
                #[trigger] settings[i]).admitted() by {
                    if i < before.len() {
                        assert(before[i] == settings[i]);
                    }
                }
                let (i, j) = choose|i: int, j: int|
                    0 <= i < j < settings.len() && (#[trigger] settings[i]).slot() == (
                    #[trigger] settings[j]).slot();
                if j < before.len() {
                    assert(before[i].slot() != before[j].slot());
                }
            } else {
                assert(earlier.set(last).misuse is Some);
            }
        } else {
            law_improper_use_fails(before);
        }
    }
}

/// With the identity as its element, a composite of `m` ingress lines of
/// `k` packets each yields `m * k` packets on every egress stream: a copy of
/// each packet of each line, as the join serves them.
pub proof fn law_identity_composite_keeps_every_packet<T: Send + Clone>(
    builder: MtransformNModel<Identity<T>>,
    egress: Seq<Seq<T>>,
    each: nat,
    branch: int,
)
    requires
        builder.check() is Ok,
        replicated(builder.transformed(), egress, builder.num_egressors->0 as nat),
        forall|line: int|
            0 <= line < builder.in_streams->0.len() ==> (#[trigger] builder.in_streams->0[line]).len()
                == each,
        0 <= branch < builder.num_egressors->0,
    ensures
        builder.transformed() == merged(builder.in_streams->0),
        egress[branch].len() == builder.in_streams->0.len() * each,
{
    lemma_identity_outputs(builder.element->0, merged(builder.in_streams->0));
    law_join_uniform_count(builder.in_streams->0, each);
}

impl<E: Element> View for MtransformNComposite<E> {
    type V = MtransformNModel<E>;

    closed spec fn view(&self) -> MtransformNModel<E> {
        MtransformNModel {
            in_streams: match self.in_streams {
                Some(streams) => Some(contents(streams@)),
                None => None,
            },
            element: self.element,
            join_queue_capacity: self.join_queue_capacity,
            clone_queue_capacity: self.clone_queue_capacity,
            num_egressors: self.num_egressors,
            misuse: self.misuse,
        }
    }
}

impl<E: Element> MtransformNComposite<E> {
    #[verifier::type_invariant]
    spec fn well_formed(self) -> bool {
        self@.in_range()
    }
}

impl<E: Element> MtransformNComposite<E> where E::Output: Clone {
    /// A builder with every slot unset. The queue capacities are 10 unless
    /// they are set.
    pub fn new() -> (builder: Self)
        ensures
            builder@ == MtransformNModel::<E>::new(),
    {
        MtransformNComposite {
            in_streams: None,
            element: None,
            join_queue_capacity: None,
            clone_queue_capacity: None,
            num_egressors: None,
            misuse: None,
        }
    }

    /// Changes the capacity of the queues of the join stage from 10. The
    /// valid range is `1..=1000`.
    pub fn join_queue_capacity(self, queue_capacity: usize) -> (builder: Self)
        ensures
            builder@ == self@.join_queue_capacity(queue_capacity),
    {
        proof {
            use_type_invariant(&self);
        }
        let misuse = if self.misuse.is_some() {
            self.misuse
        } else if self.join_queue_capacity.is_some() {
            Some(ConfigurationError::SetTwice(Slot::JoinQueueCapacity))
        } else if queue_capacity < MIN_QUEUE_CAPACITY || queue_capacity > MAX_QUEUE_CAPACITY {
            Some(
                ConfigurationError::OutOfRange {
                    slot: Slot::JoinQueueCapacity,
                    value: queue_capacity,
                },
            )
        } else {
            None
        };
        let accepted = self.misuse.is_none() && misuse.is_none();
        MtransformNComposite {
            in_streams: self.in_streams,
            element: self.element,
            join_queue_capacity: if accepted {
                Some(queue_capacity)
            } else {
                self.join_queue_capacity
            },
            clone_queue_capacity: self.clone_queue_capacity,
            num_egressors: self.num_egressors,
            misuse,
        }
    }

    /// Changes the capacity of the queues of the clone stage from 10. The
    /// valid range is `1..=1000`.
    pub fn clone_queue_capacity(self, queue_capacity: usize) -> (builder: Self)
        ensures
            builder@ == self@.clone_queue_capacity(queue_capacity),
    {
        proof {
            use_type_invariant(&self);
        }
        let misuse = if self.misuse.is_some() {
            self.misuse
        } else if self.clone_queue_capacity.is_some() {
            Some(ConfigurationError::SetTwice(Slot::CloneQueueCapacity))
        } else if queue_capacity < MIN_QUEUE_CAPACITY || queue_capacity > MAX_QUEUE_CAPACITY {
            Some(
                ConfigurationError::OutOfRange {
                    slot: Slot::CloneQueueCapacity,
                    value: queue_capacity,
                },
            )
        } else {
            None
        };
        let accepted = self.misuse.is_none() && misuse.is_none();
        MtransformNComposite {
            in_streams: self.in_streams,
            element: self.element,
            join_queue_capacity: self.join_queue_capacity,
            clone_queue_capacity: if accepted {
                Some(queue_capacity)
            } else {
                self.clone_queue_capacity
            },
            num_egressors: self.num_egressors,
            misuse,
        }
    }

    /// Sets the number of egress streams. The valid range is `1..=1000`.
    pub fn num_egressors(self, num_egressors: usize) -> (builder: Self)
        ensures
            builder@ == self@.num_egressors(num_egressors),
    {
        proof {
            use_type_invariant(&self);
        }
        let misuse = if self.misuse.is_some() {
            self.misuse
        } else if self.num_egressors.is_some() {
            Some(ConfigurationError::SetTwice(Slot::NumEgressors))
        } else if num_egressors < 1 || num_egressors > MAX_STREAMS {
            Some(ConfigurationError::OutOfRange { slot: Slot::NumEgressors, value: num_egressors })
        } else {
            None
        };
        let accepted = self.misuse.is_none() && misuse.is_none();
        MtransformNComposite {
            in_streams: self.in_streams,
            element: self.element,
            join_queue_capacity: self.join_queue_capacity,
            clone_queue_capacity: self.clone_queue_capacity,
            num_egressors: if accepted {
                Some(num_egressors)
            } else {
                self.num_egressors
            },
            misuse,
        }
    }

    /// Sets the streams that the stage merges. Their number has to be in
    /// `2..=1000`.
    pub fn ingressors(self, in_streams: Vec<PacketStream<E::Input>>) -> (builder: Self)
        ensures
            builder@ == self@.ingressors(contents(in_streams@)),
    {
        proof {
            use_type_invariant(&self);
        }
        let misuse = if self.misuse.is_some() {
            self.misuse
        } else if self.in_streams.is_some() {
            Some(ConfigurationError::SetTwice(Slot::Ingressors))
        } else if in_streams.len() < 2 || in_streams.len() > MAX_STREAMS {
            Some(ConfigurationError::OutOfRange { slot: Slot::Ingressors, value: in_streams.len() })
        } else {
            None
        };
        let accepted = self.misuse.is_none() && misuse.is_none();
        MtransformNComposite {
            in_streams: if accepted {
                Some(in_streams)
            } else {
                self.in_streams
            },
            element: self.element,
            join_queue_capacity: self.join_queue_capacity,
            clone_queue_capacity: self.clone_queue_capacity,
            num_egressors: self.num_egressors,
            misuse,
        }
    }

    /// Sets the element that every packet is handed to.
    pub fn element(self, element: E) -> (builder: Self)
        ensures
            builder@ == self@.element(element),
    {
        proof {
            use_type_invariant(&self);
        }
        let misuse = if self.misuse.is_some() {
            self.misuse
        } else if self.element.is_some() {
            Some(ConfigurationError::SetTwice(Slot::Element))
        } else {
            None
        };
        let accepted = self.misuse.is_none() && misuse.is_none();
        MtransformNComposite {
            in_streams: self.in_streams,
            element: if accepted {
                Some(element)
            } else {
                self.element
            },
            join_queue_capacity: self.join_queue_capacity,
            clone_queue_capacity: self.clone_queue_capacity,
            num_egressors: self.num_egressors,
            misuse,
        }
    }

    /// Builds the link, from a join stage, a process stage and a clone stage
    /// built in this order. Its tasks are those of the three stages, and its
    /// egress streams those of the clone stage: each yields a copy of every
    /// packet that the element sends on for the merged ingress lines, in
    /// that order.
    pub fn build_link(self) -> (link: Result<Link<E::Output>, ConfigurationError>)
        ensures
            match self@.check() {
                Err(error) => link == Err::<Link<E::Output>, ConfigurationError>(error),
                Ok(()) => link matches Ok(built) && built.0@ == self@.runnables() && replicated(
                    self@.transformed(),
                    contents(built.1@),
                    self@.num_egressors->0 as nat,
                ),
            },
    {
        proof {
            use_type_invariant(&self);
        }
        if let Some(misuse) = self.misuse {
            return Err(misuse);
        }
        let in_streams = match self.in_streams {
            Some(in_streams) => in_streams,
            None => {
                return Err(ConfigurationError::Missing(Slot::Ingressors));
            },
        };
        let num_egressors = match self.num_egressors {
            Some(num_egressors) => num_egressors,
            None => {
                return Err(ConfigurationError::Missing(Slot::NumEgressors));
            },
        };
        let element = match self.element {
            Some(element) => element,
            None => {
                return Err(ConfigurationError::Missing(Slot::Element));
            },
        };
        let join_queue_capacity = match self.join_queue_capacity {
            Some(queue_capacity) => queue_capacity,
            None => DEFAULT_QUEUE_CAPACITY,
        };
        let clone_queue_capacity = match self.clone_queue_capacity {
            Some(queue_capacity) => queue_capacity,
            None => DEFAULT_QUEUE_CAPACITY,
        };

        let (mut join_runnables, join_egressors) = match JoinLink::new().ingressors(
            in_streams,
        ).queue_capacity(join_queue_capacity).build_link() {
            Ok(link) => link,
            Err(error) => {
                return Err(error);
            },
        };

        let (mut process_runnables, process_egressors) = match ProcessLink::new().ingressors(
            join_egressors,
        ).element(element).build_link() {
            Ok(link) => link,
            Err(error) => {
                return Err(error);
            },
        };

        let (mut clone_link_runnables, clone_link_egressors) = match CloneLink::new().ingressors(
            process_egressors,
        ).queue_capacity(clone_queue_capacity).num_egressors(num_egressors).build_link() {
            Ok(link) => link,
            Err(error) => {
                return Err(error);
            },
        };
        clone_link_runnables.append(&mut join_runnables);
        clone_link_runnables.append(&mut process_runnables);

        Ok((clone_link_runnables, clone_link_egressors))
    }
}

} // verus!
