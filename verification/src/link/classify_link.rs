//! The classify stage: one ingress, and for each packet at most one of the
//! egress branches.
//!
//! The classifier names the category of a packet and the dispatcher the
//! branch of a category. A packet whose category has a branch leaves by that
//! branch, as it came; a packet whose category has none is dropped. A branch
//! that the stage does not have is a fault: the stage stops at the first
//! packet for which the dispatcher names one, and routes nothing after it.
use crate::element::{Classifier, Dispatcher};
use crate::error::{ConfigurationError, DispatchIndexError, Slot};
use crate::link::counting::{
    lemma_total_len_grows, lemma_total_len_of_empty, lemma_total_len_same, total_len,
};
use crate::link::packet_stream::{contents, into_streams, packets_of, PacketStream};
use crate::link::runnable::{Link, Outcome, Runnable};
use vstd::prelude::*;

verus! {

/// The branch that `packet` is routed to, or `None` where it is dropped.
pub open spec fn route<C: Classifier, D: Dispatcher<Class = C::Class>>(
    classifier: C,
    dispatcher: D,
    packet: C::Packet,
) -> Option<usize> {
    dispatcher.branch_of(classifier.class_of(packet))
}

/// Whether `packet` is routed to a branch that a stage of `num_egressors`
/// branches does not have.
pub open spec fn misrouted<C: Classifier, D: Dispatcher<Class = C::Class>>(
    classifier: C,
    dispatcher: D,
    num_egressors: usize,
    packet: C::Packet,
) -> bool {
    route(classifier, dispatcher, packet) matches Some(branch) && branch >= num_egressors
}

/// Whether a packet is routed to branch `branch`.
pub open spec fn routed_to<C: Classifier, D: Dispatcher<Class = C::Class>>(
    classifier: C,
    dispatcher: D,
    branch: usize,
) -> spec_fn(C::Packet) -> bool {
    |packet: C::Packet| route(classifier, dispatcher, packet) == Some(branch)
}

/// Whether a packet is routed to no branch.
pub open spec fn unrouted<C: Classifier, D: Dispatcher<Class = C::Class>>(
    classifier: C,
    dispatcher: D,
) -> spec_fn(C::Packet) -> bool {
    |packet: C::Packet| route(classifier, dispatcher, packet) is None
}

/// The number of packets of `packets` that come before the first one that
/// is misrouted: all of them where none is.
pub open spec fn routed_len<C: Classifier, D: Dispatcher<Class = C::Class>>(
    classifier: C,
    dispatcher: D,
    num_egressors: usize,
    packets: Seq<C::Packet>,
) -> nat
    decreases packets.len(),
{
    if packets.len() == 0 || misrouted(classifier, dispatcher, num_egressors, packets[0]) {
        0
    } else {
        1 + routed_len(classifier, dispatcher, num_egressors, packets.drop_first())
    }
}

/// What each branch of a stage of `num_egressors` branches yields once
/// `packets` have been routed: the packets routed to it, in their order.
pub open spec fn branches<C: Classifier, D: Dispatcher<Class = C::Class>>(
    classifier: C,
    dispatcher: D,
    num_egressors: usize,
    packets: Seq<C::Packet>,
) -> Seq<Seq<C::Packet>> {
    Seq::new(
        num_egressors as nat,
        |branch: int| packets.filter(routed_to(classifier, dispatcher, branch as usize)),
    )
}

/// The packets of `packets` that are dropped, in their order.
pub open spec fn dropped<C: Classifier, D: Dispatcher<Class = C::Class>>(
    classifier: C,
    dispatcher: D,
    packets: Seq<C::Packet>,
) -> Seq<C::Packet> {
    packets.filter(unrouted(classifier, dispatcher))
}

/// How the task of the stage ends on `packets`.
pub open spec fn outcome_of<C: Classifier, D: Dispatcher<Class = C::Class>>(
    classifier: C,
    dispatcher: D,
    num_egressors: usize,
    packets: Seq<C::Packet>,
) -> Outcome {
    let stop = routed_len(classifier, dispatcher, num_egressors, packets);
    if stop < packets.len() {
        Outcome::Failed(
            DispatchIndexError {
                position: stop as usize,
                index: route(classifier, dispatcher, packets[stop as int])->0,
                num_egressors,
            },
        )
    } else {
        Outcome::Completed
    }
}

/// The place at which routing stops is the only one with no misrouted
/// packet before it and a misrouted packet, or the end, at it.
proof fn lemma_routed_len<C: Classifier, D: Dispatcher<Class = C::Class>>(
    classifier: C,
    dispatcher: D,
    num_egressors: usize,
    packets: Seq<C::Packet>,
    stop: int,
)
    requires
        0 <= stop <= packets.len(),
        forall|i: int|
            0 <= i < stop ==> !misrouted(classifier, dispatcher, num_egressors, #[trigger] packets[i]),
        stop < packets.len() ==> misrouted(classifier, dispatcher, num_egressors, packets[stop]),
    ensures
        routed_len(classifier, dispatcher, num_egressors, packets) == stop,
    decreases packets.len(),
{
    if stop > 0 {
        let rest = packets.drop_first();
        assert forall|i: int| 0 <= i < stop - 1 implies !misrouted(
            classifier,
            dispatcher,
            num_egressors,
            #[trigger] rest[i],
        ) by {
            assert(rest[i] == packets[i + 1]);
        }
        lemma_routed_len(classifier, dispatcher, num_egressors, rest, stop - 1);
    }
}

/// No packet before the place at which routing stops is misrouted.
pub proof fn lemma_routed_prefix<C: Classifier, D: Dispatcher<Class = C::Class>>(
    classifier: C,
    dispatcher: D,
    num_egressors: usize,
    packets: Seq<C::Packet>,
)
    ensures
        routed_len(classifier, dispatcher, num_egressors, packets) <= packets.len(),
        forall|i: int|
            0 <= i < routed_len(classifier, dispatcher, num_egressors, packets) ==> !misrouted(
                classifier,
                dispatcher,
                num_egressors,
                #[trigger] packets[i],
            ),
        routed_len(classifier, dispatcher, num_egressors, packets) < packets.len() ==> misrouted(
            classifier,
            dispatcher,
            num_egressors,
            packets[routed_len(classifier, dispatcher, num_egressors, packets) as int],
        ),
    decreases packets.len(),
{
    if packets.len() > 0 && !misrouted(classifier, dispatcher, num_egressors, packets[0]) {
        let rest = packets.drop_first();
        lemma_routed_prefix(classifier, dispatcher, num_egressors, rest);
        let stop = routed_len(classifier, dispatcher, num_egressors, packets);
        assert forall|i: int| 0 <= i < stop implies !misrouted(
            classifier,
            dispatcher,
            num_egressors,
            #[trigger] packets[i],
        ) by {
            if i > 0 {
                assert(packets[i] == rest[i - 1]);
            }
        }
        if stop < packets.len() {
            assert(packets[stop as int] == rest[stop - 1]);
        }
    }
}

/// Every packet is delivered to at most one branch, and as it came: a packet
/// that a branch yields is a packet of the ingress that is routed to this
/// branch and to no other.
pub proof fn law_classify_one_branch<C: Classifier, D: Dispatcher<Class = C::Class>>(
    classifier: C,
    dispatcher: D,
    num_egressors: usize,
    packets: Seq<C::Packet>,
    branch: usize,
    place: int,
)
    requires
        branch < num_egressors,
        0 <= place < branches(classifier, dispatcher, num_egressors, packets)[branch as int].len(),
    ensures
        ({
            let packet = branches(classifier, dispatcher, num_egressors, packets)[branch as int][place];
            &&& packets.contains(packet)
            &&& route(classifier, dispatcher, packet) == Some(branch)
            &&& forall|other: usize|
                other != branch ==> !(#[trigger] routed_to(classifier, dispatcher, other))(packet)
        }),
{
    let to_branch = routed_to(classifier, dispatcher, branch);
    let packet = packets.filter(to_branch)[place];
    packets.lemma_filter_pred(to_branch, place);
    packets.lemma_filter_contains_rev(to_branch, packet);
}

/// A packet that is dropped appears on no branch.
pub proof fn law_classify_dropped_nowhere<C: Classifier, D: Dispatcher<Class = C::Class>>(
    classifier: C,
    dispatcher: D,
    num_egressors: usize,
    packets: Seq<C::Packet>,
    packet: C::Packet,
    branch: usize,
)
    requires
        route(classifier, dispatcher, packet) is None,
        branch < num_egressors,
    ensures
        !branches(classifier, dispatcher, num_egressors, packets)[branch as int].contains(packet),
{
    let to_branch = routed_to(classifier, dispatcher, branch);
    let on_branch = packets.filter(to_branch);
    if on_branch.contains(packet) {
        let place = choose|place: int| 0 <= place < on_branch.len() && on_branch[place] == packet;
        packets.lemma_filter_pred(to_branch, place);
    }
}

/// Nothing is lost and nothing made up: where no packet is misrouted, the
/// packets on all branches and the dropped ones are as many as the packets
/// of the ingress.
pub proof fn law_classify_conserves<C: Classifier, D: Dispatcher<Class = C::Class>>(
    classifier: C,
    dispatcher: D,
    num_egressors: usize,
    packets: Seq<C::Packet>,
)
    requires
        forall|i: int|
            0 <= i < packets.len() ==> !misrouted(
                classifier,
                dispatcher,
                num_egressors,
                #[trigger] packets[i],
            ),
    ensures
        total_len(branches(classifier, dispatcher, num_egressors, packets)) + dropped(
            classifier,
            dispatcher,
            packets,
        ).len() == packets.len(),
    decreases packets.len(),
{
    if packets.len() == 0 {
        let none = branches(classifier, dispatcher, num_egressors, packets);
        lemma_total_len_same(Seq::new(num_egressors as nat, |branch: int| Seq::<C::Packet>::empty()), none);
        lemma_total_len_of_empty::<C::Packet>(num_egressors as nat);
    } else {
        let before = packets.drop_last();
        let packet = packets.last();
        assert(before.push(packet) =~= packets);
        law_classify_conserves(classifier, dispatcher, num_egressors, before);
        lemma_branches_push(classifier, dispatcher, num_egressors, before, packet);
        let earlier = branches(classifier, dispatcher, num_egressors, before);
        let later = branches(classifier, dispatcher, num_egressors, packets);
        Seq::lemma_filter_push(before, packet, unrouted(classifier, dispatcher));
        match route(classifier, dispatcher, packet) {
            Some(branch) => {
                lemma_total_len_grows(earlier, later, branch as int);
            },
            None => {
                lemma_total_len_same(earlier, later);
            },
        }
    }
}

/// Whatever is fed to the stage, of the packets that it routes none is lost
/// and none made up: the packets on all branches and the dropped ones are as
/// many as the packets that come before the first misrouted one, which are
/// all packets where none is misrouted.
pub proof fn law_classify_conserves_what_it_routes<C: Classifier, D: Dispatcher<Class = C::Class>>(
    classifier: C,
    dispatcher: D,
    num_egressors: usize,
    packets: Seq<C::Packet>,
)
    ensures
        ({
            let routed = packets.take(
                routed_len(classifier, dispatcher, num_egressors, packets) as int,
            );
            total_len(branches(classifier, dispatcher, num_egressors, routed)) + dropped(
                classifier,
                dispatcher,
                routed,
            ).len() == routed.len()
        }),
        (forall|i: int|
            0 <= i < packets.len() ==> !misrouted(
                classifier,
                dispatcher,
                num_egressors,
                #[trigger] packets[i],
            )) ==> routed_len(classifier, dispatcher, num_egressors, packets) == packets.len(),
{
    lemma_routed_prefix(classifier, dispatcher, num_egressors, packets);
    let routed = packets.take(routed_len(classifier, dispatcher, num_egressors, packets) as int);
    assert forall|i: int| 0 <= i < routed.len() implies !misrouted(
        classifier,
        dispatcher,
        num_egressors,
        #[trigger] routed[i],
    ) by {
        assert(routed[i] == packets[i]);
    }
    law_classify_conserves(classifier, dispatcher, num_egressors, routed);
}

/// What one more packet does to the branches: the branch it is routed to
/// yields it after what it yielded before, and every other branch yields what
/// it yielded before.
pub proof fn lemma_branches_push<C: Classifier, D: Dispatcher<Class = C::Class>>(
    classifier: C,
    dispatcher: D,
    num_egressors: usize,
    packets: Seq<C::Packet>,
    packet: C::Packet,
)
    ensures
        forall|branch: int|
            0 <= branch < num_egressors ==> #[trigger] branches(
                classifier,
                dispatcher,
                num_egressors,
                packets.push(packet),
            )[branch] == if route(classifier, dispatcher, packet) == Some(branch as usize) {
                branches(classifier, dispatcher, num_egressors, packets)[branch].push(packet)
            } else {
                branches(classifier, dispatcher, num_egressors, packets)[branch]
            },
{
    assert forall|branch: int| 0 <= branch < num_egressors implies #[trigger] branches(
        classifier,
        dispatcher,
        num_egressors,
        packets.push(packet),
    )[branch] == if route(classifier, dispatcher, packet) == Some(branch as usize) {
        branches(classifier, dispatcher, num_egressors, packets)[branch].push(packet)
    } else {
        branches(classifier, dispatcher, num_egressors, packets)[branch]
    } by {
        Seq::lemma_filter_push(packets, packet, routed_to(classifier, dispatcher, branch as usize));
    }
}

/// Routes one packet: names the branch that it leaves by, `None` where it is
/// dropped, or the fault where the dispatcher names a branch that a stage of
/// `num_egressors` branches does not have. `position` is the place of the
/// packet in its stream.
pub fn route_packet<C: Classifier, D: Dispatcher<Class = C::Class>>(
    classifier: &C,
    dispatcher: &D,
    num_egressors: usize,
    position: usize,
    packet: &C::Packet,
) -> (routed: Result<Option<usize>, DispatchIndexError>)
    ensures
        routed == if misrouted(*classifier, *dispatcher, num_egressors, *packet) {
            Err(
                DispatchIndexError {
                    position,
                    index: route(*classifier, *dispatcher, *packet)->0,
                    num_egressors,
                },
            )
        } else {
            Ok(route(*classifier, *dispatcher, *packet))
        },
{
    let class = classifier.classify(packet);
    match dispatcher.dispatch(class) {
        Some(index) => {
            if index < num_egressors {
                Ok(Some(index))
            } else {
                Err(DispatchIndexError { position, index, num_egressors })
            }
        },
        None => Ok(None),
    }
}

/// Routes the packets of `stream`, in order, up to the first that is
/// misrouted. Returns what each branch yields, and how the task ended.
pub fn classify_all<C: Classifier, D: Dispatcher<Class = C::Class>>(
    classifier: &C,
    dispatcher: &D,
    num_egressors: usize,
    stream: PacketStream<C::Packet>,
) -> (routed: (Vec<Vec<C::Packet>>, Outcome))
    ensures
        packets_of(routed.0@) == branches(
            *classifier,
            *dispatcher,
            num_egressors,
            stream@.take(routed_len(*classifier, *dispatcher, num_egressors, stream@) as int),
        ),
        routed.1 == outcome_of(*classifier, *dispatcher, num_egressors, stream@),
{
    let mut stream = stream;
    let ghost all = stream@;
    let mut queues: Vec<Vec<C::Packet>> = Vec::new();
    let mut branch: usize = 0;
    while branch < num_egressors
        invariant
            branch <= num_egressors,
            queues@.len() == branch,
            forall|i: int| 0 <= i < branch ==> (#[trigger] queues@[i])@.len() == 0,
        decreases num_egressors - branch,
    {
        queues.push(Vec::new());
        branch = branch + 1;
    }
    proof {
        assert forall|branch: int| 0 <= branch < num_egressors implies #[trigger] packets_of(
            queues@,
        )[branch] == branches(*classifier, *dispatcher, num_egressors, all.take(0))[branch] by {
            assert(queues@[branch]@ =~= Seq::<C::Packet>::empty());
        }
    }
    let total = stream.len();
    let mut position: usize = 0;
    let mut outcome = Outcome::Completed;
    while position < total
        invariant_except_break
            stream@ == all.skip(position as int),
            outcome == Outcome::Completed,
        invariant
            total == all.len(),
            position <= all.len(),
            queues@.len() == num_egressors,
            packets_of(queues@) == branches(
                *classifier,
                *dispatcher,
                num_egressors,
                all.take(position as int),
            ),
            forall|i: int|
                0 <= i < position ==> !misrouted(
                    *classifier,
                    *dispatcher,
                    num_egressors,
                    #[trigger] all[i],
                ),
        ensures
            position <= all.len(),
            packets_of(queues@) == branches(
                *classifier,
                *dispatcher,
                num_egressors,
                all.take(position as int),
            ),
            forall|i: int|
                0 <= i < position ==> !misrouted(
                    *classifier,
                    *dispatcher,
                    num_egressors,
                    #[trigger] all[i],
                ),
            position < all.len() ==> misrouted(
                *classifier,
                *dispatcher,
                num_egressors,
                all[position as int],
            ),
            outcome == if position < all.len() {
                Outcome::Failed(
                    DispatchIndexError {
                        position,
                        index: route(*classifier, *dispatcher, all[position as int])->0,
                        num_egressors,
                    },
                )
            } else {
                Outcome::Completed
            },
        decreases total - position,
    {
        let packet = stream.next().unwrap();
        proof {
            assert(all.take(position as int).push(packet) =~= all.take(position + 1));
            lemma_branches_push(
                *classifier,
                *dispatcher,
                num_egressors,
                all.take(position as int),
                packet,
            );
        }
        match route_packet(classifier, dispatcher, num_egressors, position, &packet) {
            Ok(Some(index)) => {
                let queue = &mut queues[index];
                queue.push(packet);
            },
            Ok(None) => {
                assert(packets_of(queues@) =~= branches(
                    *classifier,
                    *dispatcher,
                    num_egressors,
                    all.take(position + 1),
                ));
            },
            Err(fault) => {
                outcome = Outcome::Failed(fault);
                break ;
            },
        }
        position = position + 1;
    }
    proof {
        lemma_routed_len(*classifier, *dispatcher, num_egressors, all, position as int);
    }
    (queues, outcome)
}

/// The builder of a classify stage.
pub struct ClassifyLink<C: Classifier, D: Dispatcher<Class = C::Class>> {
    in_stream: Option<PacketStream<C::Packet>>,
    classifier: Option<C>,
    dispatcher: Option<D>,
    num_egressors: Option<usize>,
    misuse: Option<ConfigurationError>,
}

/// What a `ClassifyLink` has been told so far.
pub struct ClassifyLinkModel<C: Classifier, D: Dispatcher<Class = C::Class>> {
    /// The packets of the ingress stream, once it is set.
    pub in_stream: Option<Seq<C::Packet>>,
    /// The classifier, once it is set.
    pub classifier: Option<C>,
    /// The dispatcher, once it is set.
    pub dispatcher: Option<D>,
    /// The number of branches, once it is set.
    pub num_egressors: Option<usize>,
    /// The first misuse of the builder, if there was one.
    pub misuse: Option<ConfigurationError>,
}

impl<C: Classifier, D: Dispatcher<Class = C::Class>> ClassifyLinkModel<C, D> {
    /// A builder that has been told nothing.
    pub open spec fn new() -> Self {
        ClassifyLinkModel {
            in_stream: None,
            classifier: None,
            dispatcher: None,
            num_egressors: None,
            misuse: None,
        }
    }

    /// Sets the ingress stream. A second ingress is a misuse.
    pub open spec fn ingressor(self, packets: Seq<C::Packet>) -> Self {
        if self.misuse is Some {
            self
        } else if self.in_stream is Some {
            ClassifyLinkModel { misuse: Some(ConfigurationError::SetTwice(Slot::Ingressors)), ..self }
        } else {
            ClassifyLinkModel { in_stream: Some(packets), ..self }
        }
    }

    /// Sets the ingress stream from a list, which has to hold one stream.
    pub open spec fn ingressors(self, streams: Seq<Seq<C::Packet>>) -> Self {
        if self.misuse is Some {
            self
        } else if self.in_stream is Some {
            ClassifyLinkModel { misuse: Some(ConfigurationError::SetTwice(Slot::Ingressors)), ..self }
        } else if streams.len() != 1 {
            ClassifyLinkModel {
                misuse: Some(
                    ConfigurationError::OutOfRange {
                        slot: Slot::Ingressors,
                        value: streams.len() as usize,
                    },
                ),
                ..self
            }
        } else {
            ClassifyLinkModel { in_stream: Some(streams[0]), ..self }
        }
    }

    /// Sets the classifier. A second classifier is a misuse.
    pub open spec fn classifier(self, classifier: C) -> Self {
        if self.misuse is Some {
            self
        } else if self.classifier is Some {
            ClassifyLinkModel { misuse: Some(ConfigurationError::SetTwice(Slot::Classifier)), ..self }
        } else {
            ClassifyLinkModel { classifier: Some(classifier), ..self }
        }
    }

    /// Sets the dispatcher. A second dispatcher is a misuse.
    pub open spec fn dispatcher(self, dispatcher: D) -> Self {
        if self.misuse is Some {
            self
        } else if self.dispatcher is Some {
            ClassifyLinkModel { misuse: Some(ConfigurationError::SetTwice(Slot::Dispatcher)), ..self }
        } else {
            ClassifyLinkModel { dispatcher: Some(dispatcher), ..self }
        }
    }

    /// Sets the number of branches. A number set again is a misuse, and so
    /// is no branch at all.
    pub open spec fn num_egressors(self, num_egressors: usize) -> Self {
        if self.misuse is Some {
            self
        } else if self.num_egressors is Some {
            ClassifyLinkModel {
                misuse: Some(ConfigurationError::SetTwice(Slot::NumEgressors)),
                ..self
            }
        } else if num_egressors == 0 {
            ClassifyLinkModel {
                misuse: Some(
                    ConfigurationError::OutOfRange { slot: Slot::NumEgressors, value: num_egressors },
                ),
                ..self
            }
        } else {
            ClassifyLinkModel { num_egressors: Some(num_egressors), ..self }
        }
    }

    /// Whether the link can be built, and why not: because of the first
    /// misuse, or else because of the first slot that is unset of the
    /// ingress, the classifier, the dispatcher and the number of branches.
    pub open spec fn check(self) -> Result<(), ConfigurationError> {
        if let Some(misuse) = self.misuse {
            Err(misuse)
        } else if self.in_stream is None {
            Err(ConfigurationError::Missing(Slot::Ingressors))
        } else if self.classifier is None {
            Err(ConfigurationError::Missing(Slot::Classifier))
        } else if self.dispatcher is None {
            Err(ConfigurationError::Missing(Slot::Dispatcher))
        } else if self.num_egressors is None {
            Err(ConfigurationError::Missing(Slot::NumEgressors))
        } else {
            Ok(())
        }
    }

    /// The packets of the ingress that the stage routes: those before the
    /// first that is misrouted.
    pub open spec fn routed(self) -> Seq<C::Packet> {
        self.in_stream->0.take(
            routed_len(
                self.classifier->0,
                self.dispatcher->0,
                self.num_egressors->0,
                self.in_stream->0,
            ) as int,
        )
    }

    /// What each egress stream of the built link yields.
    pub open spec fn egress(self) -> Seq<Seq<C::Packet>> {
        branches(self.classifier->0, self.dispatcher->0, self.num_egressors->0, self.routed())
    }

    /// The tasks of the built link: the one that routes, and how it ends.
    pub open spec fn runnables(self) -> Seq<Runnable> {
        seq![
            Runnable::ClassifyIngressor {
                num_egressors: self.num_egressors->0,
                outcome: outcome_of(
                    self.classifier->0,
                    self.dispatcher->0,
                    self.num_egressors->0,
                    self.in_stream->0,
                ),
            },
        ]
    }
}

/// A misuse is never forgotten: a builder that was misused stays as it is
/// whatever it is told, and builds nothing.
pub proof fn law_classify_misuse_is_kept<C: Classifier, D: Dispatcher<Class = C::Class>>(
    builder: ClassifyLinkModel<C, D>,
    packets: Seq<C::Packet>,
    streams: Seq<Seq<C::Packet>>,
    classifier: C,
    dispatcher: D,
    num_egressors: usize,
)
    requires
        builder.misuse is Some,
    ensures
        builder.ingressor(packets) == builder,
        builder.ingressors(streams) == builder,
        builder.classifier(classifier) == builder,
        builder.dispatcher(dispatcher) == builder,
        builder.num_egressors(num_egressors) == builder,
        builder.check() == Err::<(), ConfigurationError>(builder.misuse->0),
{
}

/// A slot that is set twice is a misuse, whatever the builder was told
/// before and whatever is handed over; and so is a stage without a branch.
pub proof fn law_classify_slot_misused<C: Classifier, D: Dispatcher<Class = C::Class>>(
    builder: ClassifyLinkModel<C, D>,
    packets: Seq<C::Packet>,
    again: Seq<C::Packet>,
    classifier: C,
    other_classifier: C,
    dispatcher: D,
    other_dispatcher: D,
    num_egressors: usize,
    other: usize,
)
    ensures
        builder.ingressor(packets).ingressor(again).check() is Err,
        builder.classifier(classifier).classifier(other_classifier).check() is Err,
        builder.dispatcher(dispatcher).dispatcher(other_dispatcher).check() is Err,
        builder.num_egressors(num_egressors).num_egressors(other).check() is Err,
        builder.num_egressors(0).check() is Err,
{
}

impl<C: Classifier, D: Dispatcher<Class = C::Class>> View for ClassifyLink<C, D> {
    type V = ClassifyLinkModel<C, D>;

    closed spec fn view(&self) -> ClassifyLinkModel<C, D> {
        ClassifyLinkModel {
            in_stream: match self.in_stream {
                Some(stream) => Some(stream@),
                None => None,
            },
            classifier: self.classifier,
            dispatcher: self.dispatcher,
            num_egressors: self.num_egressors,
            misuse: self.misuse,
        }
    }
}

impl<C: Classifier, D: Dispatcher<Class = C::Class>> ClassifyLink<C, D> {
    /// A builder with every slot unset.
    pub fn new() -> (builder: Self)
        ensures
            builder@ == ClassifyLinkModel::<C, D>::new(),
    {
        ClassifyLink {
            in_stream: None,
            classifier: None,
            dispatcher: None,
            num_egressors: None,
            misuse: None,
        }
    }

    /// Sets the stream that the stage reads.
    pub fn ingressor(self, in_stream: PacketStream<C::Packet>) -> (builder: Self)
        ensures
            builder@ == self@.ingressor(in_stream@),
    {
        let mut builder = self;
        if builder.misuse.is_none() {
            if builder.in_stream.is_some() {
                builder.misuse = Some(ConfigurationError::SetTwice(Slot::Ingressors));
            } else {
                builder.in_stream = Some(in_stream);
            }
        }
        builder
    }

    /// Sets the stream that the stage reads, from a list of one stream.
    pub fn ingressors(self, in_streams: Vec<PacketStream<C::Packet>>) -> (builder: Self)
        ensures
            builder@ == self@.ingressors(contents(in_streams@)),
    {
        let mut builder = self;
        let mut in_streams = in_streams;
        if builder.misuse.is_none() {
            if builder.in_stream.is_some() {
                builder.misuse = Some(ConfigurationError::SetTwice(Slot::Ingressors));
            } else if in_streams.len() != 1 {
                builder.misuse = Some(
                    ConfigurationError::OutOfRange {
                        slot: Slot::Ingressors,
                        value: in_streams.len(),
                    },
                );
            } else {
                builder.in_stream = in_streams.pop();
            }
        }
        builder
    }

    /// Sets the classifier that names the category of each packet.
    pub fn classifier(self, classifier: C) -> (builder: Self)
        ensures
            builder@ == self@.classifier(classifier),
    {
        let mut builder = self;
        if builder.misuse.is_none() {
            if builder.classifier.is_some() {
                builder.misuse = Some(ConfigurationError::SetTwice(Slot::Classifier));
            } else {
                builder.classifier = Some(classifier);
            }
        }
        builder
    }

    /// Sets the dispatcher that names the branch of each category.
    pub fn dispatcher(self, dispatcher: D) -> (builder: Self)
        ensures
            builder@ == self@.dispatcher(dispatcher),
    {
        let mut builder = self;
        if builder.misuse.is_none() {
            if builder.dispatcher.is_some() {
                builder.misuse = Some(ConfigurationError::SetTwice(Slot::Dispatcher));
            } else {
                builder.dispatcher = Some(dispatcher);
            }
        }
        builder
    }

    /// Sets the number of egress streams.
    pub fn num_egressors(self, num_egressors: usize) -> (builder: Self)
        ensures
            builder@ == self@.num_egressors(num_egressors),
    {
        let mut builder = self;
        if builder.misuse.is_none() {
            if builder.num_egressors.is_some() {
                builder.misuse = Some(ConfigurationError::SetTwice(Slot::NumEgressors));
            } else if num_egressors == 0 {
                builder.misuse = Some(
                    ConfigurationError::OutOfRange { slot: Slot::NumEgressors, value: num_egressors },
                );
            } else {
                builder.num_egressors = Some(num_egressors);
            }
        }
        builder
    }

    /// Builds the link: one task, and as many egress streams as were asked
    /// for. Each egress stream yields, in the order of the ingress, the
    /// packets that are routed to its branch, of those that come before the
    /// first misrouted one. The task ends with that fault, if there is one.
    pub fn build_link(self) -> (link: Result<Link<C::Packet>, ConfigurationError>)
        ensures
            match self@.check() {
                Err(error) => link == Err::<Link<C::Packet>, ConfigurationError>(error),
                Ok(()) => link matches Ok(built) && built.0@ == self@.runnables() && contents(
                    built.1@,
                ) == self@.egress(),
            },
    {
        if let Some(misuse) = self.misuse {
            return Err(misuse);
        }
        let in_stream = match self.in_stream {
            Some(in_stream) => in_stream,
            None => {
                return Err(ConfigurationError::Missing(Slot::Ingressors));
            },
        };
        let classifier = match self.classifier {
            Some(classifier) => classifier,
            None => {
                return Err(ConfigurationError::Missing(Slot::Classifier));
            },
        };
        let dispatcher = match self.dispatcher {
            Some(dispatcher) => dispatcher,
            None => {
                return Err(ConfigurationError::Missing(Slot::Dispatcher));
            },
        };
        let num_egressors = match self.num_egressors {
            Some(num_egressors) => num_egressors,
            None => {
                return Err(ConfigurationError::Missing(Slot::NumEgressors));
            },
        };
        let (queues, outcome) = classify_all(&classifier, &dispatcher, num_egressors, in_stream);
        let egressors = into_streams(queues);
        let mut runnables: Vec<Runnable> = Vec::new();
        runnables.push(Runnable::ClassifyIngressor { num_egressors, outcome });
        Ok((runnables, egressors))
    }
}

} // verus!
