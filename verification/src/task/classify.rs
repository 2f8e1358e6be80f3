//! The task of a classify stage.
use crate::element::{Classifier, Dispatcher};
use crate::error::DispatchIndexError;
use crate::link::classify_link::{branches, lemma_branches_push, misrouted, route, route_packet};
use crate::task::channel::{all_sent, close_all, models, Channel, ChannelModel, Received};
use crate::task::step::{Step, Suspension};
use vstd::prelude::*;

verus! {

/// What one step of the task of a classify stage does, from the channels
/// before it to the channels after it. `position` is the number of packets
/// that the task has taken before.
///
/// An ingress that is exhausted completes the task, which closes every
/// branch. An ingress that is empty makes it wait. Otherwise the next packet
/// is routed. A packet that is dropped is taken off the ingress, and that
/// is all. A packet for a branch that takes no packet makes the task wait,
/// the other branches notwithstanding. A packet for a branch that does is
/// taken off the ingress and sent into that branch, as it is. A packet that
/// is misrouted stops the task: it closes every branch, leaves the packet
/// where it is, and reports the fault.
pub open spec fn classify_stepped<C: Classifier, D: Dispatcher<Class = C::Class>>(
    classifier: C,
    dispatcher: D,
    position: usize,
    ingress: ChannelModel<C::Packet>,
    egress: Seq<ChannelModel<C::Packet>>,
    ingress_after: ChannelModel<C::Packet>,
    egress_after: Seq<ChannelModel<C::Packet>>,
    step: Result<Step, DispatchIndexError>,
) -> bool {
    &&& egress_after.len() == egress.len()
    &&& if ingress.exhausted() {
        &&& step == Ok::<Step, DispatchIndexError>(Step::Completed)
        &&& ingress_after == ingress
        &&& forall|branch: int|
            0 <= branch < egress.len() ==> #[trigger] egress_after[branch] == egress[branch].close()
    } else if ingress.queued.len() == 0 {
        &&& step == Ok::<Step, DispatchIndexError>(Step::Suspended(Suspension::IngressEmpty))
        &&& ingress_after == ingress
        &&& egress_after == egress
    } else {
        match route(classifier, dispatcher, ingress.queued[0]) {
            None => {
                &&& step == Ok::<Step, DispatchIndexError>(Step::Advanced)
                &&& ingress_after == ingress.receive()
                &&& egress_after == egress
            },
            Some(branch) => if branch >= egress.len() {
                &&& step == Err::<Step, DispatchIndexError>(
                    DispatchIndexError {
                        position,
                        index: branch,
                        num_egressors: egress.len() as usize,
                    },
                )
                &&& ingress_after == ingress
                &&& forall|other: int|
                    0 <= other < egress.len() ==> #[trigger] egress_after[other]
                        == egress[other].close()
            } else if !egress[branch as int].accepts() {
                &&& step == Ok::<Step, DispatchIndexError>(Step::Suspended(Suspension::EgressFull))
                &&& ingress_after == ingress
                &&& egress_after == egress
            } else {
                &&& step == Ok::<Step, DispatchIndexError>(Step::Advanced)
                &&& ingress_after == ingress.receive()
                &&& egress_after == egress.update(
                    branch as int,
                    egress[branch as int].send(ingress.queued[0]),
                )
            },
        }
    }
}

/// What holds between the channels of a classify stage at all times: no
/// packet that the task has received was misrouted, and every branch has
/// been sent those of them that are routed to it, in the order in which
/// they were received.
pub open spec fn classify_invariant<C: Classifier, D: Dispatcher<Class = C::Class>>(
    classifier: C,
    dispatcher: D,
    ingress: ChannelModel<C::Packet>,
    egress: Seq<ChannelModel<C::Packet>>,
) -> bool {
    &&& egress.len() <= usize::MAX
    &&& all_sent(egress) == branches(
        classifier,
        dispatcher,
        egress.len() as usize,
        ingress.delivered,
    )
    &&& forall|i: int|
        0 <= i < ingress.delivered.len() ==> !misrouted(
            classifier,
            dispatcher,
            egress.len() as usize,
            #[trigger] ingress.delivered[i],
        )
}

/// A step of the task keeps the invariant of the stage, whether it ends in
/// a fault or not.
pub proof fn law_classify_step_keeps_invariant<C: Classifier, D: Dispatcher<Class = C::Class>>(
    classifier: C,
    dispatcher: D,
    position: usize,
    ingress: ChannelModel<C::Packet>,
    egress: Seq<ChannelModel<C::Packet>>,
    ingress_after: ChannelModel<C::Packet>,
    egress_after: Seq<ChannelModel<C::Packet>>,
    step: Result<Step, DispatchIndexError>,
)
    requires
        classify_invariant(classifier, dispatcher, ingress, egress),
        classify_stepped(
            classifier,
            dispatcher,
            position,
            ingress,
            egress,
            ingress_after,
            egress_after,
            step,
        ),
    ensures
        classify_invariant(classifier, dispatcher, ingress_after, egress_after),
{
    let num_egressors = egress.len() as usize;
    let before = all_sent(egress);
    let after = all_sent(egress_after);
    if step == Ok::<Step, DispatchIndexError>(Step::Advanced) {
        let packet = ingress.queued[0];
        lemma_branches_push(classifier, dispatcher, num_egressors, ingress.delivered, packet);
        let wanted = branches(classifier, dispatcher, num_egressors, ingress_after.delivered);
        assert forall|branch: int| 0 <= branch < egress.len() implies #[trigger] after[branch]
            == wanted[branch] by {
            if route(classifier, dispatcher, packet) == Some(branch as usize) {
                assert(egress[branch].send(packet).sent() =~= egress[branch].sent().push(packet));
            }
        }
        assert(after =~= wanted);
    } else if ingress_after == ingress {
        assert forall|branch: int| 0 <= branch < egress.len() implies #[trigger] after[branch]
            == before[branch] by {
            assert(egress_after[branch] == egress[branch] || egress_after[branch]
                == egress[branch].close());
        }
        assert(after =~= before);
    }
}

/// What other tasks do to the channels of the stage keeps its invariant:
/// the task before may send into the ingress and close it, and the tasks
/// after may receive from the branches.
pub proof fn law_classify_invariant_outlasts_traffic<
    C: Classifier,
    D: Dispatcher<Class = C::Class>,
>(
    classifier: C,
    dispatcher: D,
    ingress: ChannelModel<C::Packet>,
    egress: Seq<ChannelModel<C::Packet>>,
    packet: C::Packet,
    branch: int,
)
    requires
        classify_invariant(classifier, dispatcher, ingress, egress),
        0 <= branch < egress.len(),
        egress[branch].queued.len() > 0,
    ensures
        classify_invariant(classifier, dispatcher, ingress.send(packet), egress),
        classify_invariant(classifier, dispatcher, ingress.close(), egress),
        classify_invariant(
            classifier,
            dispatcher,
            ingress,
            egress.update(branch, egress[branch].receive()),
        ),
{
    let taken = egress.update(branch, egress[branch].receive());
    assert(egress[branch].receive().sent() =~= egress[branch].sent());
    assert(all_sent(taken) =~= all_sent(egress));
}

/// Once the task is complete, every branch is closed and has been sent the
/// packets that are routed to it, of all that were ever sent into the
/// ingress; and none of these was misrouted.
pub proof fn law_classify_completed<C: Classifier, D: Dispatcher<Class = C::Class>>(
    classifier: C,
    dispatcher: D,
    position: usize,
    ingress: ChannelModel<C::Packet>,
    egress: Seq<ChannelModel<C::Packet>>,
    ingress_after: ChannelModel<C::Packet>,
    egress_after: Seq<ChannelModel<C::Packet>>,
)
    requires
        classify_invariant(classifier, dispatcher, ingress, egress),
        classify_stepped(
            classifier,
            dispatcher,
            position,
            ingress,
            egress,
            ingress_after,
            egress_after,
            Ok(Step::Completed),
        ),
    ensures
        all_sent(egress_after) == branches(
            classifier,
            dispatcher,
            egress_after.len() as usize,
            ingress_after.sent(),
        ),
        forall|i: int|
            0 <= i < ingress_after.sent().len() ==> !misrouted(
                classifier,
                dispatcher,
                egress_after.len() as usize,
                #[trigger] ingress_after.sent()[i],
            ),
        forall|branch: int|
            0 <= branch < egress_after.len() ==> (#[trigger] egress_after[branch]).closed,
{
    law_classify_step_keeps_invariant(
        classifier,
        dispatcher,
        position,
        ingress,
        egress,
        ingress_after,
        egress_after,
        Ok(Step::Completed),
    );
    assert forall|branch: int| 0 <= branch < egress_after.len() implies (
    #[trigger] egress_after[branch]).closed by {
        assert(egress_after[branch] == egress[branch].close());
    }
}

/// One step of the task of a classify stage, which reads `ingress` and
/// writes the one of `egress` that the next packet is routed to. `position`
/// is the number of packets that the task has taken before.
pub fn classify_step<C: Classifier, D: Dispatcher<Class = C::Class>>(
    classifier: &C,
    dispatcher: &D,
    position: usize,
    ingress: &mut Channel<C::Packet>,
    egress: &mut Vec<Channel<C::Packet>>,
) -> (step: Result<Step, DispatchIndexError>)
    ensures
        classify_stepped(
            *classifier,
            *dispatcher,
            position,
            old(ingress)@,
            models(old(egress)@),
            final(ingress)@,
            models(final(egress)@),
            step,
        ),
{
    if ingress.is_exhausted() {
        close_all(egress);
        return Ok(Step::Completed);
    }
    let routed = match ingress.peek() {
        Some(packet) => route_packet(classifier, dispatcher, egress.len(), position, packet),
        None => {
            return Ok(Step::Suspended(Suspension::IngressEmpty));
        },
    };
    match routed {
        Err(fault) => {
            close_all(egress);
            Err(fault)
        },
        Ok(None) => {
            let _ = ingress.try_recv();
            Ok(Step::Advanced)
        },
        Ok(Some(branch)) => {
            if !egress[branch].accepts() {
                return Ok(Step::Suspended(Suspension::EgressFull));
            }
            match ingress.try_recv() {
                Received::Packet(packet) => {
                    let channel = &mut egress[branch];
                    match channel.try_send(packet) {
                        Ok(()) => {},
                        Err(_) => {},
                    }
                    assert(models(egress@) =~= models(old(egress)@).update(
                        branch as int,
                        old(egress)@[branch as int]@.send(packet),
                    ));
                    Ok(Step::Advanced)
                },
                _ => Ok(Step::Suspended(Suspension::IngressEmpty)),
            }
        },
    }
}

} // verus!
