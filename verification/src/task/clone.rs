//! The task of a clone stage.
use crate::link::clone_link::replicated;
use crate::task::channel::{
    all_accept, all_sent, close_all, every_channel_accepts, models, Channel, ChannelModel, Received,
};
use crate::task::step::{Step, Suspension};
use vstd::prelude::*;

verus! {

/// Whether `after` is `before` once a copy of `packet` was sent into it.
pub open spec fn sent_copy<T: Clone>(before: ChannelModel<T>, after: ChannelModel<T>, packet: T) -> bool {
    &&& after.queued.len() == before.queued.len() + 1
    &&& cloned(packet, after.queued.last())
    &&& after == before.send(after.queued.last())
}

/// What one step of the task of a clone stage does, from the channels
/// before it to the channels after it.
///
/// An ingress that is exhausted completes the task, which closes every
/// branch. An ingress that is empty makes it wait, and so does a branch that
/// takes no packet: one slow branch holds up all of them. Otherwise the task
/// takes the next packet and sends one copy of it into every branch.
pub open spec fn clone_stepped<T: Clone>(
    ingress: ChannelModel<T>,
    egress: Seq<ChannelModel<T>>,
    ingress_after: ChannelModel<T>,
    egress_after: Seq<ChannelModel<T>>,
    step: Step,
) -> bool {
    &&& egress_after.len() == egress.len()
    &&& if ingress.exhausted() {
        &&& step == Step::Completed
        &&& ingress_after == ingress
        &&& forall|branch: int|
            0 <= branch < egress.len() ==> #[trigger] egress_after[branch] == egress[branch].close()
    } else if ingress.queued.len() == 0 {
        &&& step == Step::Suspended(Suspension::IngressEmpty)
        &&& ingress_after == ingress
        &&& egress_after == egress
    } else if !all_accept(egress) {
        &&& step == Step::Suspended(Suspension::EgressFull)
        &&& ingress_after == ingress
        &&& egress_after == egress
    } else {
        &&& step == Step::Advanced
        &&& ingress_after == ingress.receive()
        &&& forall|branch: int|
            0 <= branch < egress.len() ==> sent_copy(
                egress[branch],
                #[trigger] egress_after[branch],
                ingress.queued[0],
            )
    }
}

/// What holds between the channels of a clone stage at all times: every
/// branch has been sent one copy of each packet that the task has received,
/// in the order in which it received them.
pub open spec fn clone_invariant<T: Clone>(
    ingress: ChannelModel<T>,
    egress: Seq<ChannelModel<T>>,
) -> bool {
    replicated(ingress.delivered, all_sent(egress), egress.len())
}

/// A step of the task keeps the invariant of the stage.
pub proof fn law_clone_step_keeps_invariant<T: Clone>(
    ingress: ChannelModel<T>,
    egress: Seq<ChannelModel<T>>,
    ingress_after: ChannelModel<T>,
    egress_after: Seq<ChannelModel<T>>,
    step: Step,
)
    requires
        clone_invariant(ingress, egress),
        clone_stepped(ingress, egress, ingress_after, egress_after, step),
    ensures
        clone_invariant(ingress_after, egress_after),
{
    let before = all_sent(egress);
    let after = all_sent(egress_after);
    if step == Step::Advanced {
        assert forall|branch: int, place: int|
            0 <= branch < egress.len() && 0 <= place < ingress_after.delivered.len() implies cloned(
            ingress_after.delivered[place],
            #[trigger] after[branch][place],
        ) by {
            assert(before[branch].len() == ingress.delivered.len());
            if place < ingress.delivered.len() {
                assert(after[branch][place] == before[branch][place]);
            }
        }
        assert forall|branch: int| 0 <= branch < egress.len() implies (#[trigger] after[branch]).len()
            == ingress_after.delivered.len() by {
            assert(before[branch].len() == ingress.delivered.len());
        }
    } else if step == Step::Completed {
        assert forall|branch: int| 0 <= branch < egress.len() implies #[trigger] after[branch]
            == before[branch] by {
            assert(egress_after[branch] == egress[branch].close());
        }
    }
}

/// What other tasks do to the channels of the stage keeps its invariant:
/// the task before may send into the ingress and close it, and the tasks
/// after may receive from the branches.
pub proof fn law_clone_invariant_outlasts_traffic<T: Clone>(
    ingress: ChannelModel<T>,
    egress: Seq<ChannelModel<T>>,
    packet: T,
    branch: int,
)
    requires
        clone_invariant(ingress, egress),
        0 <= branch < egress.len(),
        egress[branch].queued.len() > 0,
    ensures
        clone_invariant(ingress.send(packet), egress),
        clone_invariant(ingress.close(), egress),
        clone_invariant(ingress, egress.update(branch, egress[branch].receive())),
{
    let taken = egress.update(branch, egress[branch].receive());
    assert(egress[branch].receive().sent() =~= egress[branch].sent());
    assert(all_sent(taken) =~= all_sent(egress));
}

/// Once the task is complete, every branch is closed and has been sent a
/// copy of every packet that was ever sent into the ingress, in order.
pub proof fn law_clone_completed<T: Clone>(
    ingress: ChannelModel<T>,
    egress: Seq<ChannelModel<T>>,
    ingress_after: ChannelModel<T>,
    egress_after: Seq<ChannelModel<T>>,
)
    requires
        clone_invariant(ingress, egress),
        clone_stepped(ingress, egress, ingress_after, egress_after, Step::Completed),
    ensures
        replicated(ingress_after.sent(), all_sent(egress_after), egress_after.len()),
        forall|branch: int|
            0 <= branch < egress_after.len() ==> (#[trigger] egress_after[branch]).closed,
{
    law_clone_step_keeps_invariant(ingress, egress, ingress_after, egress_after, Step::Completed);
    assert forall|branch: int| 0 <= branch < egress_after.len() implies (
    #[trigger] egress_after[branch]).closed by {
        assert(egress_after[branch] == egress[branch].close());
    }
}

/// One step of the task of a clone stage, which reads `ingress` and writes
/// every one of `egress`.
pub fn clone_step<T: Clone>(ingress: &mut Channel<T>, egress: &mut Vec<Channel<T>>) -> (step: Step)
    ensures
        clone_stepped(
            old(ingress)@,
            models(old(egress)@),
            final(ingress)@,
            models(final(egress)@),
            step,
        ),
{
    if ingress.is_exhausted() {
        close_all(egress);
        return Step::Completed;
    }
    if ingress.is_empty() {
        return Step::Suspended(Suspension::IngressEmpty);
    }
    if !every_channel_accepts(egress) {
        return Step::Suspended(Suspension::EgressFull);
    }
    let packet = match ingress.try_recv() {
        Received::Packet(packet) => packet,
        _ => {
            return Step::Suspended(Suspension::IngressEmpty);
        },
    };
    let mut branch: usize = 0;
    while branch < egress.len()
        invariant
            branch <= egress.len(),
            egress@.len() == old(egress)@.len(),
            all_accept(models(old(egress)@)),
            forall|i: int|
                0 <= i < branch ==> sent_copy(old(egress)@[i]@, (#[trigger] egress@[i])@, packet),
            forall|i: int| branch <= i < egress@.len() ==> (#[trigger] egress@[i])@ == old(egress)@[i]@,
        decreases egress.len() - branch,
    {
        let copy = packet.clone();
        let channel = &mut egress[branch];
        assert(models(old(egress)@)[branch as int].accepts());
        match channel.try_send(copy) {
            Ok(()) => {},
            Err(_) => {},
        }
        branch = branch + 1;
    }
    Step::Advanced
}

} // verus!
