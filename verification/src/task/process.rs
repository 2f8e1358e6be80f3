//! The task of a process stage that runs behind a queue.
use crate::element::{outputs, state_after, Element};
use crate::task::channel::{Channel, ChannelModel, Received};
use crate::task::step::{Step, Suspension};
use vstd::prelude::*;

verus! {

/// What one step of a process stage does, from the element and the
/// channels before it to the element and the channels after it.
///
/// An ingress that is exhausted completes the step's task, which closes the
/// egress. An ingress that is empty makes it wait, and so does an egress that
/// takes no packet. Otherwise the element is handed the next packet, and
/// what it forwards, if anything, is sent on.
pub open spec fn process_stepped<E: Element>(
    element: E,
    ingress: ChannelModel<E::Input>,
    egress: ChannelModel<E::Output>,
    element_after: E,
    ingress_after: ChannelModel<E::Input>,
    egress_after: ChannelModel<E::Output>,
    step: Step,
) -> bool {
    if ingress.exhausted() {
        &&& step == Step::Completed
        &&& element_after == element
        &&& ingress_after == ingress
        &&& egress_after == egress.close()
    } else if ingress.queued.len() == 0 {
        &&& step == Step::Suspended(Suspension::IngressEmpty)
        &&& element_after == element
        &&& ingress_after == ingress
        &&& egress_after == egress
    } else if !egress.accepts() {
        &&& step == Step::Suspended(Suspension::EgressFull)
        &&& element_after == element
        &&& ingress_after == ingress
        &&& egress_after == egress
    } else {
        &&& step == Step::Advanced
        &&& element_after == element.next_state(ingress.queued[0])
        &&& ingress_after == ingress.receive()
        &&& egress_after == match element.forwarded(ingress.queued[0]) {
            Some(packet) => egress.send(packet),
            None => egress,
        }
    }
}

/// What holds of a process stage at all times, where `initial` is the
/// element as the stage was handed it: the egress has been sent what the
/// element forwards for the packets that were received, and the element is
/// in the state in which they have left it.
pub open spec fn process_invariant<E: Element>(
    initial: E,
    element: E,
    ingress: ChannelModel<E::Input>,
    egress: ChannelModel<E::Output>,
) -> bool {
    &&& egress.sent() == outputs(initial, ingress.delivered)
    &&& element == state_after(initial, ingress.delivered)
}

/// A step keeps the invariant of the stage.
pub proof fn law_process_step_keeps_invariant<E: Element>(
    initial: E,
    element: E,
    ingress: ChannelModel<E::Input>,
    egress: ChannelModel<E::Output>,
    element_after: E,
    ingress_after: ChannelModel<E::Input>,
    egress_after: ChannelModel<E::Output>,
    step: Step,
)
    requires
        process_invariant(initial, element, ingress, egress),
        process_stepped(element, ingress, egress, element_after, ingress_after, egress_after, step),
    ensures
        process_invariant(initial, element_after, ingress_after, egress_after),
{
    if step == Step::Advanced {
        let packet = ingress.queued[0];
        assert(ingress_after.delivered.drop_last() =~= ingress.delivered);
        match element.forwarded(packet) {
            Some(forwarded) => {
                assert(egress.send(forwarded).sent() =~= egress.sent().push(forwarded));
            },
            None => {},
        }
    } else if step == Step::Completed {
        assert(egress.close().sent() =~= egress.sent());
    }
}

/// What other tasks do to the channels of the stage keeps its invariant:
/// the task before may send into the ingress and close it, and the task
/// after may receive from the egress.
pub proof fn law_process_invariant_outlasts_traffic<E: Element>(
    initial: E,
    element: E,
    ingress: ChannelModel<E::Input>,
    egress: ChannelModel<E::Output>,
    packet: E::Input,
)
    requires
        process_invariant(initial, element, ingress, egress),
    ensures
        process_invariant(initial, element, ingress.send(packet), egress),
        process_invariant(initial, element, ingress.close(), egress),
        egress.queued.len() > 0 ==> process_invariant(initial, element, ingress, egress.receive()),
{
    if egress.queued.len() > 0 {
        assert(egress.receive().sent() =~= egress.sent());
    }
}

/// Once the task is complete, the egress is closed and has been sent what
/// the element forwards for all that was ever sent into the ingress.
pub proof fn law_process_completed<E: Element>(
    initial: E,
    element: E,
    ingress: ChannelModel<E::Input>,
    egress: ChannelModel<E::Output>,
    element_after: E,
    ingress_after: ChannelModel<E::Input>,
    egress_after: ChannelModel<E::Output>,
)
    requires
        process_invariant(initial, element, ingress, egress),
        process_stepped(
            element,
            ingress,
            egress,
            element_after,
            ingress_after,
            egress_after,
            Step::Completed,
        ),
    ensures
        egress_after.closed,
        egress_after.sent() == outputs(initial, ingress_after.sent()),
{
    law_process_step_keeps_invariant(
        initial,
        element,
        ingress,
        egress,
        element_after,
        ingress_after,
        egress_after,
        Step::Completed,
    );
}

/// One step of a process stage, which reads `ingress`, hands what it reads
/// to `element`, and writes `egress`.
pub fn process_step<E: Element>(
    element: &mut E,
    ingress: &mut Channel<E::Input>,
    egress: &mut Channel<E::Output>,
) -> (step: Step)
    ensures
        process_stepped(
            *old(element),
            old(ingress)@,
            old(egress)@,
            *final(element),
            final(ingress)@,
            final(egress)@,
            step,
        ),
{
    if ingress.is_exhausted() {
        egress.close();
        return Step::Completed;
    }
    if ingress.is_empty() {
        return Step::Suspended(Suspension::IngressEmpty);
    }
    if !egress.accepts() {
        return Step::Suspended(Suspension::EgressFull);
    }
    let packet = match ingress.try_recv() {
        Received::Packet(packet) => packet,
        _ => {
            return Step::Suspended(Suspension::IngressEmpty);
        },
    };
    match element.process(packet) {
        Some(forwarded) => {
            match egress.try_send(forwarded) {
                Ok(()) => {},
                Err(_) => {},
            }
        },
        None => {},
    }
    Step::Advanced
}

} // verus!
