//! The tasks at the two ends of a pipeline: the one that feeds a stream into
//! a channel, and the one that collects what comes out of a channel.
use crate::link::packet_stream::PacketStream;
use crate::task::channel::{Channel, ChannelModel, Received};
use crate::task::step::{Step, Suspension};
use vstd::prelude::*;

verus! {

/// What one step of the task that feeds a stream into a channel does.
///
/// A stream that is exhausted completes the task, which closes the channel.
/// A channel that takes no packet makes it wait. Otherwise the next packet
/// of the stream is sent into the channel.
pub open spec fn fed<T>(
    source: Seq<T>,
    egress: ChannelModel<T>,
    source_after: Seq<T>,
    egress_after: ChannelModel<T>,
    step: Step,
) -> bool {
    if source.len() == 0 {
        &&& step == Step::Completed
        &&& source_after == source
        &&& egress_after == egress.close()
    } else if !egress.accepts() {
        &&& step == Step::Suspended(Suspension::EgressFull)
        &&& source_after == source
        &&& egress_after == egress
    } else {
        &&& step == Step::Advanced
        &&& source_after == source.drop_first()
        &&& egress_after == egress.send(source[0])
    }
}

/// One step of the task that feeds `source` into `egress`.
pub fn feed_step<T>(source: &mut PacketStream<T>, egress: &mut Channel<T>) -> (step: Step)
    ensures
        fed(old(source)@, old(egress)@, final(source)@, final(egress)@, step),
{
    if source.len() == 0 {
        egress.close();
        return Step::Completed;
    }
    if !egress.accepts() {
        return Step::Suspended(Suspension::EgressFull);
    }
    match source.next() {
        Some(packet) => {
            match egress.try_send(packet) {
                Ok(()) => {},
                Err(_) => {},
            }
            Step::Advanced
        },
        None => Step::Completed,
    }
}

/// What one step of the task that collects what comes out of a channel
/// does.
///
/// A channel that is exhausted completes the task. A channel that is empty
/// makes it wait. Otherwise the next packet is received and put behind what
/// was collected before.
pub open spec fn collected<T>(
    ingress: ChannelModel<T>,
    sink: Seq<T>,
    ingress_after: ChannelModel<T>,
    sink_after: Seq<T>,
    step: Step,
) -> bool {
    if ingress.exhausted() {
        &&& step == Step::Completed
        &&& ingress_after == ingress
        &&& sink_after == sink
    } else if ingress.queued.len() == 0 {
        &&& step == Step::Suspended(Suspension::IngressEmpty)
        &&& ingress_after == ingress
        &&& sink_after == sink
    } else {
        &&& step == Step::Advanced
        &&& ingress_after == ingress.receive()
        &&& sink_after == sink.push(ingress.queued[0])
    }
}

/// One step of the task that collects into `sink` what comes out of
/// `ingress`.
pub fn collect_step<T>(ingress: &mut Channel<T>, sink: &mut Vec<T>) -> (step: Step)
    ensures
        collected(old(ingress)@, old(sink)@, final(ingress)@, final(sink)@, step),
{
    match ingress.try_recv() {
        Received::Packet(packet) => {
            sink.push(packet);
            Step::Advanced
        },
        Received::Pending => Step::Suspended(Suspension::IngressEmpty),
        Received::Exhausted => Step::Completed,
    }
}

} // verus!
