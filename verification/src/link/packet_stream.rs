//! Packet streams.
use vstd::prelude::*;

verus! {

/// An owned, ordered, single-pass producer of packets. Its view is the
/// sequence of packets that it has still to yield.
///
/// A stream is handed to the one stage that reads it, and is gone with that:
/// it cannot be read twice. A stream that nothing reads is a mistake in the
/// graph, which the compiler points out.
#[must_use]
pub struct PacketStream<T> {
    /// The packets to come, the next one last.
    pending: Vec<T>,
}

impl<T> View for PacketStream<T> {
    type V = Seq<T>;

    closed spec fn view(&self) -> Seq<T> {
        self.pending@.reverse()
    }
}

/// The vector with its items in the opposite order.
fn reversed<T>(items: Vec<T>) -> (out: Vec<T>)
    ensures
        out@ == items@.reverse(),
{
    let mut items = items;
    let mut out: Vec<T> = Vec::new();
    let ghost all = items@;
    while items.len() > 0
        invariant
            items@.len() + out@.len() == all.len(),
            items@ == all.take(items@.len() as int),
            out@ == all.skip(items@.len() as int).reverse(),
        decreases items.len(),
    {
        let item = items.pop().unwrap();
        out.push(item);
    }
    out
}

impl<T> PacketStream<T> {
    /// A stream that yields nothing.
    pub fn empty() -> (stream: Self)
        ensures
            stream@ == Seq::<T>::empty(),
    {
        let stream = PacketStream { pending: Vec::new() };
        stream
    }

    /// A stream that yields `items` in order, all of them at hand at once.
    pub fn immediate(items: Vec<T>) -> (stream: Self)
        ensures
            stream@ == items@,
    {
        let stream = PacketStream { pending: reversed(items) };
        stream
    }

    /// The number of packets still to come.
    pub fn len(&self) -> (n: usize)
        ensures
            n == self@.len(),
    {
        self.pending.len()
    }

    /// Takes the next packet off the stream; `None` once it is exhausted.
    pub fn next(&mut self) -> (packet: Option<T>)
        ensures
            old(self)@.len() == 0 ==> packet is None && final(self)@ == old(self)@,
            old(self)@.len() > 0 ==> packet == Some(old(self)@[0]) && final(self)@ == old(
                self,
            )@.drop_first(),
    {
        let packet = self.pending.pop();
        proof {
            if old(self)@.len() > 0 {
                assert(self@ =~= old(self)@.drop_first());
            }
        }
        packet
    }

    /// Drains the stream into a vector, in the order of the stream.
    pub fn collect(self) -> (items: Vec<T>)
        ensures
            items@ == self@,
    {
        reversed(self.pending)
    }
}

/// What each of `streams` has still to yield.
pub open spec fn contents<T>(streams: Seq<PacketStream<T>>) -> Seq<Seq<T>> {
    streams.map_values(|stream: PacketStream<T>| stream@)
}

/// The packets that each of `batches` holds.
pub open spec fn packets_of<T>(batches: Seq<Vec<T>>) -> Seq<Seq<T>> {
    batches.map_values(|batch: Vec<T>| batch@)
}

/// Hands out each of `batches` as an immediate stream.
pub fn into_streams<T>(batches: Vec<Vec<T>>) -> (streams: Vec<PacketStream<T>>)
    ensures
        contents(streams@) == packets_of(batches@),
{
    let ghost wanted = packets_of(batches@);
    let mut rest = reversed(batches);
    let mut streams: Vec<PacketStream<T>> = Vec::new();
    while rest.len() > 0
        invariant
            rest@.len() + streams@.len() == wanted.len(),
            wanted.len() == batches@.len(),
            rest@ == batches@.reverse().take(rest@.len() as int),
            contents(streams@) == wanted.take(streams@.len() as int),
            wanted == packets_of(batches@),
        decreases rest.len(),
    {
        let batch = rest.pop().unwrap();
        streams.push(PacketStream::immediate(batch));
    }
    streams
}

} // verus!
