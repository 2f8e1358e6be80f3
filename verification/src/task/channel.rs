//! The bounded queue between two tasks.
//!
//! A channel is the one thing that two tasks share. The task that writes
//! sends packets into it and closes it once it has no more; the task that
//! reads takes them out, in the order in which they were sent. It holds no
//! more packets than its capacity: a task that finds it full has to wait,
//! and so has a task that finds it empty and not closed.
use crate::error::{
    valid_queue_capacity, ConfigurationError, Slot, MAX_QUEUE_CAPACITY, MIN_QUEUE_CAPACITY,
};
use std::collections::VecDeque;
use vstd::prelude::*;

verus! {

/// A bounded queue of packets, from one task to another.
pub struct Channel<T> {
    queue: VecDeque<T>,
    capacity: usize,
    closed: bool,
    delivered: Ghost<Seq<T>>,
}

/// What a `Channel` stands for: what has gone through it, what waits in it,
/// its capacity, and whether it is closed.
pub struct ChannelModel<T> {
    /// The packets that were received, in the order in which they were
    /// received.
    pub delivered: Seq<T>,
    /// The packets that wait in the channel, the next to be received first.
    pub queued: Seq<T>,
    /// The greatest number of packets that may wait in the channel.
    pub capacity: usize,
    /// Whether the writing task has closed the channel.
    pub closed: bool,
}

impl<T> ChannelModel<T> {
    /// An open channel through which nothing has gone.
    pub open spec fn new(capacity: usize) -> Self {
        ChannelModel { delivered: Seq::empty(), queued: Seq::empty(), capacity, closed: false }
    }

    /// The packets that were sent, in the order in which they were sent:
    /// those that were received, then those that wait.
    pub open spec fn sent(self) -> Seq<T> {
        self.delivered + self.queued
    }

    /// Whether the channel holds no more packets than it may, and its
    /// capacity is one that a channel can have.
    pub open spec fn bounded(self) -> bool {
        self.queued.len() <= self.capacity && valid_queue_capacity(self.capacity)
    }

    /// Whether a packet can be sent: the channel is open and not full.
    pub open spec fn accepts(self) -> bool {
        !self.closed && self.queued.len() < self.capacity
    }

    /// Whether nothing is left to receive, now and for ever: the channel is
    /// closed and empty.
    pub open spec fn exhausted(self) -> bool {
        self.closed && self.queued.len() == 0
    }

    /// The channel after `packet` was sent.
    pub open spec fn send(self, packet: T) -> Self {
        ChannelModel { queued: self.queued.push(packet), ..self }
    }

    /// The channel after its first waiting packet was received.
    pub open spec fn receive(self) -> Self {
        ChannelModel {
            delivered: self.delivered.push(self.queued[0]),
            queued: self.queued.drop_first(),
            ..self
        }
    }

    /// The channel after it was closed.
    pub open spec fn close(self) -> Self {
        ChannelModel { closed: true, ..self }
    }
}

/// What a task finds when it tries to receive.
pub enum Received<T> {
    /// The next packet.
    Packet(T),
    /// No packet waits, but the channel is open: the task has to wait.
    Pending,
    /// No packet waits and the channel is closed: none will come.
    Exhausted,
}

impl<T> View for Channel<T> {
    type V = ChannelModel<T>;

    closed spec fn view(&self) -> ChannelModel<T> {
        ChannelModel {
            delivered: self.delivered@,
            queued: self.queue@,
            capacity: self.capacity,
            closed: self.closed,
        }
    }
}

impl<T> Channel<T> {
    /// An open, empty channel of capacity `capacity`, which has to be in
    /// `1..=1000`.
    pub fn new(capacity: usize) -> (channel: Result<Self, ConfigurationError>)
        ensures
            match channel {
                Ok(channel) => valid_queue_capacity(capacity) && channel@ == ChannelModel::<T>::new(
                    capacity,
                ),
                Err(error) => !valid_queue_capacity(capacity) && error
                    == (ConfigurationError::OutOfRange { slot: Slot::QueueCapacity, value: capacity }),
            },
    {
        if capacity < MIN_QUEUE_CAPACITY || capacity > MAX_QUEUE_CAPACITY {
            Err(ConfigurationError::OutOfRange { slot: Slot::QueueCapacity, value: capacity })
        } else {
            Ok(
                Channel {
                    queue: VecDeque::new(),
                    capacity,
                    closed: false,
                    delivered: Ghost(Seq::empty()),
                },
            )
        }
    }

    /// The greatest number of packets that may wait in the channel.
    pub fn capacity(&self) -> (capacity: usize)
        ensures
            capacity == self@.capacity,
    {
        self.capacity
    }

    /// The number of packets that wait in the channel.
    pub fn len(&self) -> (len: usize)
        ensures
            len == self@.queued.len(),
    {
        self.queue.len()
    }

    /// Whether no packet waits in the channel.
    pub fn is_empty(&self) -> (empty: bool)
        ensures
            empty == (self@.queued.len() == 0),
    {
        self.queue.len() == 0
    }

    /// Whether the channel was closed.
    pub fn is_closed(&self) -> (closed: bool)
        ensures
            closed == self@.closed,
    {
        self.closed
    }

    /// Whether a packet can be sent.
    pub fn accepts(&self) -> (accepts: bool)
        ensures
            accepts == self@.accepts(),
    {
        !self.closed && self.queue.len() < self.capacity
    }

    /// Whether nothing is left to receive, now and for ever.
    pub fn is_exhausted(&self) -> (exhausted: bool)
        ensures
            exhausted == self@.exhausted(),
    {
        self.closed && self.queue.len() == 0
    }

    /// The packet that will be received next, if one waits.
    pub fn peek(&self) -> (next: Option<&T>)
        ensures
            match next {
                Some(packet) => self@.queued.len() > 0 && *packet == self@.queued[0],
                None => self@.queued.len() == 0,
            },
    {
        if self.queue.len() > 0 {
            Some(&self.queue[0])
        } else {
            None
        }
    }

    /// Sends `packet`, unless the channel is full or closed: it then hands
    /// the packet back, and nothing has changed.
    pub fn try_send(&mut self, packet: T) -> (refused: Result<(), T>)
        ensures
            match refused {
                Ok(()) => old(self)@.accepts() && final(self)@ == old(self)@.send(packet),
                Err(back) => !old(self)@.accepts() && back == packet && final(self)@ == old(self)@,
            },
            old(self)@.bounded() ==> final(self)@.bounded(),
    {
        if self.closed || self.queue.len() >= self.capacity {
            Err(packet)
        } else {
            self.queue.push_back(packet);
            Ok(())
        }
    }

    /// Receives the next packet, if one waits.
    pub fn try_recv(&mut self) -> (received: Received<T>)
        ensures
            match received {
                Received::Packet(packet) => old(self)@.queued.len() > 0
                    && packet == old(self)@.queued[0]
                    && final(self)@ == old(self)@.receive(),
                Received::Pending => old(self)@.queued.len() == 0 && !old(self)@.closed
                    && final(self)@ == old(self)@,
                Received::Exhausted => old(self)@.exhausted() && final(self)@ == old(self)@,
            },
            old(self)@.bounded() ==> final(self)@.bounded(),
    {
        match self.queue.pop_front() {
            Some(packet) => {
                self.delivered = Ghost(self.delivered@.push(packet));
                proof {
                    assert(self.queue@ =~= old(self).queue@.drop_first());
                }
                Received::Packet(packet)
            },
            None => {
                if self.closed {
                    Received::Exhausted
                } else {
                    Received::Pending
                }
            },
        }
    }

    /// Closes the channel: nothing more can be sent. What waits can still be
    /// received.
    pub fn close(&mut self)
        ensures
            final(self)@ == old(self)@.close(),
    {
        self.closed = true;
    }
}

/// What goes into a channel comes out of it, in the same order, and nothing
/// else does: sending and receiving leave what was sent before as it was,
/// and receiving takes none of it back.
pub proof fn law_channel_is_fifo<T>(channel: ChannelModel<T>, packet: T)
    ensures
        channel.send(packet).sent() == channel.sent().push(packet),
        channel.send(packet).delivered == channel.delivered,
        channel.queued.len() > 0 ==> channel.receive().sent() == channel.sent(),
        channel.queued.len() > 0 ==> channel.receive().delivered == channel.sent().take(
            channel.delivered.len() as int + 1,
        ),
        channel.close().sent() == channel.sent(),
        channel.delivered == channel.sent().take(channel.delivered.len() as int),
{
    if channel.queued.len() > 0 {
        assert(channel.receive().delivered =~= channel.sent().take(channel.delivered.len() as int + 1));
    }
}

/// What each of `channels` stands for.
pub open spec fn models<T>(channels: Seq<Channel<T>>) -> Seq<ChannelModel<T>> {
    channels.map_values(|channel: Channel<T>| channel@)
}

/// Whether every one of `channels` takes a packet.
pub open spec fn all_accept<T>(channels: Seq<ChannelModel<T>>) -> bool {
    forall|branch: int| 0 <= branch < channels.len() ==> (#[trigger] channels[branch]).accepts()
}

/// What has been sent into each of `channels`.
pub open spec fn all_sent<T>(channels: Seq<ChannelModel<T>>) -> Seq<Seq<T>> {
    channels.map_values(|channel: ChannelModel<T>| channel.sent())
}

/// Whether every one of `channels` is closed.
pub open spec fn all_closed<T>(channels: Seq<ChannelModel<T>>) -> bool {
    forall|line: int| 0 <= line < channels.len() ==> (#[trigger] channels[line]).closed
}

/// Whether every one of `channels` takes a packet.
pub fn every_channel_accepts<T>(channels: &Vec<Channel<T>>) -> (accept: bool)
    ensures
        accept == all_accept(models(channels@)),
{
    let mut branch: usize = 0;
    while branch < channels.len()
        invariant
            branch <= channels.len(),
            forall|i: int| 0 <= i < branch ==> (#[trigger] channels@[i])@.accepts(),
        decreases channels.len() - branch,
    {
        if !channels[branch].accepts() {
            assert(!models(channels@)[branch as int].accepts());
            return false;
        }
        branch = branch + 1;
    }
    true
}

/// Whether every one of `channels` is closed.
pub fn every_channel_closed<T>(channels: &Vec<Channel<T>>) -> (closed: bool)
    ensures
        closed == all_closed(models(channels@)),
{
    let mut line: usize = 0;
    while line < channels.len()
        invariant
            line <= channels.len(),
            forall|i: int| 0 <= i < line ==> (#[trigger] channels@[i])@.closed,
        decreases channels.len() - line,
    {
        if !channels[line].is_closed() {
            assert(!models(channels@)[line as int].closed);
            return false;
        }
        line = line + 1;
    }
    true
}

/// Closes every one of `channels`.
pub fn close_all<T>(channels: &mut Vec<Channel<T>>)
    ensures
        final(channels)@.len() == old(channels)@.len(),
        forall|branch: int|
            0 <= branch < old(channels)@.len() ==> #[trigger] models(final(channels)@)[branch]
                == models(old(channels)@)[branch].close(),
{
    let mut branch: usize = 0;
    while branch < channels.len()
        invariant
            branch <= channels.len(),
            channels@.len() == old(channels)@.len(),
            forall|i: int| 0 <= i < branch ==> (#[trigger] channels@[i])@ == old(channels)@[i]@.close(),
            forall|i: int| branch <= i < channels@.len() ==> (#[trigger] channels@[i])@ == old(channels)@[i]@,
        decreases channels.len() - branch,
    {
        let channel = &mut channels[branch];
        channel.close();
        branch = branch + 1;
    }
}

} // verus!
