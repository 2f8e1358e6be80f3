//! The join stage: many ingress lines, one egress.
//!
//! The lines are served in rounds. In each round every line that has a
//! packet left hands over one, the lines taking their turn in the order in
//! which they were given. A line therefore waits for at most one packet of
//! each other line between two of its own, and the packets of one line leave
//! in the order in which they came.
use crate::error::{
    valid_queue_capacity, ConfigurationError, Slot, DEFAULT_QUEUE_CAPACITY, MAX_QUEUE_CAPACITY,
    MAX_STREAMS, MIN_QUEUE_CAPACITY,
};
use crate::link::counting::total_len;
use crate::link::packet_stream::{contents, PacketStream};
use crate::link::runnable::{Link, Runnable};
use vstd::prelude::*;

verus! {

/// The packets that round `round` serves: the packet at place `round` of
/// each line that has one, in the order of the lines, each with the number
/// of its line.
pub open spec fn round_of<T>(lines: Seq<Seq<T>>, round: int) -> Seq<(int, T)>
    decreases lines.len(),
{
    if lines.len() == 0 {
        Seq::empty()
    } else {
        let before = round_of(lines.drop_last(), round);
        if 0 <= round < lines.last().len() {
            before.push((lines.len() - 1, lines.last()[round]))
        } else {
            before
        }
    }
}

/// The packets that the first `count` rounds serve, in the order in which
/// they are served.
pub open spec fn rounds<T>(lines: Seq<Seq<T>>, count: nat) -> Seq<(int, T)>
    decreases count,
{
    if count == 0 {
        Seq::empty()
    } else {
        rounds(lines, (count - 1) as nat) + round_of(lines, count - 1)
    }
}

/// The length of the longest of `lines`.
pub open spec fn longest<T>(lines: Seq<Seq<T>>) -> nat
    decreases lines.len(),
{
    if lines.len() == 0 {
        0
    } else if longest(lines.drop_last()) >= lines.last().len() {
        longest(lines.drop_last())
    } else {
        lines.last().len()
    }
}

/// The packets of `lines` in the order in which the join serves them, each
/// with the number of the line it came by.
pub open spec fn merged_tagged<T>(lines: Seq<Seq<T>>) -> Seq<(int, T)> {
    rounds(lines, longest(lines))
}

/// The packets of `lines` in the order in which the join serves them.
pub open spec fn merged<T>(lines: Seq<Seq<T>>) -> Seq<T> {
    untagged(merged_tagged(lines))
}

/// The packets of `tagged`, without the numbers of their lines.
pub open spec fn untagged<T>(tagged: Seq<(int, T)>) -> Seq<T> {
    tagged.map_values(|packet: (int, T)| packet.1)
}

/// Whether a packet came by line `line`.
pub open spec fn from_line<T>(line: int) -> spec_fn((int, T)) -> bool {
    |packet: (int, T)| packet.0 == line
}

/// The packets of `tagged` that came by line `line`.
pub open spec fn of_line<T>(tagged: Seq<(int, T)>, line: int) -> Seq<T> {
    untagged(tagged.filter(from_line(line)))
}

/// The tasks of a join of `lines` lines: one for each line.
pub open spec fn join_runnables(lines: nat, queue_capacity: usize) -> Seq<Runnable> {
    Seq::new(
        lines,
        |line: int| Runnable::JoinIngressor { line: line as usize, queue_capacity },
    )
}

/// No line is longer than the longest.
proof fn lemma_longest_bounds<T>(lines: Seq<Seq<T>>, line: int)
    requires
        0 <= line < lines.len(),
    ensures
        lines[line].len() <= longest(lines),
    decreases lines.len(),
{
    if line < lines.len() - 1 {
        lemma_longest_bounds(lines.drop_last(), line);
    }
}

/// A round serves one packet of a line that has one, and none of a line
/// that has none.
proof fn lemma_round_of_line<T>(lines: Seq<Seq<T>>, round: int, line: int)
    requires
        0 <= round,
    ensures
        of_line(round_of(lines, round), line) == if 0 <= line < lines.len() && round
            < lines[line].len() {
            seq![lines[line][round]]
        } else {
            Seq::empty()
        },
    decreases lines.len(),
{
    if lines.len() == 0 {
        assert(of_line(round_of(lines, round), line) =~= Seq::<T>::empty());
    } else {
        let before = round_of(lines.drop_last(), round);
        lemma_round_of_line(lines.drop_last(), round, line);
        if round < lines.last().len() {
            let served = (lines.len() - 1, lines.last()[round]);
            Seq::lemma_filter_push(before, served, from_line(line));
            if line == lines.len() - 1 {
                assert(of_line(round_of(lines, round), line) =~= seq![lines[line][round]]);
            } else {
                assert(of_line(round_of(lines, round), line) =~= of_line(before, line));
            }
        }
    }
}

/// After `count` rounds a line has handed over its first `count` packets, in
/// their order, or all of them where it has fewer.
proof fn lemma_rounds_of_line<T>(lines: Seq<Seq<T>>, count: nat, line: int)
    requires
        0 <= line < lines.len(),
    ensures
        of_line(rounds(lines, count), line) == if count <= lines[line].len() {
            lines[line].take(count as int)
        } else {
            lines[line]
        },
    decreases count,
{
    if count == 0 {
        assert(of_line(rounds(lines, count), line) =~= lines[line].take(0));
    } else {
        let before = rounds(lines, (count - 1) as nat);
        let last = round_of(lines, count - 1);
        lemma_rounds_of_line(lines, (count - 1) as nat, line);
        lemma_round_of_line(lines, count - 1, line);
        Seq::filter_distributes_over_add(before, last, from_line(line));
        if count <= lines[line].len() {
            assert(lines[line].take(count - 1) + seq![lines[line][count - 1]]
                =~= lines[line].take(count as int));
        } else if count - 1 == lines[line].len() {
            assert(of_line(before, line) + Seq::<T>::empty() =~= of_line(before, line));
        } else {
            assert(of_line(before, line) + Seq::<T>::empty() =~= of_line(before, line));
        }
    }
}

/// The number of packets that the first `count` rounds take from `lines`.
spec fn served<T>(lines: Seq<Seq<T>>, count: nat) -> nat
    decreases lines.len(),
{
    if lines.len() == 0 {
        0
    } else if count <= lines.last().len() {
        served(lines.drop_last(), count) + count
    } else {
        served(lines.drop_last(), count) + lines.last().len()
    }
}

proof fn lemma_round_len<T>(lines: Seq<Seq<T>>, round: nat)
    ensures
        served(lines, round + 1) == served(lines, round) + round_of(lines, round as int).len(),
    decreases lines.len(),
{
    if lines.len() > 0 {
        lemma_round_len(lines.drop_last(), round);
    }
}

proof fn lemma_rounds_len<T>(lines: Seq<Seq<T>>, count: nat)
    ensures
        rounds(lines, count).len() == served(lines, count),
    decreases count,
{
    if count == 0 {
        lemma_served_none(lines);
    } else {
        lemma_rounds_len(lines, (count - 1) as nat);
        lemma_round_len(lines, (count - 1) as nat);
    }
}

proof fn lemma_served_none<T>(lines: Seq<Seq<T>>)
    ensures
        served(lines, 0) == 0,
    decreases lines.len(),
{
    if lines.len() > 0 {
        lemma_served_none(lines.drop_last());
    }
}

proof fn lemma_served_all<T>(lines: Seq<Seq<T>>, count: nat)
    requires
        count >= longest(lines),
    ensures
        served(lines, count) == total_len(lines),
    decreases lines.len(),
{
    if lines.len() > 0 {
        lemma_served_all(lines.drop_last(), count);
    }
}

proof fn lemma_total_len_uniform<T>(lines: Seq<Seq<T>>, each: nat)
    requires
        forall|line: int| 0 <= line < lines.len() ==> (#[trigger] lines[line]).len() == each,
    ensures
        total_len(lines) == lines.len() * each,
    decreases lines.len(),
{
    if lines.len() > 0 {
        lemma_total_len_uniform(lines.drop_last(), each);
        assert(lines.len() * each == (lines.len() - 1) * each + each) by (nonlinear_arith);
    }
}

/// The join never reorders the packets of one line: those packets of the
/// egress that came by a line are the packets of that line, in their order.
pub proof fn law_join_keeps_line_order<T>(lines: Seq<Seq<T>>, line: int)
    requires
        0 <= line < lines.len(),
    ensures
        of_line(merged_tagged(lines), line) == lines[line],
{
    lemma_longest_bounds(lines, line);
    lemma_rounds_of_line(lines, longest(lines), line);
}

/// The join neither loses nor makes up a packet: its egress has as many
/// packets as its lines have together.
pub proof fn law_join_conserves<T>(lines: Seq<Seq<T>>)
    ensures
        merged(lines).len() == total_len(lines),
{
    lemma_rounds_len(lines, longest(lines));
    lemma_served_all(lines, longest(lines));
}

/// With `k` packets on each of its lines, the egress of a join of `m` lines
/// has `m * k` packets.
pub proof fn law_join_uniform_count<T>(lines: Seq<Seq<T>>, each: nat)
    requires
        forall|line: int| 0 <= line < lines.len() ==> (#[trigger] lines[line]).len() == each,
    ensures
        merged(lines).len() == lines.len() * each,
{
    law_join_conserves(lines);
    lemma_total_len_uniform(lines, each);
}

/// No line is starved: the packet at place `place` of a line is served in
/// round `place`, after one packet at most of each line for each round
/// before, and together with one packet at most of each line.
pub proof fn law_join_serves_in_rounds<T>(lines: Seq<Seq<T>>, line: int, place: nat)
    requires
        0 <= line < lines.len(),
        place < lines[line].len(),
    ensures
        of_line(round_of(lines, place as int), line) == seq![lines[line][place as int]],
        round_of(lines, place as int).len() <= lines.len(),
        rounds(lines, place).len() <= place * lines.len(),
{
    lemma_round_of_line(lines, place as int, line);
    lemma_round_bounded(lines, place as int);
    lemma_rounds_bounded(lines, place);
}

proof fn lemma_round_bounded<T>(lines: Seq<Seq<T>>, round: int)
    ensures
        round_of(lines, round).len() <= lines.len(),
    decreases lines.len(),
{
    if lines.len() > 0 {
        lemma_round_bounded(lines.drop_last(), round);
    }
}

proof fn lemma_rounds_bounded<T>(lines: Seq<Seq<T>>, count: nat)
    ensures
        rounds(lines, count).len() <= count * lines.len(),
    decreases count,
{
    if count > 0 {
        lemma_rounds_bounded(lines, (count - 1) as nat);
        lemma_round_bounded(lines, count - 1);
        assert(count * lines.len() == (count - 1) * lines.len() + lines.len())
            by (nonlinear_arith);
    }
}

/// The number of packets of the longest of `streams`.
fn longest_of<T>(streams: &Vec<PacketStream<T>>) -> (depth: usize)
    ensures
        depth == longest(contents(streams@)),
{
    let ghost lines = contents(streams@);
    let mut depth: usize = 0;
    let mut line: usize = 0;
    while line < streams.len()
        invariant
            line <= streams.len(),
            lines == contents(streams@),
            depth == longest(lines.take(line as int)),
        decreases streams.len() - line,
    {
        let len = streams[line].len();
        assert(lines.take(line + 1).drop_last() =~= lines.take(line as int));
        if len > depth {
            depth = len;
        }
        line = line + 1;
    }
    assert(lines.take(line as int) =~= lines);
    depth
}

/// Merges `streams` into one sequence of packets, serving the streams in
/// rounds.
pub fn merge<T>(streams: Vec<PacketStream<T>>) -> (out: Vec<T>)
    ensures
        out@ == merged(contents(streams@)),
{
    let mut streams = streams;
    let ghost lines = contents(streams@);
    let depth = longest_of(&streams);
    let lines_len = streams.len();
    let mut out: Vec<T> = Vec::new();
    let ghost tagged: Seq<(int, T)> = Seq::empty();
    let mut round: usize = 0;
    while round < depth
        invariant
            round <= depth,
            depth == longest(lines),
            streams@.len() == lines.len(),
            lines_len == lines.len(),
            forall|line: int|
                0 <= line < lines.len() ==> (#[trigger] streams@[line])@ == lines[line].skip(
                    if round <= lines[line].len() {
                        round as int
                    } else {
                        lines[line].len() as int
                    },
                ),
            tagged == rounds(lines, round as nat),
            out@ == untagged(tagged),
        decreases depth - round,
    {
        let ghost before = tagged;
        let mut turn: usize = 0;
        while turn < lines_len
            invariant
                turn <= lines_len,
                round < depth,
                streams@.len() == lines.len(),
                lines_len == lines.len(),
                forall|line: int|
                    0 <= line < turn ==> (#[trigger] streams@[line])@ == lines[line].skip(
                        if round + 1 <= lines[line].len() {
                            round + 1
                        } else {
                            lines[line].len() as int
                        },
                    ),
                forall|line: int|
                    turn <= line < lines.len() ==> (#[trigger] streams@[line])@
                        == lines[line].skip(
                        if round <= lines[line].len() {
                            round as int
                        } else {
                            lines[line].len() as int
                        },
                    ),
                tagged == before + round_of(lines.take(turn as int), round as int),
                out@ == untagged(tagged),
            decreases lines_len - turn,
        {
            let ghost waiting = streams@[turn as int]@;
            let stream = &mut streams[turn];
            let served = stream.next();
            proof {
                assert(lines.take(turn + 1).drop_last() =~= lines.take(turn as int));
            }
            match served {
                Some(packet) => {
                    out.push(packet);
                    proof {
                        tagged = tagged.push((turn as int, packet));
                    }
                },
                None => {
                    proof {
                        assert(waiting.len() == 0);
                    }
                },
            }
            turn = turn + 1;
        }
        assert(lines.take(turn as int) =~= lines);
        round = round + 1;
    }
    out
}

/// The builder of a join stage.
pub struct JoinLink<T> {
    in_streams: Option<Vec<PacketStream<T>>>,
    queue_capacity: Option<usize>,
    misuse: Option<ConfigurationError>,
}

/// What a `JoinLink` has been told so far.
pub struct JoinLinkModel<T> {
    /// The packets of each ingress line, once the lines are set.
    pub in_streams: Option<Seq<Seq<T>>>,
    /// The capacity of the queue of each line, once it is set.
    pub queue_capacity: Option<usize>,
    /// The first misuse of the builder, if there was one.
    pub misuse: Option<ConfigurationError>,
}

impl<T> JoinLinkModel<T> {
    /// A builder that has been told nothing.
    pub open spec fn new() -> Self {
        JoinLinkModel { in_streams: None, queue_capacity: None, misuse: None }
    }

    /// Sets the ingress lines. Lines set again are a misuse, and so is a
    /// number of lines that is not in `1..=1000`.
    pub open spec fn ingressors(self, lines: Seq<Seq<T>>) -> Self {
        if self.misuse is Some {
            self
        } else if self.in_streams is Some {
            JoinLinkModel { misuse: Some(ConfigurationError::SetTwice(Slot::Ingressors)), ..self }
        } else if !(1 <= lines.len() <= MAX_STREAMS) {
            JoinLinkModel {
                misuse: Some(
                    ConfigurationError::OutOfRange {
                        slot: Slot::Ingressors,
                        value: lines.len() as usize,
                    },
                ),
                ..self
            }
        } else {
            JoinLinkModel { in_streams: Some(lines), ..self }
        }
    }

    /// Sets the capacity of the queue of each line. A capacity set again is
    /// a misuse, and so is one that is not in `1..=1000`.
    pub open spec fn queue_capacity(self, queue_capacity: usize) -> Self {
        if self.misuse is Some {
            self
        } else if self.queue_capacity is Some {
            JoinLinkModel {
                misuse: Some(ConfigurationError::SetTwice(Slot::QueueCapacity)),
                ..self
            }
        } else if !valid_queue_capacity(queue_capacity) {
            JoinLinkModel {
                misuse: Some(
                    ConfigurationError::OutOfRange {
                        slot: Slot::QueueCapacity,
                        value: queue_capacity,
                    },
                ),
                ..self
            }
        } else {
            JoinLinkModel { queue_capacity: Some(queue_capacity), ..self }
        }
    }

    /// Whether the link can be built, and why not.
    pub open spec fn check(self) -> Result<(), ConfigurationError> {
        if let Some(misuse) = self.misuse {
            Err(misuse)
        } else if self.in_streams is None {
            Err(ConfigurationError::Missing(Slot::Ingressors))
        } else {
            Ok(())
        }
    }

    /// The capacity that the queues of the built link have.
    pub open spec fn capacity(self) -> usize {
        match self.queue_capacity {
            Some(queue_capacity) => queue_capacity,
            None => DEFAULT_QUEUE_CAPACITY,
        }
    }

    /// The tasks of the built link.
    pub open spec fn runnables(self) -> Seq<Runnable> {
        join_runnables(self.in_streams->0.len(), self.capacity())
    }

    /// What the egress stream of the built link yields.
    pub open spec fn egress(self) -> Seq<T> {
        merged(self.in_streams->0)
    }
}

/// A misuse is never forgotten: a builder that was misused stays as it is
/// whatever it is told, and builds nothing.
pub proof fn law_join_misuse_is_kept<T>(
    builder: JoinLinkModel<T>,
    lines: Seq<Seq<T>>,
    queue_capacity: usize,
)
    requires
        builder.misuse is Some,
    ensures
        builder.ingressors(lines) == builder,
        builder.queue_capacity(queue_capacity) == builder,
        builder.check() == Err::<(), ConfigurationError>(builder.misuse->0),
{
}

/// A slot that is set twice is a misuse, whatever the builder was told
/// before and whatever is handed over; and so is a value that its slot does
/// not admit.
pub proof fn law_join_slot_misused<T>(
    builder: JoinLinkModel<T>,
    lines: Seq<Seq<T>>,
    more: Seq<Seq<T>>,
    queue_capacity: usize,
    other: usize,
)
    ensures
        builder.ingressors(lines).ingressors(more).check() is Err,
        builder.queue_capacity(queue_capacity).queue_capacity(other).check() is Err,
        !(1 <= lines.len() <= MAX_STREAMS) ==> builder.ingressors(lines).check() is Err,
        !valid_queue_capacity(queue_capacity) ==> builder.queue_capacity(queue_capacity).check()
            is Err,
{
}

impl<T> View for JoinLink<T> {
    type V = JoinLinkModel<T>;

    closed spec fn view(&self) -> JoinLinkModel<T> {
        JoinLinkModel {
            in_streams: match self.in_streams {
                Some(streams) => Some(contents(streams@)),
                None => None,
            },
            queue_capacity: self.queue_capacity,
            misuse: self.misuse,
        }
    }
}

impl<T> JoinLink<T> {
    /// A builder with every slot unset.
    pub fn new() -> (builder: Self)
        ensures
            builder@ == JoinLinkModel::<T>::new(),
    {
        JoinLink { in_streams: None, queue_capacity: None, misuse: None }
    }

    /// Sets the streams that the stage merges.
    pub fn ingressors(self, in_streams: Vec<PacketStream<T>>) -> (builder: Self)
        ensures
            builder@ == self@.ingressors(contents(in_streams@)),
    {
        let mut builder = self;
        if builder.misuse.is_none() {
            if builder.in_streams.is_some() {
                builder.misuse = Some(ConfigurationError::SetTwice(Slot::Ingressors));
            } else if in_streams.len() < 1 || in_streams.len() > MAX_STREAMS {
                builder.misuse = Some(
                    ConfigurationError::OutOfRange {
                        slot: Slot::Ingressors,
                        value: in_streams.len(),
                    },
                );
            } else {
                builder.in_streams = Some(in_streams);
            }
        }
        builder
    }

    /// Sets the capacity of the queue of each ingress line. Where it is not
    /// set, the capacity is 10.
    pub fn queue_capacity(self, queue_capacity: usize) -> (builder: Self)
        ensures
            builder@ == self@.queue_capacity(queue_capacity),
    {
        let mut builder = self;
        if builder.misuse.is_none() {
            if builder.queue_capacity.is_some() {
                builder.misuse = Some(ConfigurationError::SetTwice(Slot::QueueCapacity));
            } else if queue_capacity < MIN_QUEUE_CAPACITY || queue_capacity > MAX_QUEUE_CAPACITY {
                builder.misuse = Some(
                    ConfigurationError::OutOfRange { slot: Slot::QueueCapacity, value: queue_capacity },
                );
            } else {
                builder.queue_capacity = Some(queue_capacity);
            }
        }
        builder
    }

    /// Builds the link: one task for each ingress line, and one egress
    /// stream, which yields the packets of all lines as the rounds serve
    /// them.
    pub fn build_link(self) -> (link: Result<Link<T>, ConfigurationError>)
        ensures
            match self@.check() {
                Err(error) => link == Err::<Link<T>, ConfigurationError>(error),
                Ok(()) => link matches Ok(built) && built.0@ == self@.runnables() && contents(
                    built.1@,
                ) == seq![self@.egress()],
            },
    {
        if let Some(misuse) = self.misuse {
            return Err(misuse);
        }
        let in_streams = match self.in_streams {
            Some(in_streams) => in_streams,
            None => {
                return Err(ConfigurationError::Missing(Slot::Ingressors));
            },
        };
        let queue_capacity = match self.queue_capacity {
            Some(queue_capacity) => queue_capacity,
            None => DEFAULT_QUEUE_CAPACITY,
        };
        let mut runnables: Vec<Runnable> = Vec::new();
        let mut line: usize = 0;
        while line < in_streams.len()
            invariant
                line <= in_streams.len(),
                runnables@ == join_runnables(line as nat, queue_capacity),
            decreases in_streams.len() - line,
        {
            runnables.push(Runnable::JoinIngressor { line, queue_capacity });
            line = line + 1;
        }
        let out = merge(in_streams);
        let mut egressors: Vec<PacketStream<T>> = Vec::new();
        egressors.push(PacketStream::immediate(out));
        Ok((runnables, egressors))
    }
}

} // verus!
