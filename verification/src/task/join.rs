//! The merging task of a join stage.
use crate::link::counting::{
    lemma_total_len_grows, lemma_total_len_of_empty, lemma_total_len_same, total_len,
};
use crate::link::join_link::{from_line, of_line};
use crate::task::channel::{
    all_closed, all_sent, every_channel_closed, models, Channel, ChannelModel, Received,
};
use crate::task::step::{Step, Suspension};
use vstd::prelude::*;

verus! {

/// The line whose turn it is when the turn has come to `cursor`: line
/// `cursor`, or the first line where there is no such line.
pub open spec fn turn_of(lines: int, cursor: usize) -> int {
    if cursor < lines {
        cursor as int
    } else {
        0
    }
}

/// The line that stands `offset` lines after line `turn`, the first line
/// following the last.
pub open spec fn line_after(lines: int, turn: int, offset: int) -> int {
    if turn + offset < lines {
        turn + offset
    } else {
        turn + offset - lines
    }
}

/// How many lines after line `turn` line `line` stands, the first line
/// following the last.
pub open spec fn wait_of(lines: int, turn: int, line: int) -> int {
    if line >= turn {
        line - turn
    } else {
        line + lines - turn
    }
}

/// The number of lines that are passed over, from `from` lines after line
/// `turn` on, before a line with a waiting packet is met; the number of
/// lines where no line has one.
pub open spec fn passed_over<T>(ingress: Seq<ChannelModel<T>>, turn: int, from: nat) -> nat
    decreases ingress.len() - from,
{
    if from >= ingress.len() {
        ingress.len()
    } else if ingress[line_after(ingress.len() as int, turn, from as int)].queued.len() > 0 {
        from
    } else {
        passed_over(ingress, turn, from + 1)
    }
}

/// The line that the next step of the merging task serves: the first one
/// with a waiting packet, from the line whose turn it is on and round to it
/// again. It is meaningful where a line has a waiting packet.
pub open spec fn served_line<T>(ingress: Seq<ChannelModel<T>>, cursor: usize) -> int {
    let lines = ingress.len() as int;
    line_after(lines, turn_of(lines, cursor), passed_over(ingress, turn_of(lines, cursor), 0) as int)
}

/// Whether some line has a waiting packet.
pub open spec fn some_line_ready<T>(ingress: Seq<ChannelModel<T>>, cursor: usize) -> bool {
    passed_over(ingress, turn_of(ingress.len() as int, cursor), 0) < ingress.len()
}

/// What one step of the merging task of a join stage does, from the cursor
/// and the channels before it to the cursor and the channels after it. The
/// cursor names the line whose turn it is.
///
/// Where a line has a waiting packet, the task serves the first such line,
/// from the line whose turn it is on: it takes the packet off that line,
/// sends it into the egress, and hands the turn to the line after; but it
/// waits where the egress takes no packet. Where no line has a waiting
/// packet, the task is complete if every line is closed, and closes the
/// egress; else it waits.
pub open spec fn join_stepped<T>(
    cursor: usize,
    ingress: Seq<ChannelModel<T>>,
    egress: ChannelModel<T>,
    cursor_after: usize,
    ingress_after: Seq<ChannelModel<T>>,
    egress_after: ChannelModel<T>,
    step: Step,
) -> bool {
    let lines = ingress.len() as int;
    let line = served_line(ingress, cursor);
    if some_line_ready(ingress, cursor) {
        if !egress.accepts() {
            &&& step == Step::Suspended(Suspension::EgressFull)
            &&& cursor_after == cursor
            &&& ingress_after == ingress
            &&& egress_after == egress
        } else {
            &&& step == Step::Advanced
            &&& cursor_after == line_after(lines, line, 1)
            &&& ingress_after == ingress.update(line, ingress[line].receive())
            &&& egress_after == egress.send(ingress[line].queued[0])
        }
    } else if all_closed(ingress) {
        &&& step == Step::Completed
        &&& cursor_after == cursor
        &&& ingress_after == ingress
        &&& egress_after == egress.close()
    } else {
        &&& step == Step::Suspended(Suspension::IngressEmpty)
        &&& cursor_after == cursor
        &&& ingress_after == ingress
        &&& egress_after == egress
    }
}

/// The packets `packets`, each with the line that `origins` names for it.
pub open spec fn tagged<T>(origins: Seq<int>, packets: Seq<T>) -> Seq<(int, T)> {
    Seq::new(packets.len(), |place: int| (origins[place], packets[place]))
}

/// What holds between the channels of a join stage at all times, where
/// `origins` names for each packet that was sent into the egress the line
/// that it was taken from: those packets of the egress that came from a line
/// are the packets that were received from that line, in their order.
pub open spec fn join_invariant<T>(
    origins: Seq<int>,
    ingress: Seq<ChannelModel<T>>,
    egress: ChannelModel<T>,
) -> bool {
    &&& origins.len() == egress.sent().len()
    &&& forall|place: int|
        0 <= place < origins.len() ==> 0 <= #[trigger] origins[place] < ingress.len()
    &&& forall|line: int|
        0 <= line < ingress.len() ==> of_line(tagged(origins, egress.sent()), line) == (
        #[trigger] ingress[line]).delivered
}

/// The search passes over no line with a waiting packet, and ends at one
/// where there is one.
proof fn lemma_passed_over<T>(ingress: Seq<ChannelModel<T>>, turn: int, from: nat)
    requires
        0 <= turn < ingress.len(),
        from <= ingress.len(),
    ensures
        from <= passed_over(ingress, turn, from) <= ingress.len(),
        forall|offset: int|
            from <= offset < passed_over(ingress, turn, from) ==> (#[trigger] ingress[line_after(
                ingress.len() as int,
                turn,
                offset,
            )]).queued.len() == 0,
        passed_over(ingress, turn, from) < ingress.len() ==> ingress[line_after(
            ingress.len() as int,
            turn,
            passed_over(ingress, turn, from) as int,
        )].queued.len() > 0,
    decreases ingress.len() - from,
{
    if from < ingress.len() && ingress[line_after(
        ingress.len() as int,
        turn,
        from as int,
    )].queued.len() == 0 {
        lemma_passed_over(ingress, turn, from + 1);
    }
}

/// A step of the merging task keeps the invariant of the stage: where it
/// takes a packet, with the line that it serves named as the origin of that
/// packet, and otherwise with the origins as they were.
pub proof fn law_join_step_keeps_invariant<T>(
    origins: Seq<int>,
    cursor: usize,
    ingress: Seq<ChannelModel<T>>,
    egress: ChannelModel<T>,
    cursor_after: usize,
    ingress_after: Seq<ChannelModel<T>>,
    egress_after: ChannelModel<T>,
    step: Step,
)
    requires
        join_invariant(origins, ingress, egress),
        join_stepped(cursor, ingress, egress, cursor_after, ingress_after, egress_after, step),
    ensures
        step == Step::Advanced ==> join_invariant(
            origins.push(served_line(ingress, cursor)),
            ingress_after,
            egress_after,
        ),
        step != Step::Advanced ==> join_invariant(origins, ingress_after, egress_after),
{
    let lines = ingress.len() as int;
    if step == Step::Advanced {
        let turn = turn_of(lines, cursor);
        lemma_passed_over(ingress, turn, 0);
        let served = served_line(ingress, cursor);
        let packet = ingress[served].queued[0];
        let before = tagged(origins, egress.sent());
        let after = tagged(origins.push(served), egress_after.sent());
        assert(after =~= before.push((served, packet)));
        assert forall|line: int| 0 <= line < lines implies of_line(after, line) == (
        #[trigger] ingress_after[line]).delivered by {
            Seq::lemma_filter_push(before, (served, packet), from_line(line));
            if line == served {
                assert(of_line(after, line) =~= of_line(before, line).push(packet));
            }
        }
    } else if step == Step::Completed {
        assert(egress_after.sent() =~= egress.sent());
    }
}

/// What other tasks do to the channels of the stage keeps its invariant:
/// the tasks before may send into the lines and close them, and the task
/// after may receive from the egress.
pub proof fn law_join_invariant_outlasts_traffic<T>(
    origins: Seq<int>,
    ingress: Seq<ChannelModel<T>>,
    egress: ChannelModel<T>,
    packet: T,
    line: int,
)
    requires
        join_invariant(origins, ingress, egress),
        0 <= line < ingress.len(),
    ensures
        join_invariant(origins, ingress.update(line, ingress[line].send(packet)), egress),
        join_invariant(origins, ingress.update(line, ingress[line].close()), egress),
        egress.queued.len() > 0 ==> join_invariant(origins, ingress, egress.receive()),
{
    if egress.queued.len() > 0 {
        assert(egress.receive().sent() =~= egress.sent());
    }
    let fed = ingress.update(line, ingress[line].send(packet));
    assert forall|other: int| 0 <= other < fed.len() implies of_line(
        tagged(origins, egress.sent()),
        other,
    ) == (#[trigger] fed[other]).delivered by {
        assert(ingress[other].delivered == of_line(tagged(origins, egress.sent()), other));
    }
    let closed = ingress.update(line, ingress[line].close());
    assert forall|other: int| 0 <= other < closed.len() implies of_line(
        tagged(origins, egress.sent()),
        other,
    ) == (#[trigger] closed[other]).delivered by {
        assert(ingress[other].delivered == of_line(tagged(origins, egress.sent()), other));
    }
}

/// The packets of the lines `0..lines`, line by line, of packets that are
/// tagged with their lines, are as many as the packets.
proof fn lemma_lines_partition<T>(packets: Seq<(int, T)>, lines: nat)
    requires
        forall|place: int| 0 <= place < packets.len() ==> 0 <= (#[trigger] packets[place]).0 < lines,
    ensures
        total_len(Seq::new(lines, |line: int| of_line(packets, line))) == packets.len(),
    decreases packets.len(),
{
    let split = Seq::new(lines, |line: int| of_line(packets, line));
    if packets.len() == 0 {
        lemma_total_len_of_empty::<T>(lines);
        lemma_total_len_same(Seq::new(lines, |line: int| Seq::<T>::empty()), split);
    } else {
        let before = packets.drop_last();
        let last = packets.last();
        assert(before.push(last) =~= packets);
        assert forall|place: int| 0 <= place < before.len() implies 0 <= (
        #[trigger] before[place]).0 < lines by {
            assert(before[place] == packets[place]);
        }
        lemma_lines_partition(before, lines);
        let earlier = Seq::new(lines, |line: int| of_line(before, line));
        assert forall|line: int| 0 <= line < lines implies (#[trigger] split[line]).len() == if line
            == last.0 {
            earlier[line].len() + 1
        } else {
            earlier[line].len()
        } by {
            Seq::lemma_filter_push(before, last, from_line(line));
        }
        lemma_total_len_grows(earlier, split, last.0);
    }
}

/// Once the merging task is complete, the egress is closed, and of the
/// packets that were sent into it those that came from a line are all the
/// packets that were ever sent into that line, in their order; and they are
/// as many as were sent into all the lines together.
pub proof fn law_join_completed<T>(
    origins: Seq<int>,
    cursor: usize,
    ingress: Seq<ChannelModel<T>>,
    egress: ChannelModel<T>,
    cursor_after: usize,
    ingress_after: Seq<ChannelModel<T>>,
    egress_after: ChannelModel<T>,
)
    requires
        join_invariant(origins, ingress, egress),
        join_stepped(
            cursor,
            ingress,
            egress,
            cursor_after,
            ingress_after,
            egress_after,
            Step::Completed,
        ),
    ensures
        egress_after.closed,
        forall|line: int|
            0 <= line < ingress_after.len() ==> of_line(
                tagged(origins, egress_after.sent()),
                line,
            ) == (#[trigger] ingress_after[line]).sent(),
        egress_after.sent().len() == total_len(all_sent(ingress_after)),
{
    law_join_step_keeps_invariant(
        origins,
        cursor,
        ingress,
        egress,
        cursor_after,
        ingress_after,
        egress_after,
        Step::Completed,
    );
    let lines = ingress.len() as int;
    let packets = tagged(origins, egress_after.sent());
    if lines > 0 {
        lemma_passed_over(ingress, turn_of(lines, cursor), 0);
    }
    assert forall|line: int| 0 <= line < lines implies (#[trigger] ingress_after[line]).sent()
        == ingress_after[line].delivered by {
        let turn = turn_of(lines, cursor);
        let offset = wait_of(lines, turn, line);
        assert(line_after(lines, turn, offset) == line);
    }
    lemma_lines_partition(packets, lines as nat);
    lemma_total_len_same(
        Seq::new(lines as nat, |line: int| of_line(packets, line)),
        all_sent(ingress_after),
    );
}

/// No line is starved. A line with a waiting packet is served by the next
/// step that takes a packet, or else stands nearer to its turn after that
/// step than it stood before it: it is served after one packet at most of
/// each other line.
pub proof fn law_join_serves_every_line<T>(
    cursor: usize,
    ingress: Seq<ChannelModel<T>>,
    egress: ChannelModel<T>,
    cursor_after: usize,
    ingress_after: Seq<ChannelModel<T>>,
    egress_after: ChannelModel<T>,
    line: int,
)
    requires
        join_stepped(
            cursor,
            ingress,
            egress,
            cursor_after,
            ingress_after,
            egress_after,
            Step::Advanced,
        ),
        0 <= line < ingress.len(),
        ingress[line].queued.len() > 0,
    ensures
        served_line(ingress, cursor) == line || wait_of(
            ingress.len() as int,
            turn_of(ingress.len() as int, cursor_after),
            line,
        ) < wait_of(ingress.len() as int, turn_of(ingress.len() as int, cursor), line),
{
    let lines = ingress.len() as int;
    let turn = turn_of(lines, cursor);
    lemma_passed_over(ingress, turn, 0);
    let offset = wait_of(lines, turn, line);
    let skip = passed_over(ingress, turn, 0) as int;
    if skip > offset {
        assert(ingress[line_after(lines, turn, offset)].queued.len() == 0);
    }
}

/// The number of lines that are passed over before a line with a waiting
/// packet is met, from the line whose turn it is on.
fn first_ready<T>(ingress: &Vec<Channel<T>>, turn: usize) -> (skip: usize)
    requires
        turn < ingress@.len(),
    ensures
        skip == passed_over(models(ingress@), turn as int, 0),
{
    let lines = ingress.len();
    let mut skip: usize = 0;
    while skip < lines
        invariant
            skip <= lines,
            lines == ingress@.len(),
            turn < lines,
            passed_over(models(ingress@), turn as int, 0) == passed_over(
                models(ingress@),
                turn as int,
                skip as nat,
            ),
        decreases lines - skip,
    {
        let line = if skip < lines - turn {
            turn + skip
        } else {
            skip - (lines - turn)
        };
        if !ingress[line].is_empty() {
            return skip;
        }
        skip = skip + 1;
    }
    skip
}

/// One step of the merging task of a join stage, which reads the lines
/// `ingress` and writes `egress`. `cursor` names the line whose turn it is.
pub fn join_step<T>(cursor: &mut usize, ingress: &mut Vec<Channel<T>>, egress: &mut Channel<T>) -> (step:
    Step)
    ensures
        join_stepped(
            *old(cursor),
            models(old(ingress)@),
            old(egress)@,
            *final(cursor),
            models(final(ingress)@),
            final(egress)@,
            step,
        ),
{
    let lines = ingress.len();
    let turn = if *cursor < lines {
        *cursor
    } else {
        0
    };
    let skip = if lines > 0 {
        first_ready(ingress, turn)
    } else {
        0
    };
    if skip < lines {
        proof {
            lemma_passed_over(models(ingress@), turn as int, 0);
        }
        if !egress.accepts() {
            return Step::Suspended(Suspension::EgressFull);
        }
        let line = if skip < lines - turn {
            turn + skip
        } else {
            skip - (lines - turn)
        };
        let channel = &mut ingress[line];
        match channel.try_recv() {
            Received::Packet(packet) => {
                match egress.try_send(packet) {
                    Ok(()) => {},
                    Err(_) => {},
                }
            },
            _ => {},
        }
        *cursor = if line + 1 < lines {
            line + 1
        } else {
            0
        };
        assert(models(ingress@) =~= models(old(ingress)@).update(
            line as int,
            old(ingress)@[line as int]@.receive(),
        ));
        Step::Advanced
    } else if every_channel_closed(ingress) {
        egress.close();
        Step::Completed
    } else {
        Step::Suspended(Suspension::IngressEmpty)
    }
}

} // verus!
