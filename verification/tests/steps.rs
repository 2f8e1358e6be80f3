use route_rs_runtime::element::{Classifier, Dispatcher, Element, Identity};
use route_rs_runtime::error::{ConfigurationError, DispatchIndexError, Slot};
use route_rs_runtime::link::classify_link::ClassifyLink;
use route_rs_runtime::link::clone_link::CloneLink;
use route_rs_runtime::link::join_link::merge;
use route_rs_runtime::link::packet_stream::PacketStream;
use route_rs_runtime::link::process_link::process_all;
use route_rs_runtime::task::channel::{close_all, Channel, Received};
use route_rs_runtime::task::classify::classify_step;
use route_rs_runtime::task::clone::clone_step;
use route_rs_runtime::task::ends::{collect_step, feed_step};
use route_rs_runtime::task::join::join_step;
use route_rs_runtime::task::process::process_step;
use route_rs_runtime::task::step::{Step, Suspension};

struct Parity;

impl Classifier for Parity {
    type Packet = usize;
    type Class = bool;

    fn class_of(&self, _packet: usize) -> bool {
        unreachable!()
    }

    fn classify(&self, packet: &usize) -> bool {
        *packet % 2 == 0
    }
}

/// Even packets to branch 0, odd packets to branch `odd`.
struct EvenOdd {
    odd: Option<usize>,
}

impl Dispatcher for EvenOdd {
    type Class = bool;

    fn branch_of(&self, _class: bool) -> Option<usize> {
        unreachable!()
    }

    fn dispatch(&self, class: bool) -> Option<usize> {
        if class {
            Some(0)
        } else {
            self.odd
        }
    }
}

/// Forwards a packet unless it is equal to the one before it.
struct Dedup {
    last: Option<usize>,
}

impl Element for Dedup {
    type Input = usize;
    type Output = usize;

    fn forwarded(&self, _packet: usize) -> Option<usize> {
        unreachable!()
    }

    fn next_state(&self, _packet: usize) -> Self {
        unreachable!()
    }

    fn process(&mut self, packet: usize) -> Option<usize> {
        if self.last == Some(packet) {
            None
        } else {
            self.last = Some(packet);
            Some(packet)
        }
    }
}

fn channel<T>(capacity: usize) -> Channel<T> {
    match Channel::new(capacity) {
        Ok(channel) => channel,
        Err(_) => panic!("no channel of capacity {}", capacity),
    }
}

fn channels<T>(count: usize, capacity: usize) -> Vec<Channel<T>> {
    (0..count).map(|_| channel(capacity)).collect()
}

fn packet_of<T>(received: Received<T>) -> Option<T> {
    match received {
        Received::Packet(packet) => Some(packet),
        _ => None,
    }
}

#[test]
fn channel_capacity_has_to_be_in_range() {
    for capacity in [0usize, 1001, usize::MAX] {
        match Channel::<u8>::new(capacity) {
            Ok(_) => panic!("a channel of capacity {}", capacity),
            Err(error) => assert_eq!(
                error,
                ConfigurationError::OutOfRange { slot: Slot::QueueCapacity, value: capacity }
            ),
        }
    }
    for capacity in [1usize, 10, 1000] {
        let channel: Channel<u8> = channel(capacity);
        assert_eq!(channel.capacity(), capacity);
        assert_eq!(channel.len(), 0);
        assert!(channel.is_empty());
        assert!(channel.accepts());
        assert!(!channel.is_closed());
        assert!(!channel.is_exhausted());
    }
}

#[test]
fn channel_hands_packets_over_in_the_order_sent() {
    let mut channel = channel(3);
    assert_eq!(channel.try_send('a'), Ok(()));
    assert_eq!(channel.try_send('b'), Ok(()));
    assert_eq!(channel.peek(), Some(&'a'));
    assert_eq!(packet_of(channel.try_recv()), Some('a'));
    assert_eq!(channel.try_send('c'), Ok(()));
    assert_eq!(channel.len(), 2);
    assert_eq!(packet_of(channel.try_recv()), Some('b'));
    assert_eq!(packet_of(channel.try_recv()), Some('c'));
    assert_eq!(channel.peek(), None);
    assert!(matches!(channel.try_recv(), Received::Pending));
}

#[test]
fn channel_refuses_what_it_cannot_hold() {
    let mut channel = channel(2);
    assert_eq!(channel.try_send(1), Ok(()));
    assert!(channel.accepts());
    assert_eq!(channel.try_send(2), Ok(()));
    assert!(!channel.accepts());
    assert_eq!(channel.try_send(3), Err(3));
    assert_eq!(channel.len(), 2);
    assert_eq!(packet_of(channel.try_recv()), Some(1));
    assert_eq!(channel.try_send(3), Ok(()));
    assert_eq!(packet_of(channel.try_recv()), Some(2));
    assert_eq!(packet_of(channel.try_recv()), Some(3));
}

#[test]
fn channel_that_is_closed_drains_and_takes_nothing() {
    let mut channel = channel(4);
    assert_eq!(channel.try_send(1), Ok(()));
    channel.close();
    assert!(channel.is_closed());
    assert!(!channel.is_exhausted());
    assert!(!channel.accepts());
    assert_eq!(channel.try_send(2), Err(2));
    assert_eq!(packet_of(channel.try_recv()), Some(1));
    assert!(channel.is_exhausted());
    assert!(matches!(channel.try_recv(), Received::Exhausted));
    assert!(matches!(channel.try_recv(), Received::Exhausted));
}

#[test]
fn feed_step_moves_one_packet_or_waits_or_closes() {
    let mut source = PacketStream::immediate(vec![1, 2]);
    let mut egress = channel(1);
    assert_eq!(feed_step(&mut source, &mut egress), Step::Advanced);
    assert_eq!(feed_step(&mut source, &mut egress), Step::Suspended(Suspension::EgressFull));
    assert_eq!(source.len(), 1);
    assert_eq!(packet_of(egress.try_recv()), Some(1));
    assert_eq!(feed_step(&mut source, &mut egress), Step::Advanced);
    assert!(!egress.is_closed());
    assert_eq!(feed_step(&mut source, &mut egress), Step::Completed);
    assert!(egress.is_closed());
    assert_eq!(egress.len(), 1);
    assert_eq!(feed_step(&mut source, &mut egress), Step::Completed);
}

#[test]
fn collect_step_takes_one_packet_or_waits_or_ends() {
    let mut ingress = channel(2);
    let mut sink = vec![0];
    assert_eq!(collect_step(&mut ingress, &mut sink), Step::Suspended(Suspension::IngressEmpty));
    assert_eq!(ingress.try_send(1), Ok(()));
    assert_eq!(ingress.try_send(2), Ok(()));
    ingress.close();
    assert_eq!(collect_step(&mut ingress, &mut sink), Step::Advanced);
    assert_eq!(sink, vec![0, 1]);
    assert_eq!(collect_step(&mut ingress, &mut sink), Step::Advanced);
    assert_eq!(collect_step(&mut ingress, &mut sink), Step::Completed);
    assert_eq!(sink, vec![0, 1, 2]);
}

#[test]
fn clone_step_is_held_up_by_one_full_branch() {
    let mut ingress = channel(4);
    let mut egress = vec![channel(1), channel(2)];
    assert_eq!(clone_step(&mut ingress, &mut egress), Step::Suspended(Suspension::IngressEmpty));
    for packet in [7, 8, 9] {
        assert_eq!(ingress.try_send(packet), Ok(()));
    }
    assert_eq!(clone_step(&mut ingress, &mut egress), Step::Advanced);
    assert_eq!(egress[0].len(), 1);
    assert_eq!(egress[1].len(), 1);
    // Branch 0 is full: branch 1, which has room, gets nothing either.
    assert_eq!(clone_step(&mut ingress, &mut egress), Step::Suspended(Suspension::EgressFull));
    assert_eq!(ingress.len(), 2);
    assert_eq!(egress[1].len(), 1);
    assert_eq!(packet_of(egress[0].try_recv()), Some(7));
    assert_eq!(clone_step(&mut ingress, &mut egress), Step::Advanced);
    assert_eq!(packet_of(egress[0].try_recv()), Some(8));
    assert_eq!(egress[1].len(), 2);
    assert_eq!(clone_step(&mut ingress, &mut egress), Step::Suspended(Suspension::EgressFull));
    assert_eq!(packet_of(egress[1].try_recv()), Some(7));
    assert_eq!(clone_step(&mut ingress, &mut egress), Step::Advanced);
    assert_eq!(clone_step(&mut ingress, &mut egress), Step::Suspended(Suspension::IngressEmpty));
    ingress.close();
    assert_eq!(clone_step(&mut ingress, &mut egress), Step::Completed);
    assert!(egress[0].is_closed() && egress[1].is_closed());
    assert_eq!(packet_of(egress[0].try_recv()), Some(9));
    assert_eq!(packet_of(egress[1].try_recv()), Some(8));
    assert_eq!(packet_of(egress[1].try_recv()), Some(9));
    assert!(egress[0].is_exhausted() && egress[1].is_exhausted());
}

#[test]
fn close_all_closes_every_channel() {
    let mut egress: Vec<Channel<u8>> = channels(3, 2);
    assert_eq!(egress[1].try_send(1), Ok(()));
    close_all(&mut egress);
    assert!(egress.iter().all(|channel| channel.is_closed()));
    assert_eq!(egress[1].len(), 1);
}

#[test]
fn process_step_hands_one_packet_to_the_element() {
    let mut element = Dedup { last: None };
    let mut ingress = channel(5);
    let mut egress = channel(1);
    for packet in [4, 4, 5, 6] {
        assert_eq!(ingress.try_send(packet), Ok(()));
    }
    assert_eq!(process_step(&mut element, &mut ingress, &mut egress), Step::Advanced);
    assert_eq!(egress.len(), 1);
    // The egress is full: the packet that would be dropped waits as well.
    assert_eq!(
        process_step(&mut element, &mut ingress, &mut egress),
        Step::Suspended(Suspension::EgressFull)
    );
    assert_eq!(ingress.len(), 3);
    assert_eq!(packet_of(egress.try_recv()), Some(4));
    assert_eq!(process_step(&mut element, &mut ingress, &mut egress), Step::Advanced);
    assert_eq!(egress.len(), 0);
    assert_eq!(element.last, Some(4));
    assert_eq!(process_step(&mut element, &mut ingress, &mut egress), Step::Advanced);
    assert_eq!(packet_of(egress.try_recv()), Some(5));
    assert_eq!(process_step(&mut element, &mut ingress, &mut egress), Step::Advanced);
    assert_eq!(
        process_step(&mut element, &mut ingress, &mut egress),
        Step::Suspended(Suspension::IngressEmpty)
    );
    ingress.close();
    assert_eq!(process_step(&mut element, &mut ingress, &mut egress), Step::Completed);
    assert!(egress.is_closed());
    assert_eq!(packet_of(egress.try_recv()), Some(6));
    assert!(egress.is_exhausted());
}

#[test]
fn classify_step_waits_for_the_branch_of_the_packet_only() {
    let dispatcher = EvenOdd { odd: Some(1) };
    let mut ingress = channel(5);
    let mut egress = vec![channel(1), channel(1)];
    for packet in [2, 4, 1, 3] {
        assert_eq!(ingress.try_send(packet), Ok(()));
    }
    assert_eq!(classify_step(&Parity, &dispatcher, 0, &mut ingress, &mut egress), Ok(Step::Advanced));
    // Branch 0 is full and the next packet is for it; that branch 1 is empty
    // does not help.
    assert_eq!(
        classify_step(&Parity, &dispatcher, 1, &mut ingress, &mut egress),
        Ok(Step::Suspended(Suspension::EgressFull))
    );
    assert_eq!(packet_of(egress[0].try_recv()), Some(2));
    assert_eq!(classify_step(&Parity, &dispatcher, 1, &mut ingress, &mut egress), Ok(Step::Advanced));
    // Branch 0 is full again, but the next packet is for branch 1.
    assert_eq!(classify_step(&Parity, &dispatcher, 2, &mut ingress, &mut egress), Ok(Step::Advanced));
    assert_eq!(
        classify_step(&Parity, &dispatcher, 3, &mut ingress, &mut egress),
        Ok(Step::Suspended(Suspension::EgressFull))
    );
    assert_eq!(packet_of(egress[1].try_recv()), Some(1));
    assert_eq!(classify_step(&Parity, &dispatcher, 3, &mut ingress, &mut egress), Ok(Step::Advanced));
    assert_eq!(
        classify_step(&Parity, &dispatcher, 4, &mut ingress, &mut egress),
        Ok(Step::Suspended(Suspension::IngressEmpty))
    );
    ingress.close();
    assert_eq!(classify_step(&Parity, &dispatcher, 4, &mut ingress, &mut egress), Ok(Step::Completed));
    assert_eq!(packet_of(egress[0].try_recv()), Some(4));
    assert_eq!(packet_of(egress[1].try_recv()), Some(3));
    assert!(egress[0].is_exhausted() && egress[1].is_exhausted());
}

#[test]
fn classify_step_drops_without_a_trace() {
    let dispatcher = EvenOdd { odd: None };
    let mut ingress = channel(5);
    let mut egress = vec![channel(1), channel(1)];
    for packet in [1, 3, 2] {
        assert_eq!(ingress.try_send(packet), Ok(()));
    }
    assert_eq!(classify_step(&Parity, &dispatcher, 0, &mut ingress, &mut egress), Ok(Step::Advanced));
    assert_eq!(classify_step(&Parity, &dispatcher, 1, &mut ingress, &mut egress), Ok(Step::Advanced));
    assert!(egress[0].is_empty() && egress[1].is_empty());
    assert_eq!(classify_step(&Parity, &dispatcher, 2, &mut ingress, &mut egress), Ok(Step::Advanced));
    assert_eq!(egress[0].len(), 1);
    assert!(egress[1].is_empty());
}

#[test]
fn classify_step_stops_at_a_misrouted_packet() {
    let dispatcher = EvenOdd { odd: Some(2) };
    let mut ingress = channel(5);
    let mut egress = vec![channel(3), channel(3)];
    for packet in [2, 5, 4] {
        assert_eq!(ingress.try_send(packet), Ok(()));
    }
    assert_eq!(classify_step(&Parity, &dispatcher, 0, &mut ingress, &mut egress), Ok(Step::Advanced));
    let fault = DispatchIndexError { position: 1, index: 2, num_egressors: 2 };
    assert_eq!(classify_step(&Parity, &dispatcher, 1, &mut ingress, &mut egress), Err(fault));
    // The packet stays where it is, nothing more is routed, and those that
    // read the branches learn that they have seen all.
    assert_eq!(ingress.len(), 2);
    assert!(egress[0].is_closed() && egress[1].is_closed());
    assert_eq!(classify_step(&Parity, &dispatcher, 1, &mut ingress, &mut egress), Err(fault));
    assert_eq!(packet_of(egress[0].try_recv()), Some(2));
    assert!(egress[0].is_exhausted() && egress[1].is_exhausted());
}

#[test]
fn join_step_serves_the_lines_in_turn() {
    let mut cursor = 0;
    let mut ingress = channels(3, 4);
    let mut egress = channel(10);
    for packet in [1, 2, 3] {
        assert_eq!(ingress[0].try_send(packet), Ok(()));
    }
    assert_eq!(ingress[2].try_send(30), Ok(()));
    assert_eq!(join_step(&mut cursor, &mut ingress, &mut egress), Step::Advanced);
    assert_eq!(cursor, 1);
    assert_eq!(join_step(&mut cursor, &mut ingress, &mut egress), Step::Advanced);
    assert_eq!(cursor, 0);
    // Line 1 gets a packet while it is the turn of line 0.
    assert_eq!(ingress[1].try_send(20), Ok(()));
    assert_eq!(join_step(&mut cursor, &mut ingress, &mut egress), Step::Advanced);
    assert_eq!(join_step(&mut cursor, &mut ingress, &mut egress), Step::Advanced);
    assert_eq!(cursor, 2);
    assert_eq!(join_step(&mut cursor, &mut ingress, &mut egress), Step::Advanced);
    assert_eq!(cursor, 1);
    assert_eq!(
        join_step(&mut cursor, &mut ingress, &mut egress),
        Step::Suspended(Suspension::IngressEmpty)
    );
    let mut sink = Vec::new();
    while collect_step(&mut egress, &mut sink) == Step::Advanced {}
    assert_eq!(sink, vec![1, 30, 2, 20, 3]);
}

#[test]
fn join_step_waits_for_room_and_for_every_line_to_close() {
    let mut cursor = 7;
    let mut ingress = channels(2, 2);
    let mut egress = channel(1);
    assert_eq!(ingress[1].try_send(5), Ok(()));
    assert_eq!(ingress[1].try_send(6), Ok(()));
    assert_eq!(join_step(&mut cursor, &mut ingress, &mut egress), Step::Advanced);
    assert_eq!(cursor, 0);
    assert_eq!(
        join_step(&mut cursor, &mut ingress, &mut egress),
        Step::Suspended(Suspension::EgressFull)
    );
    assert_eq!(cursor, 0);
    assert_eq!(packet_of(egress.try_recv()), Some(5));
    ingress[1].close();
    assert_eq!(join_step(&mut cursor, &mut ingress, &mut egress), Step::Advanced);
    // Line 1 is exhausted, line 0 is not: the join goes on.
    assert_eq!(
        join_step(&mut cursor, &mut ingress, &mut egress),
        Step::Suspended(Suspension::IngressEmpty)
    );
    assert!(!egress.is_closed());
    ingress[0].close();
    assert_eq!(join_step(&mut cursor, &mut ingress, &mut egress), Step::Completed);
    assert!(egress.is_closed());
    assert_eq!(packet_of(egress.try_recv()), Some(6));
    assert!(egress.is_exhausted());
}

#[test]
fn join_step_of_no_line_is_complete() {
    let mut cursor = 0;
    let mut ingress: Vec<Channel<u8>> = Vec::new();
    let mut egress = channel(1);
    assert_eq!(join_step(&mut cursor, &mut ingress, &mut egress), Step::Completed);
    assert!(egress.is_closed());
}

/// Drives the tasks of a join, a process and a clone stage in a row, one
/// step of each in turn, until all of them are complete, with queues of the
/// given capacity everywhere. Returns what each branch has yielded.
fn run_composite(
    lines: Vec<Vec<usize>>,
    mut element: Dedup,
    num_egressors: usize,
    capacity: usize,
) -> Vec<Vec<usize>> {
    let mut sources: Vec<PacketStream<usize>> =
        lines.into_iter().map(PacketStream::immediate).collect();
    let mut line_queues: Vec<Channel<usize>> = channels(sources.len(), capacity);
    let mut cursor = 0;
    let mut merged = channel(capacity);
    let mut transformed = channel(capacity);
    let mut branches: Vec<Channel<usize>> = channels(num_egressors, capacity);
    let mut sinks: Vec<Vec<usize>> = vec![Vec::new(); num_egressors];
    let mut rounds = 0;
    loop {
        let mut complete = true;
        for (source, queue) in sources.iter_mut().zip(line_queues.iter_mut()) {
            complete &= feed_step(source, queue) == Step::Completed;
            assert!(queue.len() <= capacity);
        }
        complete &= join_step(&mut cursor, &mut line_queues, &mut merged) == Step::Completed;
        complete &= process_step(&mut element, &mut merged, &mut transformed) == Step::Completed;
        complete &= clone_step(&mut transformed, &mut branches) == Step::Completed;
        for (branch, sink) in branches.iter_mut().zip(sinks.iter_mut()) {
            assert!(branch.len() <= capacity);
            complete &= collect_step(branch, sink) == Step::Completed;
        }
        assert!(merged.len() <= capacity && transformed.len() <= capacity);
        if complete {
            return sinks;
        }
        rounds += 1;
        assert!(rounds < 100_000, "the pipeline does not end");
    }
}

#[test]
fn stepped_pipeline_yields_what_each_line_sent_whatever_the_capacity() {
    let lines = vec![vec![1, 1, 2, 3, 3, 3, 4], vec![10, 10, 20], vec![], vec![1, 2]];
    for capacity in [1usize, 2, 3, 10, 1000] {
        for num_egressors in 1..4usize {
            let branches =
                run_composite(lines.clone(), Dedup { last: None }, num_egressors, capacity);
            assert_eq!(branches.len(), num_egressors);
            for branch in &branches {
                assert_eq!(*branch, branches[0]);
            }
        }
    }
}

#[test]
fn stepped_pipeline_of_ready_lines_yields_what_the_links_yield() {
    // With room for a packet of every line at every step, the tasks serve
    // the lines as the links do: in rounds.
    let lines = vec![vec![1, 2, 3, 4, 5], vec![10, 20], vec![30, 40, 50]];
    let merged = merge(lines.iter().cloned().map(PacketStream::immediate).collect());
    let expected = process_all(&mut Dedup { last: None }, PacketStream::immediate(merged));
    for num_egressors in 1..4usize {
        let (_, egressors) = CloneLink::new()
            .ingressor(PacketStream::immediate(expected.clone()))
            .num_egressors(num_egressors)
            .build_link()
            .unwrap();
        let wanted: Vec<Vec<usize>> = egressors.into_iter().map(|e| e.collect()).collect();
        let branches = run_composite(lines.clone(), Dedup { last: None }, num_egressors, 1000);
        assert_eq!(branches, wanted);
        assert_eq!(branches[0], vec![1, 10, 30, 2, 20, 40, 3, 50, 4, 5]);
    }
}

#[test]
fn stepped_classify_yields_what_the_link_yields() {
    let input: Vec<usize> = (0..50).map(|i| (i * 7 + 3) % 23).collect();
    let (_, egressors) = ClassifyLink::new()
        .ingressor(PacketStream::immediate(input.clone()))
        .classifier(Parity)
        .dispatcher(EvenOdd { odd: Some(1) })
        .num_egressors(2)
        .build_link()
        .unwrap();
    let wanted: Vec<Vec<usize>> = egressors.into_iter().map(|e| e.collect()).collect();
    for capacity in [1usize, 4, 1000] {
        let mut source = PacketStream::immediate(input.clone());
        let mut ingress = channel(capacity);
        let mut egress = channels(2, capacity);
        let mut sinks: Vec<Vec<usize>> = vec![Vec::new(); 2];
        let mut position = 0;
        loop {
            let mut complete = feed_step(&mut source, &mut ingress) == Step::Completed;
            match classify_step(&Parity, &EvenOdd { odd: Some(1) }, position, &mut ingress, &mut egress)
            {
                Ok(Step::Advanced) => {
                    position += 1;
                    complete = false;
                },
                Ok(Step::Completed) => {},
                Ok(Step::Suspended(_)) => complete = false,
                Err(fault) => panic!("misrouted: {:?}", fault),
            }
            for (branch, sink) in egress.iter_mut().zip(sinks.iter_mut()) {
                complete &= collect_step(branch, sink) == Step::Completed;
            }
            if complete {
                break;
            }
        }
        assert_eq!(position, input.len());
        assert_eq!(sinks, wanted);
    }
}

#[test]
fn stepped_identity_moves_every_packet() {
    let mut element = Identity::new();
    let mut source = PacketStream::immediate(vec![9, 8, 7]);
    let mut ingress = channel(1);
    let mut egress = channel(1);
    let mut sink = Vec::new();
    loop {
        let fed = feed_step(&mut source, &mut ingress);
        let moved = process_step(&mut element, &mut ingress, &mut egress);
        let taken = collect_step(&mut egress, &mut sink);
        if fed == Step::Completed && moved == Step::Completed && taken == Step::Completed {
            break;
        }
    }
    assert_eq!(sink, vec![9, 8, 7]);
}
