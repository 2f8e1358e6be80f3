use route_rs_runtime::composite::MtransformNComposite;
use route_rs_runtime::element::{Element, Identity};
use route_rs_runtime::error::{ConfigurationError, Slot};
use route_rs_runtime::link::packet_stream::PacketStream;
use route_rs_runtime::link::runnable::Runnable;

fn two_lines(packets: &Vec<usize>) -> Vec<PacketStream<usize>> {
    let mut input_streams: Vec<PacketStream<usize>> = Vec::new();
    input_streams.push(PacketStream::immediate(packets.clone()));
    input_streams.push(PacketStream::immediate(packets.clone()));
    input_streams
}

fn lines(count: usize) -> Vec<PacketStream<usize>> {
    let mut input_streams: Vec<PacketStream<usize>> = Vec::new();
    for line in 0..count {
        input_streams.push(PacketStream::immediate(vec![line]));
    }
    input_streams
}

/// Forwards the running sum of the packets it has seen, and drops a packet
/// that is zero.
struct RunningSum {
    sum: usize,
}

impl Element for RunningSum {
    type Input = usize;
    type Output = usize;

    fn forwarded(&self, _packet: usize) -> Option<usize> {
        unreachable!()
    }

    fn next_state(&self, _packet: usize) -> Self {
        unreachable!()
    }

    fn process(&mut self, packet: usize) -> Option<usize> {
        if packet == 0 {
            None
        } else {
            self.sum += packet;
            Some(self.sum)
        }
    }
}

#[test]
#[allow(non_snake_case)]
fn MtransformN_Composite() {
    let packets = vec![0, 1, 2, 420, 1337, 3, 4, 5, 6, 7, 8, 9, 11];
    let number_num_egressors = 2;
    let packet_generator0 = PacketStream::immediate(packets.clone());
    let packet_generator1 = PacketStream::immediate(packets.clone());

    let mut input_streams: Vec<PacketStream<usize>> = Vec::new();
    input_streams.push(packet_generator0);
    input_streams.push(packet_generator1);

    let (_runnables, mut egressors) = MtransformNComposite::new()
        .num_egressors(number_num_egressors)
        .ingressors(input_streams)
        .element(Identity::new())
        .build_link()
        .unwrap();

    let output1: Vec<_> = egressors.pop().unwrap().collect();
    let output0: Vec<_> = egressors.pop().unwrap().collect();

    assert_eq!(output0.len(), packets.len() * 2);
    assert_eq!(output1.len(), packets.len() * 2);
}

#[test]
fn composite_identity_keeps_every_packet_of_both_lines() {
    for k in [0usize, 1, 2, 7, 50] {
        let packets: Vec<usize> = (0..k).collect();
        let (_, egressors) = MtransformNComposite::new()
            .ingressors(two_lines(&packets))
            .element(Identity::new())
            .num_egressors(2)
            .build_link()
            .unwrap();
        assert_eq!(egressors.len(), 2);
        for egressor in egressors {
            let output = egressor.collect();
            assert_eq!(output.len(), 2 * k);
            // The lines are served in turn, so every packet comes twice in a row.
            let mut expected = Vec::new();
            for packet in 0..k {
                expected.push(packet);
                expected.push(packet);
            }
            assert_eq!(output, expected);
        }
    }
}

#[test]
fn composite_keeps_the_order_of_each_line() {
    let mut input_streams: Vec<PacketStream<usize>> = Vec::new();
    input_streams.push(PacketStream::immediate(vec![1, 2, 3, 4, 5]));
    input_streams.push(PacketStream::immediate(vec![101, 102]));
    input_streams.push(PacketStream::immediate(vec![201, 202, 203]));
    let (_, mut egressors) = MtransformNComposite::new()
        .ingressors(input_streams)
        .element(Identity::new())
        .num_egressors(1)
        .build_link()
        .unwrap();
    let output = egressors.pop().unwrap().collect();
    assert_eq!(output, vec![1, 101, 201, 2, 102, 202, 3, 203, 4, 5]);
    let line0: Vec<usize> = output.iter().copied().filter(|p| *p < 100).collect();
    let line1: Vec<usize> = output.iter().copied().filter(|p| 100 < *p && *p < 200).collect();
    let line2: Vec<usize> = output.iter().copied().filter(|p| 200 < *p).collect();
    assert_eq!(line0, vec![1, 2, 3, 4, 5]);
    assert_eq!(line1, vec![101, 102]);
    assert_eq!(line2, vec![201, 202, 203]);
}

#[test]
fn composite_hands_every_merged_packet_to_one_element() {
    let mut input_streams: Vec<PacketStream<usize>> = Vec::new();
    input_streams.push(PacketStream::immediate(vec![1, 0, 3]));
    input_streams.push(PacketStream::immediate(vec![10, 20]));
    let (_, egressors) = MtransformNComposite::new()
        .element(RunningSum { sum: 0 })
        .ingressors(input_streams)
        .num_egressors(3)
        .build_link()
        .unwrap();
    // Merged: 1, 10, 0, 20, 3; the zero is dropped.
    assert_eq!(egressors.len(), 3);
    for egressor in egressors {
        assert_eq!(egressor.collect(), vec![1, 11, 31, 34]);
    }
}

#[test]
fn composite_lists_the_tasks_of_its_stages() {
    let (runnables, _) = MtransformNComposite::new()
        .ingressors(lines(3))
        .element(Identity::new())
        .num_egressors(2)
        .build_link()
        .unwrap();
    assert_eq!(
        runnables,
        vec![
            Runnable::CloneIngressor { num_egressors: 2, queue_capacity: 10 },
            Runnable::JoinIngressor { line: 0, queue_capacity: 10 },
            Runnable::JoinIngressor { line: 1, queue_capacity: 10 },
            Runnable::JoinIngressor { line: 2, queue_capacity: 10 },
        ]
    );
}

#[test]
fn composite_queue_capacities_reach_their_stages() {
    let (runnables, _) = MtransformNComposite::new()
        .join_queue_capacity(1)
        .clone_queue_capacity(1000)
        .ingressors(lines(2))
        .element(Identity::new())
        .num_egressors(1)
        .build_link()
        .unwrap();
    assert_eq!(
        runnables,
        vec![
            Runnable::CloneIngressor { num_egressors: 1, queue_capacity: 1000 },
            Runnable::JoinIngressor { line: 0, queue_capacity: 1 },
            Runnable::JoinIngressor { line: 1, queue_capacity: 1 },
        ]
    );
}

#[test]
fn composite_slots_may_be_filled_in_any_order() {
    let packets = vec![4, 5, 6];
    let first = MtransformNComposite::new()
        .ingressors(two_lines(&packets))
        .element(Identity::new())
        .num_egressors(2)
        .clone_queue_capacity(3)
        .join_queue_capacity(4)
        .build_link()
        .unwrap();
    let second = MtransformNComposite::new()
        .join_queue_capacity(4)
        .num_egressors(2)
        .clone_queue_capacity(3)
        .element(Identity::new())
        .ingressors(two_lines(&packets))
        .build_link()
        .unwrap();
    assert_eq!(first.0, second.0);
    let first: Vec<Vec<usize>> = first.1.into_iter().map(|s| s.collect()).collect();
    let second: Vec<Vec<usize>> = second.1.into_iter().map(|s| s.collect()).collect();
    assert_eq!(first, second);
}

fn error_of(builder: MtransformNComposite<Identity<usize>>) -> ConfigurationError {
    match builder.build_link() {
        Ok(_) => panic!("the link was built"),
        Err(error) => error,
    }
}

#[test]
fn composite_without_ingressors_is_not_built() {
    let builder = MtransformNComposite::new().element(Identity::new()).num_egressors(2);
    assert_eq!(error_of(builder), ConfigurationError::Missing(Slot::Ingressors));
}

#[test]
fn composite_without_element_is_not_built() {
    let builder = MtransformNComposite::new().ingressors(lines(2)).num_egressors(2);
    assert_eq!(error_of(builder), ConfigurationError::Missing(Slot::Element));
}

#[test]
fn composite_without_num_egressors_is_not_built() {
    let builder = MtransformNComposite::new().ingressors(lines(2)).element(Identity::new());
    assert_eq!(error_of(builder), ConfigurationError::Missing(Slot::NumEgressors));
}

#[test]
fn composite_with_nothing_set_reports_the_ingressors() {
    assert_eq!(
        error_of(MtransformNComposite::new()),
        ConfigurationError::Missing(Slot::Ingressors)
    );
}

#[test]
fn composite_missing_slots_are_three_different_errors() {
    let a = error_of(MtransformNComposite::new().element(Identity::new()).num_egressors(2));
    let b = error_of(MtransformNComposite::new().ingressors(lines(2)).num_egressors(2));
    let c = error_of(MtransformNComposite::new().ingressors(lines(2)).element(Identity::new()));
    assert_ne!(a, b);
    assert_ne!(a, c);
    assert_ne!(b, c);
}

#[test]
fn composite_ingressor_count_has_to_be_in_range() {
    for count in [0usize, 1, 1001] {
        let builder = MtransformNComposite::new()
            .ingressors(lines(count))
            .element(Identity::new())
            .num_egressors(2);
        assert_eq!(
            error_of(builder),
            ConfigurationError::OutOfRange { slot: Slot::Ingressors, value: count }
        );
    }
    for count in [2usize, 1000] {
        let link = MtransformNComposite::new()
            .ingressors(lines(count))
            .element(Identity::new())
            .num_egressors(1)
            .build_link();
        let (runnables, mut egressors) = link.unwrap();
        assert_eq!(runnables.len(), count + 1);
        assert_eq!(egressors.pop().unwrap().collect(), (0..count).collect::<Vec<usize>>());
    }
}

#[test]
fn composite_num_egressors_has_to_be_in_range() {
    for count in [0usize, 1001, usize::MAX] {
        let builder = MtransformNComposite::new()
            .ingressors(lines(2))
            .element(Identity::new())
            .num_egressors(count);
        assert_eq!(
            error_of(builder),
            ConfigurationError::OutOfRange { slot: Slot::NumEgressors, value: count }
        );
    }
    for count in [1usize, 1000] {
        let link = MtransformNComposite::new()
            .ingressors(lines(2))
            .element(Identity::new())
            .num_egressors(count)
            .build_link();
        let (_, egressors) = link.unwrap();
        assert_eq!(egressors.len(), count);
    }
}

#[test]
fn composite_queue_capacities_have_to_be_in_range() {
    for capacity in [0usize, 1001] {
        let builder = MtransformNComposite::new()
            .ingressors(lines(2))
            .element(Identity::new())
            .num_egressors(2)
            .join_queue_capacity(capacity);
        assert_eq!(
            error_of(builder),
            ConfigurationError::OutOfRange { slot: Slot::JoinQueueCapacity, value: capacity }
        );
        let builder = MtransformNComposite::new()
            .ingressors(lines(2))
            .element(Identity::new())
            .num_egressors(2)
            .clone_queue_capacity(capacity);
        assert_eq!(
            error_of(builder),
            ConfigurationError::OutOfRange { slot: Slot::CloneQueueCapacity, value: capacity }
        );
    }
    for capacity in [1usize, 10, 1000] {
        let link = MtransformNComposite::new()
            .ingressors(lines(2))
            .element(Identity::new())
            .num_egressors(2)
            .join_queue_capacity(capacity)
            .clone_queue_capacity(capacity)
            .build_link();
        assert!(link.is_ok());
    }
}

#[test]
fn composite_slot_set_twice_is_not_built() {
    let full = || {
        MtransformNComposite::new()
            .ingressors(lines(2))
            .element(Identity::new())
            .num_egressors(2)
            .join_queue_capacity(5)
            .clone_queue_capacity(6)
    };
    assert!(full().build_link().is_ok());
    assert_eq!(
        error_of(full().ingressors(lines(2))),
        ConfigurationError::SetTwice(Slot::Ingressors)
    );
    assert_eq!(
        error_of(full().element(Identity::new())),
        ConfigurationError::SetTwice(Slot::Element)
    );
    assert_eq!(error_of(full().num_egressors(2)), ConfigurationError::SetTwice(Slot::NumEgressors));
    assert_eq!(
        error_of(full().join_queue_capacity(5)),
        ConfigurationError::SetTwice(Slot::JoinQueueCapacity)
    );
    assert_eq!(
        error_of(full().clone_queue_capacity(6)),
        ConfigurationError::SetTwice(Slot::CloneQueueCapacity)
    );
}

#[test]
fn composite_reports_its_first_misuse() {
    let builder = MtransformNComposite::new()
        .num_egressors(0)
        .num_egressors(2)
        .join_queue_capacity(2000)
        .ingressors(lines(2))
        .element(Identity::new());
    assert_eq!(
        error_of(builder),
        ConfigurationError::OutOfRange { slot: Slot::NumEgressors, value: 0 }
    );
    // A misuse is reported before a slot that is still unset.
    let builder = MtransformNComposite::new().clone_queue_capacity(0);
    assert_eq!(
        error_of(builder),
        ConfigurationError::OutOfRange { slot: Slot::CloneQueueCapacity, value: 0 }
    );
}
