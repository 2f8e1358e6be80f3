use route_rs_runtime::element::{Classifier, Dispatcher, Identity};
use route_rs_runtime::error::{
    ConfigurationError, Slot, DEFAULT_QUEUE_CAPACITY, MAX_QUEUE_CAPACITY, MAX_STREAMS,
    MIN_QUEUE_CAPACITY,
};
use route_rs_runtime::link::classify_link::ClassifyLink;
use route_rs_runtime::link::clone_link::CloneLink;
use route_rs_runtime::link::join_link::JoinLink;
use route_rs_runtime::link::packet_stream::PacketStream;
use route_rs_runtime::link::process_link::ProcessLink;
use route_rs_runtime::link::runnable::{Link, Runnable};

struct Whole;

impl Classifier for Whole {
    type Packet = usize;
    type Class = usize;

    fn class_of(&self, _packet: usize) -> usize {
        unreachable!()
    }

    fn classify(&self, packet: &usize) -> usize {
        *packet
    }
}

struct Nowhere;

impl Dispatcher for Nowhere {
    type Class = usize;

    fn branch_of(&self, _class: usize) -> Option<usize> {
        unreachable!()
    }

    fn dispatch(&self, _class: usize) -> Option<usize> {
        None
    }
}

fn stream() -> PacketStream<usize> {
    PacketStream::immediate(vec![1, 2, 3])
}

fn streams(count: usize) -> Vec<PacketStream<usize>> {
    (0..count).map(|_| stream()).collect()
}

fn error_of<T>(link: Result<Link<T>, ConfigurationError>) -> ConfigurationError {
    match link {
        Ok(_) => panic!("the link was built"),
        Err(error) => error,
    }
}

#[test]
fn the_limits_are_those_of_the_queues() {
    assert_eq!(MIN_QUEUE_CAPACITY, 1);
    assert_eq!(MAX_QUEUE_CAPACITY, 1000);
    assert_eq!(DEFAULT_QUEUE_CAPACITY, 10);
    assert_eq!(MAX_STREAMS, 1000);
}

#[test]
fn process_link_needs_its_ingress_and_its_element() {
    assert_eq!(
        error_of(ProcessLink::<Identity<usize>>::new().build_link()),
        ConfigurationError::Missing(Slot::Ingressors)
    );
    assert_eq!(
        error_of(ProcessLink::new().element(Identity::<usize>::new()).build_link()),
        ConfigurationError::Missing(Slot::Ingressors)
    );
    assert_eq!(
        error_of(ProcessLink::<Identity<usize>>::new().ingressor(stream()).build_link()),
        ConfigurationError::Missing(Slot::Element)
    );
}

#[test]
fn process_link_takes_each_slot_once() {
    assert_eq!(
        error_of(
            ProcessLink::new()
                .ingressor(stream())
                .element(Identity::new())
                .ingressor(stream())
                .build_link()
        ),
        ConfigurationError::SetTwice(Slot::Ingressors)
    );
    assert_eq!(
        error_of(
            ProcessLink::new()
                .ingressors(streams(1))
                .element(Identity::new())
                .ingressor(stream())
                .build_link()
        ),
        ConfigurationError::SetTwice(Slot::Ingressors)
    );
    assert_eq!(
        error_of(
            ProcessLink::new()
                .element(Identity::new())
                .element(Identity::new())
                .ingressor(stream())
                .build_link()
        ),
        ConfigurationError::SetTwice(Slot::Element)
    );
}

#[test]
fn process_link_takes_one_ingress_stream() {
    for count in [0usize, 2, 5] {
        assert_eq!(
            error_of(
                ProcessLink::new().ingressors(streams(count)).element(Identity::new()).build_link()
            ),
            ConfigurationError::OutOfRange { slot: Slot::Ingressors, value: count }
        );
    }
}

#[test]
fn join_link_needs_its_lines() {
    assert_eq!(
        error_of(JoinLink::<usize>::new().build_link()),
        ConfigurationError::Missing(Slot::Ingressors)
    );
    assert_eq!(
        error_of(JoinLink::<usize>::new().queue_capacity(5).build_link()),
        ConfigurationError::Missing(Slot::Ingressors)
    );
}

#[test]
fn join_link_takes_one_to_a_thousand_lines() {
    for count in [0usize, 1001, 1500] {
        assert_eq!(
            error_of(JoinLink::new().ingressors(streams(count)).build_link()),
            ConfigurationError::OutOfRange { slot: Slot::Ingressors, value: count }
        );
    }
    for count in [1usize, 2, 1000] {
        let (runnables, mut egressors) =
            JoinLink::new().ingressors(streams(count)).build_link().unwrap();
        assert_eq!(runnables.len(), count);
        assert_eq!(runnables[count - 1], Runnable::JoinIngressor {
            line: count - 1,
            queue_capacity: 10,
        });
        assert_eq!(egressors.pop().unwrap().len(), 3 * count);
    }
}

#[test]
fn join_link_queue_capacity_has_to_be_in_range() {
    for capacity in [0usize, 1001, usize::MAX] {
        assert_eq!(
            error_of(JoinLink::new().ingressors(streams(2)).queue_capacity(capacity).build_link()),
            ConfigurationError::OutOfRange { slot: Slot::QueueCapacity, value: capacity }
        );
    }
    for capacity in [1usize, 10, 1000] {
        let (runnables, _) =
            JoinLink::new().queue_capacity(capacity).ingressors(streams(2)).build_link().unwrap();
        assert_eq!(runnables[0], Runnable::JoinIngressor { line: 0, queue_capacity: capacity });
    }
}

#[test]
fn join_link_takes_each_slot_once() {
    assert_eq!(
        error_of(JoinLink::new().ingressors(streams(2)).ingressors(streams(2)).build_link()),
        ConfigurationError::SetTwice(Slot::Ingressors)
    );
    assert_eq!(
        error_of(
            JoinLink::new().queue_capacity(4).ingressors(streams(2)).queue_capacity(4).build_link()
        ),
        ConfigurationError::SetTwice(Slot::QueueCapacity)
    );
}

#[test]
fn clone_link_needs_its_ingress_and_its_number_of_egressors() {
    assert_eq!(
        error_of(CloneLink::<usize>::new().num_egressors(2).build_link()),
        ConfigurationError::Missing(Slot::Ingressors)
    );
    assert_eq!(
        error_of(CloneLink::new().ingressor(stream()).build_link()),
        ConfigurationError::Missing(Slot::NumEgressors)
    );
}

#[test]
fn clone_link_refuses_no_egressor_and_a_capacity_out_of_range() {
    assert_eq!(
        error_of(CloneLink::new().ingressor(stream()).num_egressors(0).build_link()),
        ConfigurationError::OutOfRange { slot: Slot::NumEgressors, value: 0 }
    );
    for capacity in [0usize, 1001] {
        assert_eq!(
            error_of(
                CloneLink::new()
                    .ingressor(stream())
                    .num_egressors(2)
                    .queue_capacity(capacity)
                    .build_link()
            ),
            ConfigurationError::OutOfRange { slot: Slot::QueueCapacity, value: capacity }
        );
    }
    for capacity in [1usize, 1000] {
        let (runnables, egressors) = CloneLink::new()
            .ingressor(stream())
            .num_egressors(3)
            .queue_capacity(capacity)
            .build_link()
            .unwrap();
        assert_eq!(
            runnables,
            vec![Runnable::CloneIngressor { num_egressors: 3, queue_capacity: capacity }]
        );
        assert_eq!(egressors.len(), 3);
    }
}

#[test]
fn clone_link_takes_each_slot_once() {
    assert_eq!(
        error_of(
            CloneLink::new().ingressor(stream()).num_egressors(2).ingressor(stream()).build_link()
        ),
        ConfigurationError::SetTwice(Slot::Ingressors)
    );
    assert_eq!(
        error_of(
            CloneLink::new().ingressor(stream()).num_egressors(2).num_egressors(2).build_link()
        ),
        ConfigurationError::SetTwice(Slot::NumEgressors)
    );
    assert_eq!(
        error_of(
            CloneLink::new()
                .queue_capacity(3)
                .queue_capacity(3)
                .ingressor(stream())
                .num_egressors(2)
                .build_link()
        ),
        ConfigurationError::SetTwice(Slot::QueueCapacity)
    );
    assert_eq!(
        error_of(CloneLink::new().ingressors(streams(2)).num_egressors(2).build_link()),
        ConfigurationError::OutOfRange { slot: Slot::Ingressors, value: 2 }
    );
}

#[test]
fn classify_link_needs_every_slot() {
    let full = || {
        ClassifyLink::new()
            .ingressor(stream())
            .classifier(Whole)
            .dispatcher(Nowhere)
            .num_egressors(2)
    };
    assert!(full().build_link().is_ok());
    assert_eq!(
        error_of(
            ClassifyLink::new().classifier(Whole).dispatcher(Nowhere).num_egressors(2).build_link()
        ),
        ConfigurationError::Missing(Slot::Ingressors)
    );
    assert_eq!(
        error_of(
            ClassifyLink::<Whole, Nowhere>::new()
                .ingressor(stream())
                .dispatcher(Nowhere)
                .num_egressors(2)
                .build_link()
        ),
        ConfigurationError::Missing(Slot::Classifier)
    );
    assert_eq!(
        error_of(
            ClassifyLink::<Whole, Nowhere>::new()
                .ingressor(stream())
                .classifier(Whole)
                .num_egressors(2)
                .build_link()
        ),
        ConfigurationError::Missing(Slot::Dispatcher)
    );
    assert_eq!(
        error_of(
            ClassifyLink::new().ingressor(stream()).classifier(Whole).dispatcher(Nowhere).build_link()
        ),
        ConfigurationError::Missing(Slot::NumEgressors)
    );
}

#[test]
fn classify_link_takes_each_slot_once_and_a_branch_at_least() {
    let full = || {
        ClassifyLink::new()
            .ingressor(stream())
            .classifier(Whole)
            .dispatcher(Nowhere)
            .num_egressors(2)
    };
    assert_eq!(
        error_of(full().ingressor(stream()).build_link()),
        ConfigurationError::SetTwice(Slot::Ingressors)
    );
    assert_eq!(
        error_of(full().classifier(Whole).build_link()),
        ConfigurationError::SetTwice(Slot::Classifier)
    );
    assert_eq!(
        error_of(full().dispatcher(Nowhere).build_link()),
        ConfigurationError::SetTwice(Slot::Dispatcher)
    );
    assert_eq!(
        error_of(full().num_egressors(3).build_link()),
        ConfigurationError::SetTwice(Slot::NumEgressors)
    );
    assert_eq!(
        error_of(
            ClassifyLink::new()
                .ingressor(stream())
                .classifier(Whole)
                .dispatcher(Nowhere)
                .num_egressors(0)
                .build_link()
        ),
        ConfigurationError::OutOfRange { slot: Slot::NumEgressors, value: 0 }
    );
    assert_eq!(
        error_of(
            ClassifyLink::new()
                .ingressors(streams(3))
                .classifier(Whole)
                .dispatcher(Nowhere)
                .num_egressors(1)
                .build_link()
        ),
        ConfigurationError::OutOfRange { slot: Slot::Ingressors, value: 3 }
    );
}

#[test]
fn a_misused_builder_keeps_its_first_misuse() {
    // The capacity is refused first; what follows does not change that.
    assert_eq!(
        error_of(
            JoinLink::new()
                .queue_capacity(0)
                .ingressors(streams(0))
                .queue_capacity(5)
                .ingressors(streams(2))
                .build_link()
        ),
        ConfigurationError::OutOfRange { slot: Slot::QueueCapacity, value: 0 }
    );
    assert_eq!(
        error_of(
            CloneLink::new()
                .num_egressors(0)
                .ingressor(stream())
                .num_egressors(2)
                .build_link()
        ),
        ConfigurationError::OutOfRange { slot: Slot::NumEgressors, value: 0 }
    );
}
