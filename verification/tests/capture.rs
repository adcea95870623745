use rustygoblin::capture::{
    record_frame, watch_frame, AdmissionFilter, EtherType, Frame, FrameOutcome, Ipv4Address,
    LinkHeader, MacAddr, NetworkHeader, Payload, PulseTimer, ETHERTYPE_IPV4,
};
use rustygoblin::hcor::calc_hash;
use rustygoblin::queue::{BoundedQueue, QUEUE_CAPACITY};

const LOCAL: Ipv4Address = Ipv4Address(172, 21, 0, 24);
const PEER: Ipv4Address = Ipv4Address(10, 0, 0, 1);
const OTHER: Ipv4Address = Ipv4Address(10, 0, 0, 2);

fn link(kind: u16) -> LinkHeader {
    LinkHeader {
        source: MacAddr(0x12, 0x34, 0x56, 0x78, 0x9a, 0xbc),
        destination: MacAddr(0xde, 0xf0, 0x12, 0x34, 0x45, 0x67),
        kind: EtherType(kind),
    }
}

fn frame(kind: u16, from: Ipv4Address, to: Ipv4Address, bytes: &[u8]) -> Frame<'_> {
    Frame {
        link: Some(link(kind)),
        network: Some(NetworkHeader { source: from, destination: to }),
        bytes,
    }
}

#[test]
fn the_filter_admits_ipv4_between_other_hosts() {
    let filter = AdmissionFilter::new(LOCAL);
    assert!(filter.check(&frame(0x0800, PEER, OTHER, b"x")));
}

#[test]
fn the_filter_leaves_out_other_type_tags() {
    let filter = AdmissionFilter::new(LOCAL);
    assert!(!filter.check(&frame(0x0806, PEER, OTHER, b"x")));
    assert!(!filter.check(&frame(0x86dd, PEER, OTHER, b"x")));
    assert_eq!(ETHERTYPE_IPV4, 0x0800);
}

#[test]
fn the_filter_leaves_out_traffic_of_the_local_address() {
    let filter = AdmissionFilter::new(LOCAL);
    assert!(!filter.check(&frame(0x0800, LOCAL, OTHER, b"x")));
    assert!(!filter.check(&frame(0x0800, PEER, LOCAL, b"x")));
    assert!(!filter.check(&frame(0x0800, LOCAL, LOCAL, b"x")));
    assert!(filter.check(&frame(0x0800, Ipv4Address(172, 21, 0, 25), OTHER, b"x")));
}

#[test]
fn an_admitted_frame_puts_its_fingerprint_on_the_queue() {
    let filter = AdmissionFilter::new(LOCAL);
    let mut queue = BoundedQueue::new(QUEUE_CAPACITY);
    let seen = frame(0x0800, PEER, OTHER, b"abcdefghijklmnopqrstuvwxyz");
    let digest = calc_hash(b"abcdefghijklmnopqrstuvwxyz");
    assert_eq!(watch_frame(&filter, &seen, &mut queue), FrameOutcome::Queued(digest));
    assert_eq!(queue.len(), 1);
    assert_eq!(
        queue.try_recv(),
        Some(Payload::Packet {
            source: MacAddr(0x12, 0x34, 0x56, 0x78, 0x9a, 0xbc),
            destination: MacAddr(0xde, 0xf0, 0x12, 0x34, 0x45, 0x67),
            kind: EtherType(0x0800),
            packet: [
                0xc3, 0xfc, 0xd3, 0xd7, 0x61, 0x92, 0xe4, 0x00, 0x7d, 0xfb, 0x49, 0x6c, 0xca,
                0x67, 0xe1, 0x3b
            ],
        })
    );
}

#[test]
fn a_frame_that_is_not_admitted_changes_nothing() {
    let filter = AdmissionFilter::new(LOCAL);
    let mut queue: BoundedQueue<Payload> = BoundedQueue::new(QUEUE_CAPACITY);
    let seen = frame(0x0806, PEER, OTHER, b"who has 10.0.0.2");
    assert_eq!(watch_frame(&filter, &seen, &mut queue), FrameOutcome::Filtered);
    assert_eq!(queue.len(), 0);
    assert_eq!(queue.dropped(), 0);
}

#[test]
fn a_saturated_queue_drops_admitted_frames() {
    let filter = AdmissionFilter::new(LOCAL);
    let mut queue = BoundedQueue::new(QUEUE_CAPACITY);
    for n in 0..50u8 {
        let bytes = [n];
        let seen = frame(0x0800, PEER, OTHER, &bytes);
        assert_eq!(
            watch_frame(&filter, &seen, &mut queue),
            FrameOutcome::Queued(calc_hash(&[n]))
        );
    }
    assert_eq!(queue.len(), 50);
    for n in 50..60u8 {
        let bytes = [n];
        let seen = frame(0x0800, PEER, OTHER, &bytes);
        assert_eq!(
            watch_frame(&filter, &seen, &mut queue),
            FrameOutcome::Dropped(calc_hash(&[n]))
        );
        assert_eq!(queue.len(), 50);
    }
    assert_eq!(queue.dropped(), 10);
    match queue.try_recv() {
        Some(Payload::Packet { packet, .. }) => assert_eq!(packet, calc_hash(&[0])),
        other => panic!("unexpected record {:?}", other),
    }
}

#[test]
fn record_frame_takes_the_fingerprint_as_given() {
    let mut queue = BoundedQueue::new(1);
    let seen = link(0x0800);
    assert_eq!(record_frame(&seen, [9; 16], &mut queue), FrameOutcome::Queued([9; 16]));
    assert_eq!(record_frame(&seen, [8; 16], &mut queue), FrameOutcome::Dropped([8; 16]));
    assert_eq!(
        queue.try_recv(),
        Some(Payload::Packet {
            source: seen.source,
            destination: seen.destination,
            kind: seen.kind,
            packet: [9; 16],
        })
    );
    assert_eq!(queue.try_recv(), None);
}

#[test]
fn a_frame_too_short_for_its_headers_is_not_admitted() {
    let filter = AdmissionFilter::new(LOCAL);
    let mut queue: BoundedQueue<Payload> = BoundedQueue::new(QUEUE_CAPACITY);
    let who_has = [0xffu8; 14];
    let no_network = Frame { link: Some(link(0x0806)), network: None, bytes: &who_has };
    let cut_short = Frame { link: Some(link(0x0800)), network: None, bytes: &who_has };
    let no_link = Frame { link: None, network: None, bytes: &who_has[..5] };
    let only_network = Frame {
        link: None,
        network: Some(NetworkHeader { source: PEER, destination: OTHER }),
        bytes: &who_has,
    };
    for seen in [no_network, cut_short, no_link, only_network] {
        assert!(!filter.check(&seen));
        assert_eq!(watch_frame(&filter, &seen, &mut queue), FrameOutcome::Filtered);
    }
    assert_eq!(queue.len(), 0);
    assert_eq!(queue.dropped(), 0);
}

#[test]
fn pulses_are_numbered_from_zero() {
    let mut timer = PulseTimer::new();
    let mut queue = BoundedQueue::new(QUEUE_CAPACITY);
    assert_eq!(timer.sequence(), 0);
    for _ in 0..5 {
        assert!(timer.tick(&mut queue));
    }
    assert_eq!(timer.sequence(), 5);
    for n in 0..5u64 {
        assert_eq!(queue.try_recv(), Some(Payload::Pulse(n)));
    }
    assert_eq!(queue.try_recv(), None);
}

#[test]
fn a_dropped_pulse_still_uses_up_its_number() {
    let mut timer = PulseTimer::new();
    let mut queue = BoundedQueue::new(1);
    assert!(timer.tick(&mut queue));
    assert!(!timer.tick(&mut queue));
    assert!(!timer.tick(&mut queue));
    assert_eq!(queue.dropped(), 2);
    assert_eq!(queue.try_recv(), Some(Payload::Pulse(0)));
    assert!(timer.tick(&mut queue));
    assert_eq!(queue.try_recv(), Some(Payload::Pulse(3)));
}

#[test]
fn frames_and_pulses_share_the_queue_in_arrival_order() {
    let filter = AdmissionFilter::new(LOCAL);
    let mut timer = PulseTimer::new();
    let mut queue = BoundedQueue::new(QUEUE_CAPACITY);
    timer.tick(&mut queue);
    watch_frame(&filter, &frame(0x0800, PEER, OTHER, b"a"), &mut queue);
    timer.tick(&mut queue);
    assert_eq!(queue.try_recv(), Some(Payload::Pulse(0)));
    assert!(matches!(queue.try_recv(), Some(Payload::Packet { .. })));
    assert_eq!(queue.try_recv(), Some(Payload::Pulse(1)));
}

#[test]
fn type_tag_in_four_hex_digits() {
    assert_eq!(EtherType(0x0800).to_lower_hex(), "0800");
    assert_eq!(EtherType(0x86dd).to_lower_hex(), "86dd");
    assert_eq!(EtherType(0).to_lower_hex(), "0000");
    assert_eq!(EtherType(0xffff).to_lower_hex(), "ffff");
}

#[test]
fn the_standard_filter_leaves_out_one_address() {
    let filter = AdmissionFilter::standard();
    assert_eq!(filter.local, Ipv4Address(172, 21, 0, 24));
    assert!(!filter.check(&frame(0x0800, LOCAL, OTHER, b"x")));
    assert!(filter.check(&frame(0x0800, PEER, OTHER, b"x")));
}
