use bytes::Bytes;
use http3_datagram::datagram::Datagram;
use netty::conn::datagram::{on, Pending, Sender};
use netty::error::{Cause, Kind, Reason};
use netty::h3::code::Code;
use netty::h3::datagram::{
    Received, Registry, RequestState, SendErrorKind, Wakes, CONNECTION_BYTES, PACKETS,
    SESSION_BYTES,
};
use netty::h3::driver::{Action, Driver, RecvEvent, SendEvent};
use netty::progress::Progress;
use netty::rt::quic::datagram::DatagramError;
use netty::rt::quic::StreamId;

const NOBODY: Wakes = Wakes {
    receiver: false,
    driver: false,
    capacity: false,
};

const DRIVER: Wakes = Wakes {
    receiver: false,
    driver: true,
    capacity: false,
};

fn registry() -> Registry {
    let mut registry = Registry::new(Some(65536));
    registry.negotiated(true);
    registry
}

fn id(n: u64) -> StreamId {
    StreamId::try_from(n).unwrap()
}

fn register(registry: &mut Registry, n: u64) -> RequestState {
    registry.register(id(n), true)
}

fn packet(stream: u64, payload: &[u8]) -> Bytes {
    netty::h3::packet::encode(id(stream), &Bytes::copy_from_slice(payload))
}

#[test]
fn blocked_senders_wake_independently_and_never_enqueue_while_pending() {
    let mut registry = registry();
    let request = register(&mut registry, 0);
    for _ in 0..PACKETS {
        request.send(&mut registry, &Bytes::new()).0.unwrap();
    }
    let mut first = Sender::new(request);
    let mut second = first.clone();
    let one = Bytes::from_static(b"first");
    let two = Bytes::from_static(b"second");
    assert_eq!(first.poll_send(&mut registry, &one), (Progress::Pending, false, NOBODY));
    assert_eq!(second.poll_send(&mut registry, &two), (Progress::Pending, false, NOBODY));
    assert_eq!(registry.queue_lengths(id(0)).unwrap().1, PACKETS);
    let before = registry.notifications();
    registry.next().unwrap();
    assert!(registry.notifications() != before);
    assert_eq!(
        first.poll_send(&mut registry, &one),
        (Progress::Ready(Ok(())), false, DRIVER)
    );
    // Reusing the second sender may first consume the broadcast notification.
    assert_eq!(second.poll_send(&mut registry, &two), (Progress::Pending, true, NOBODY));
    assert_eq!(second.poll_send(&mut registry, &two), (Progress::Pending, false, NOBODY));
    let before_close = registry.notifications();
    assert!(request.close_send(&mut registry).capacity);
    assert!(registry.notifications() != before_close);
    assert_eq!(
        second.poll_send(&mut registry, &two),
        (Progress::Ready(Err(SendErrorKind::Closed)), false, NOBODY)
    );
    assert!(registry.next().is_none());
}

#[test]
fn empty_packets_are_bounded_and_sessions_are_served_round_robin() {
    let mut registry = registry();
    let first = register(&mut registry, 0);
    let second = register(&mut registry, 4);
    for _ in 0..PACKETS {
        first.send(&mut registry, &Bytes::new()).0.unwrap();
        second.send(&mut registry, &Bytes::from_static(b"other")).0.unwrap();
    }
    assert_eq!(
        first.send(&mut registry, &Bytes::new()).0,
        Err(SendErrorKind::Full)
    );
    for _ in 0..PACKETS {
        assert_eq!(registry.next().unwrap().0, 0);
        assert_eq!(registry.next().unwrap().0, 4);
    }
    assert!(registry.next().is_none());
    assert_eq!(registry.outgoing(), 0);
    first.send(&mut registry, &Bytes::new()).0.unwrap();
    first.close(&mut registry);
    second.close(&mut registry);
    assert!(registry.queue_lengths(id(0)).is_none());
    assert!(registry.queue_lengths(id(4)).is_none());
    assert_eq!(registry.waiting(), 0);
    assert_eq!(registry.outgoing(), 0);
}

#[test]
fn connection_byte_budget_is_reclaimed_on_close() {
    let mut registry = registry();
    let requests: Vec<_> = (0..9).map(|n| register(&mut registry, n * 4)).collect();
    let payload = Bytes::from(vec![0; 65535]);
    for request in &requests[..8] {
        request.send(&mut registry, &payload).0.unwrap();
        request.send(&mut registry, &payload).0.unwrap();
        assert_eq!(
            request.send(&mut registry, &Bytes::new()).0,
            Err(SendErrorKind::Full)
        );
    }
    assert_eq!(registry.outgoing(), CONNECTION_BYTES);
    assert_eq!(
        requests[8].send(&mut registry, &Bytes::new()).0,
        Err(SendErrorKind::Full)
    );
    requests[0].close_send(&mut registry);
    requests[8].send(&mut registry, &payload).0.unwrap();
    let (mut woken, wakes) = registry.close();
    assert!(wakes.receiver && wakes.driver && wakes.capacity);
    woken.sort();
    assert_eq!(woken, (0..9).map(|n| n * 4).collect::<Vec<u64>>());
    assert_eq!(registry.outgoing(), 0);
    assert_eq!(
        requests[8].send(&mut registry, &Bytes::new()).0,
        Err(SendErrorKind::Closed)
    );
}

#[test]
fn dropping_datagram_receiver_reclaims_connection_budget() {
    let mut registry = registry();
    let requests: Vec<_> = (0..9).map(|n| register(&mut registry, n * 4)).collect();
    let mut response = Some(Pending::new("control", requests[0]));
    let (_control, sender, receiver) = on(&mut response).unwrap().into_parts();
    assert!(on(&mut response).is_none());
    let payload = vec![0; SESSION_BYTES / 4];
    for request in &requests[..8] {
        let packet = packet(request.id().into_inner(), &payload);
        for _ in 0..4 {
            registry.receive(packet.clone()).unwrap();
        }
    }
    assert_eq!(registry.incoming(), CONNECTION_BYTES);
    let live = packet(32, b"live");
    registry.receive(live.clone()).unwrap();
    assert_eq!(registry.queue_lengths(id(32)).unwrap().0, 0);
    receiver.close(&mut registry);
    assert_eq!(registry.incoming(), CONNECTION_BYTES - SESSION_BYTES);
    assert_eq!(registry.queue_lengths(id(0)).unwrap().0, 0);
    // Unread late packets cannot occupy the budget again while the caller
    // keeps this session's control and send handles alive.
    assert_eq!(
        registry.receive(Bytes::from_static(&[0, 7])),
        Ok(Received::Dropped)
    );
    assert_eq!(registry.incoming(), CONNECTION_BYTES - SESSION_BYTES);
    assert_eq!(registry.receive(live), Ok(Received::Queued(32)));
    assert_eq!(
        requests[8].poll_recv(&mut registry),
        Progress::Ready(Some(Bytes::from_static(b"live")))
    );
    sender
        .try_send(&mut registry, Bytes::from_static(b"outgoing"))
        .0
        .unwrap();
    let (stream, packet) = registry.next().unwrap();
    assert_eq!(stream, 0);
    assert_eq!(Datagram::decode(packet).unwrap().into_payload(), "outgoing");
}

#[test]
fn receive_budget_drops_newest_and_fin_clears_queued_packets() {
    let mut registry = registry();
    let request = register(&mut registry, 0);
    for _ in 0..PACKETS {
        registry.receive(Bytes::from_static(&[0])).unwrap();
    }
    registry.receive(Bytes::from_static(&[0, 9])).unwrap();
    assert_eq!(registry.queue_lengths(id(0)).unwrap().0, PACKETS);
    assert_eq!(registry.incoming(), 0);
    request.close_recv(&mut registry);
    registry.receive(Bytes::from_static(&[0, 9])).unwrap();
    assert_eq!(registry.queue_lengths(id(0)).unwrap().0, 0);
    assert!(registry.receive(Bytes::new()).is_err());
}

struct DatagramSender {
    max: usize,
    blocked: bool,
    accepted: Vec<Bytes>,
}

impl DatagramSender {
    fn poll_send(&mut self, packet: &Bytes) -> SendEvent {
        if self.blocked {
            return SendEvent::Pending;
        }
        if packet.len() > self.max {
            return SendEvent::Refused(DatagramError::TooLarge);
        }
        self.accepted.push(packet.clone());
        SendEvent::Accepted
    }
}

/// Runs one turn with nothing to receive. Returns whether another turn is asked for.
fn turn(driver: &mut Driver, registry: &mut Registry, sender: &mut DatagramSender) -> bool {
    let mut step = driver.start(registry, Some(sender.max));
    let mut wake = step.wake;
    loop {
        step = match step.action {
            Action::Receive => driver.received(registry, RecvEvent::Pending),
            Action::Send => {
                let event = sender.poll_send(driver.packet().unwrap());
                driver.sent(registry, event)
            }
            Action::Wait => return wake,
            other => panic!("unexpected action {other:?}"),
        };
        wake |= step.wake;
    }
}

#[test]
fn closing_session_discards_blocked_datagram_and_preserves_other_sessions() {
    for drop_session in [false, true] {
        let mut registry = registry();
        let request = register(&mut registry, 0);
        let live = register(&mut registry, 4);
        request
            .send(&mut registry, &Bytes::from_static(b"canceled"))
            .0
            .unwrap();
        live.send(&mut registry, &Bytes::from_static(b"live")).0.unwrap();
        let mut driver = Driver::new();
        let mut sender = DatagramSender {
            max: 1300,
            blocked: true,
            accepted: Vec::new(),
        };
        turn(&mut driver, &mut registry, &mut sender);
        assert_eq!(driver.pending(), Some(0));
        assert!(sender.accepted.is_empty());
        let wakes = if drop_session {
            request.close(&mut registry)
        } else {
            request.close_send(&mut registry)
        };
        // Closure must wake the driver even while QUIC remains blocked.
        assert!(wakes.driver);
        assert_eq!(
            request.send(&mut registry, &Bytes::new()).0,
            Err(SendErrorKind::Closed)
        );
        turn(&mut driver, &mut registry, &mut sender);
        assert_eq!(driver.pending(), Some(4));
        assert!(sender.accepted.is_empty());
        sender.blocked = false;
        turn(&mut driver, &mut registry, &mut sender);
        assert!(driver.pending().is_none());
        assert_eq!(sender.accepted.len(), 1);
        let packet = Datagram::decode(sender.accepted.pop().unwrap()).unwrap();
        assert_eq!(packet.stream_id().into_inner(), live.id().into_inner());
        assert_eq!(packet.into_payload(), "live");
        assert_eq!(registry.outgoing(), 0);
        live.send(&mut registry, &Bytes::from_static(b"reused")).0.unwrap();
        turn(&mut driver, &mut registry, &mut sender);
        assert_eq!(sender.accepted.len(), 1);
    }
}

#[test]
fn mtu_reduction_drops_pending_packet_without_closing_session() {
    let mut registry = registry();
    // Quarter Stream ID 64 needs two bytes, which must count toward MTU.
    let request = register(&mut registry, 256);
    let mut driver = Driver::new();
    let mut sender = DatagramSender {
        max: 1300,
        blocked: true,
        accepted: Vec::new(),
    };
    turn(&mut driver, &mut registry, &mut sender);
    assert_eq!(request.max_size(&registry), Some(1298));
    request.send(&mut registry, &Bytes::from(vec![7; 1298])).0.unwrap();
    request.send(&mut registry, &Bytes::from_static(b"next")).0.unwrap();
    turn(&mut driver, &mut registry, &mut sender);
    assert!(driver.pending().is_some());
    assert!(sender.accepted.is_empty());
    sender.max = 1200;
    sender.blocked = false;
    turn(&mut driver, &mut registry, &mut sender);
    assert!(driver.pending().is_none());
    assert_eq!(request.max_size(&registry), Some(1198));
    assert_eq!(registry.outgoing(), 0);
    assert_eq!(sender.accepted.len(), 1);
    let received = Datagram::decode(sender.accepted.pop().unwrap()).unwrap();
    assert_eq!(received.into_payload(), "next");
    assert_eq!(
        request.send(&mut registry, &Bytes::from(vec![7; 1199])).0,
        Err(SendErrorKind::TooLarge)
    );
    request.send(&mut registry, &Bytes::from(vec![7; 1198])).0.unwrap();
    turn(&mut driver, &mut registry, &mut sender);
    assert_eq!(sender.accepted[0].len(), 1200);
    assert_eq!(registry.outgoing(), 0);
}

#[test]
fn payload_arrives_at_the_same_request() {
    let mut here = registry();
    let mut there = registry();
    let request = register(&mut here, 260);
    let peer = register(&mut there, 260);
    request.send(&mut here, &Bytes::from_static(b"hello")).0.unwrap();
    let (stream, packet) = here.next().unwrap();
    assert_eq!(stream, 260);
    // Quarter Stream ID 65 in two bytes.
    assert_eq!(&packet[..2], &[0x40, 0x41]);
    assert_eq!(there.receive(packet), Ok(Received::Queued(260)));
    assert_eq!(
        peer.poll_recv(&mut there),
        Progress::Ready(Some(Bytes::from_static(b"hello")))
    );
    assert_eq!(peer.poll_recv(&mut there), Progress::Pending);
    peer.close_recv(&mut there);
    assert_eq!(peer.poll_recv(&mut there), Progress::Ready(None));
}

#[test]
fn sends_are_refused_for_their_reasons() {
    let mut registry = Registry::new(None);
    let request = register(&mut registry, 0);
    assert_eq!(
        request.send(&mut registry, &Bytes::new()).0,
        Err(SendErrorKind::Unavailable)
    );
    assert_eq!(request.max_size(&registry), None);
    registry.negotiated(true);
    assert_eq!(
        request.send(&mut registry, &Bytes::new()).0,
        Err(SendErrorKind::Unavailable)
    );
    registry.set_max_size(Some(4));
    assert_eq!(request.max_size(&registry), Some(3));
    assert_eq!(
        request.send(&mut registry, &Bytes::from_static(b"long")).0,
        Err(SendErrorKind::TooLarge)
    );
    assert_eq!(registry.outgoing(), 0);
    registry.set_max_size(Some(0));
    assert_eq!(request.max_size(&registry), None);
    let error = Sender::new(request)
        .try_send(&mut registry, Bytes::from_static(b"back"))
        .0
        .unwrap_err();
    assert_eq!(error.kind(), SendErrorKind::TooLarge);
    assert_eq!(error.message(), "HTTP Datagram send rejected: TooLarge");
    assert_eq!(error.into_payload(), "back");
    assert!(request.close(&mut registry).receiver);
    assert_eq!(
        request.send(&mut registry, &Bytes::new()).0,
        Err(SendErrorKind::Closed)
    );
}

#[test]
fn datagram_without_semantics_is_reported_and_unknown_streams_are_ignored() {
    let mut registry = registry();
    registry.register(id(0), false);
    assert_eq!(registry.receive(packet(0, b"x")), Ok(Received::Invalid(0)));
    assert_eq!(registry.receive(packet(8, b"x")), Ok(Received::Dropped));
    let error = registry.receive(Bytes::from_static(&[0x40])).unwrap_err();
    assert_eq!(error.cause, Cause::Found(Reason::InvalidDatagram));
    // The largest Quarter Stream ID is 2^60 - 1.
    let mut large = vec![0xd0, 0, 0, 0, 0, 0, 0, 0];
    assert!(registry.receive(Bytes::from(large.clone())).is_err());
    large[0] = 0xcf;
    for byte in &mut large[1..] {
        *byte = 0xff;
    }
    assert_eq!(registry.receive(Bytes::from(large)), Ok(Received::Dropped));
    registry.close();
    registry.register(id(0), true);
    assert!(registry.queue_lengths(id(0)).is_none());
}

#[test]
fn turns_have_a_budget_for_each_direction() {
    let mut registry = registry();
    let request = register(&mut registry, 0);
    for _ in 0..40 {
        request.send(&mut registry, &Bytes::new()).0.unwrap();
    }
    let mut driver = Driver::new();
    let mut step = driver.start(&mut registry, Some(1200));
    let mut received = 0;
    let mut sent = 0;
    let mut wakes = 0;
    loop {
        step = match step.action {
            Action::Receive => {
                received += 1;
                driver.received(&mut registry, RecvEvent::Packet(packet(0, b"in")))
            }
            Action::Send => {
                sent += 1;
                driver.sent(&mut registry, SendEvent::Accepted)
            }
            _ => break,
        };
        wakes += u32::from(step.wake);
    }
    assert_eq!((received, sent, wakes), (32, 32, 2));
    assert_eq!(step.action, Action::Wait);
    assert_eq!(registry.queue_lengths(id(0)), Some((32, 8)));
}

#[test]
fn driver_ends_with_the_transport() {
    let mut registry = registry();
    let request = register(&mut registry, 0);
    let mut driver = Driver::new();
    driver.start(&mut registry, None);
    assert_eq!(
        driver.received(&mut registry, RecvEvent::End).action,
        Action::Finish
    );
    driver.start(&mut registry, None);
    match driver.received(&mut registry, RecvEvent::Failed(9)).action {
        Action::Fail(code, error) => {
            assert_eq!(code.value(), 0x102);
            assert_eq!((error.kind, error.cause), (Kind::Http3, Cause::Outside(9)));
        }
        other => panic!("{other:?}"),
    }
    driver.start(&mut registry, None);
    match driver
        .received(&mut registry, RecvEvent::Packet(Bytes::new()))
        .action
    {
        Action::Fail(code, _) => assert_eq!(code, Code::DatagramError),
        other => panic!("{other:?}"),
    }
    driver.start(&mut registry, Some(1200));
    request.send(&mut registry, &Bytes::new()).0.unwrap();
    assert_eq!(
        driver.received(&mut registry, RecvEvent::Pending).action,
        Action::Send
    );
    match driver
        .sent(
            &mut registry,
            SendEvent::Refused(DatagramError::Connection(3)),
        )
        .action
    {
        Action::Fail(code, error) => {
            assert_eq!(code, Code::InternalError);
            assert_eq!(error.cause, Cause::Outside(3));
        }
        other => panic!("{other:?}"),
    }
    assert_eq!(DatagramError::TooLarge.message(), "QUIC Datagram too large");
}

#[test]
fn queued_packets_wake_the_driver() {
    let mut registry = registry();
    let request = register(&mut registry, 0);
    assert_eq!(
        request.send(&mut registry, &Bytes::from_static(b"one")),
        (Ok(()), DRIVER)
    );
    let sender = Sender::new(request);
    let (sent, wakes) = sender.try_send(&mut registry, Bytes::from_static(b"two"));
    assert!(sent.is_ok());
    assert_eq!(wakes, DRIVER);
    let (refused, wakes) = sender.try_send(&mut registry, Bytes::from(vec![0; 65536]));
    assert_eq!(refused.unwrap_err().kind(), SendErrorKind::TooLarge);
    assert_eq!(wakes, NOBODY);
    registry.close();
    assert_eq!(
        request.send(&mut registry, &Bytes::new()),
        (Err(SendErrorKind::Closed), NOBODY)
    );
}

#[test]
fn freed_places_let_waiting_senders_in() {
    let mut registry = registry();
    let request = register(&mut registry, 0);
    let large = Bytes::from(vec![0; 65535]);
    let small = Bytes::from(vec![0; 1]);
    request.send(&mut registry, &large).0.unwrap();
    request.send(&mut registry, &large).0.unwrap();
    let mut sender = Sender::new(request);
    assert_eq!(
        sender.poll_send(&mut registry, &small),
        (Progress::Pending, false, NOBODY)
    );
    registry.next().unwrap();
    assert_eq!(
        sender.poll_send(&mut registry, &small),
        (Progress::Ready(Ok(())), false, DRIVER)
    );
    // A packet that frees too little lets nobody in.
    let mut registry = self::registry();
    let request = register(&mut registry, 0);
    request.send(&mut registry, &small).0.unwrap();
    request.send(&mut registry, &small).0.unwrap();
    request.send(&mut registry, &large).0.unwrap();
    let mut sender = Sender::new(request);
    assert_eq!(
        sender.poll_send(&mut registry, &large),
        (Progress::Pending, false, NOBODY)
    );
    registry.next().unwrap();
    assert_eq!(
        sender.poll_send(&mut registry, &large),
        (Progress::Pending, true, NOBODY)
    );
    registry.next().unwrap();
    assert_eq!(
        sender.poll_send(&mut registry, &large),
        (Progress::Ready(Ok(())), false, DRIVER)
    );
}
