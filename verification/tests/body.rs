use bytes::Bytes;
use http::HeaderMap;
use netty::body::chan::{Channel, Next};
use netty::body::incoming::{Frame, H2Data, H2Trailers, Incoming, Poll, SizeHint};
use netty::body::length::DecodedLength;
use netty::error::{outside, Cause, Kind};
use netty::progress::Progress;

fn channel() -> (Channel, Incoming) {
    Incoming::h1(DecodedLength::Unknown, /* wanter = */ false)
}

fn data(poll: Poll) -> Bytes {
    match poll {
        Poll::Frame(Frame::Data(data)) => data,
        _ => panic!("expected data"),
    }
}

fn trailers(poll: Poll) -> HeaderMap {
    match poll {
        Poll::Frame(Frame::Trailers(trailers)) => trailers,
        _ => panic!("expected trailers"),
    }
}

fn exact(n: u64) -> SizeHint {
    SizeHint {
        lower: n,
        upper: Some(n),
    }
}

const UNKNOWN: SizeHint = SizeHint {
    lower: 0,
    upper: None,
};

#[test]
fn size_hint() {
    fn eq(body: Incoming, b: SizeHint, note: &str) {
        let a = body.size_hint();
        assert_eq!(a.lower, b.lower, "lower for {note:?}");
        assert_eq!(a.upper, b.upper, "upper for {note:?}");
    }

    eq(Incoming::empty(), exact(0), "empty");

    eq(channel().1, UNKNOWN, "channel");

    eq(
        Incoming::h1(DecodedLength::new(4), /* wanter = */ false).1,
        exact(4),
        "channel with length",
    );
}

#[test]
fn channel_abort() {
    let (mut tx, mut rx) = channel();

    tx.abort();

    match rx.poll_frame(&mut tx).0 {
        Poll::Error(error) => assert!(error.is_body_write_aborted(), "{error:?}"),
        _ => panic!("expected an error"),
    }
}

#[test]
fn channel_abort_when_buffer_is_full() {
    let (mut tx, mut rx) = channel();

    tx.send_data("chunk 1".into()).expect("send 1");
    // buffer is full, but can still send abort
    tx.abort();

    assert_eq!(data(rx.poll_frame(&mut tx).0), "chunk 1");

    match rx.poll_frame(&mut tx).0 {
        Poll::Error(error) => assert!(error.is_body_write_aborted(), "{error:?}"),
        _ => panic!("expected an error"),
    }
}

#[test]
fn channel_buffers_one() {
    let (mut tx, _rx) = channel();

    tx.send_data("chunk 1".into()).expect("send 1");

    // buffer is now full
    let chunk2 = tx.send_data("chunk 2".into()).expect_err("send 2");
    assert_eq!(chunk2, "chunk 2");
}

#[test]
fn channel_empty() {
    let (mut tx, mut rx) = channel();
    tx.end();
    assert!(matches!(rx.poll_frame(&mut tx).0, Poll::End));
}

#[test]
fn channel_ready() {
    let (tx, _rx) = Incoming::h1(DecodedLength::Unknown, /* wanter = */ false);

    assert_eq!(
        tx.poll_ready(),
        Progress::Ready(Ok(())),
        "tx is ready immediately"
    );
}

#[test]
fn channel_wanter() {
    let (mut tx, mut rx) = Incoming::h1(DecodedLength::Unknown, /* wanter = */ true);

    assert_eq!(
        tx.poll_ready(),
        Progress::Pending,
        "tx isn't ready before rx has been polled"
    );

    let (poll, wake) = rx.poll_frame(&mut tx);
    assert!(matches!(poll, Poll::Pending), "poll rx.data");
    assert!(wake, "rx poll wakes tx");

    assert_eq!(
        tx.poll_ready(),
        Progress::Ready(Ok(())),
        "tx is ready after rx has been polled"
    );
}

#[test]
fn channel_notices_closure() {
    let (mut tx, _rx) = Incoming::h1(DecodedLength::Unknown, /* wanter = */ true);

    assert_eq!(
        tx.poll_ready(),
        Progress::Pending,
        "tx isn't ready before rx has been polled"
    );

    assert!(tx.close(), "dropping rx wakes tx");
    assert!(tx.is_closed());

    match tx.poll_ready() {
        Progress::Ready(Err(ref e)) if e.is_closed() => (),
        unexpected => panic!("tx poll ready unexpected: {unexpected:?}"),
    }
    assert_eq!(tx.send_data("late".into()).unwrap_err(), "late");
    assert!(tx.send_trailers(HeaderMap::new()).is_err());
}

#[test]
fn response_size_hint_tracks_data_and_keeps_trailers() {
    let (mut tx, mut body) = Incoming::h3(DecodedLength::new(6));
    assert_eq!(body.size_hint(), exact(6));
    tx.send_data("one".into()).unwrap();
    assert_eq!(data(body.poll_frame(&mut tx).0), "one");
    assert_eq!(body.size_hint(), exact(3));
    tx.send_data("two".into()).unwrap();
    let mut fields = HeaderMap::new();
    fields.insert("x-finished", "yes".parse().unwrap());
    tx.send_trailers(fields).unwrap();
    assert!(tx.send_trailers(HeaderMap::new()).is_err());
    tx.end();
    assert_eq!(data(body.poll_frame(&mut tx).0), "two");
    assert_eq!(body.size_hint(), exact(0));
    assert!(
        !body.is_end_stream(false),
        "zero remaining bytes must not hide trailers"
    );
    assert_eq!(trailers(body.poll_frame(&mut tx).0)["x-finished"], "yes");
    assert!(matches!(body.poll_frame(&mut tx).0, Poll::End));
    assert!(body.is_end_stream(false));
    assert_eq!(body.size_hint(), exact(0));
}

#[test]
fn http3_errors_end_the_body() {
    let (mut tx, mut body) = Incoming::h3(DecodedLength::Unknown);
    assert_eq!(body.size_hint(), UNKNOWN);
    assert!(matches!(body.poll_frame(&mut tx).0, Poll::Pending));
    tx.send_error(outside(Kind::Http3, 5));
    tx.send_error(outside(Kind::Http3, 6));
    tx.end();
    match body.poll_frame(&mut tx).0 {
        Poll::Error(error) => assert_eq!(error.cause, Cause::Outside(5)),
        _ => panic!("expected an error"),
    }
    assert!(body.is_end_stream(false));
    assert!(matches!(body.poll_frame(&mut tx).0, Poll::End));
}

#[test]
fn http1_bodies_count_down_and_end_with_trailers() {
    let (mut tx, mut body) = Incoming::h1(DecodedLength::new(4), false);
    assert!(!body.is_end_stream(false));
    tx.send_data("data".into()).unwrap();
    assert_eq!(data(body.poll_frame(&mut tx).0), "data");
    assert!(body.is_end_stream(false));
    let mut fields = HeaderMap::new();
    fields.insert("x-end", "1".parse().unwrap());
    tx.send_trailers(fields).unwrap();
    tx.end();
    assert_eq!(trailers(body.poll_frame(&mut tx).0)["x-end"], "1");
    assert!(matches!(body.poll_frame(&mut tx).0, Poll::End));
}

#[test]
fn http2_bodies_follow_their_stream() {
    let early = Incoming::h2(DecodedLength::Unknown, true);
    assert_eq!(early.size_hint(), exact(0));
    assert!(early.is_end_stream(true));
    let mut body = Incoming::h2(DecodedLength::new(3), false);
    assert!(body.wants_data());
    assert!(matches!(body.h2_data(H2Data::Pending), Some(Poll::Pending)));
    assert_eq!(data(body.h2_data(H2Data::Data("abc".into())).unwrap()), "abc");
    assert_eq!(body.size_hint(), exact(0));
    assert!(matches!(
        body.h2_data(H2Data::Failed {
            quiet: true,
            token: 1
        }),
        Some(Poll::End)
    ));
    match body.h2_data(H2Data::Failed {
        quiet: false,
        token: 1,
    }) {
        Some(Poll::Error(error)) => {
            assert_eq!((error.kind, error.cause), (Kind::Body, Cause::Outside(1)))
        }
        _ => panic!("expected an error"),
    }
    assert!(body.h2_data(H2Data::End).is_none());
    assert!(!body.wants_data());
    assert!(matches!(body.h2_trailers(H2Trailers::Pending), Poll::Pending));
    assert!(matches!(body.h2_trailers(H2Trailers::End), Poll::End));
    let mut fields = HeaderMap::new();
    fields.insert("x-end", "2".parse().unwrap());
    assert_eq!(
        trailers(body.h2_trailers(H2Trailers::Trailers(fields)))["x-end"],
        "2"
    );
    assert!(matches!(
        body.h2_trailers(H2Trailers::Failed {
            quiet: true,
            token: 2
        }),
        Poll::End
    ));
    match body.h2_trailers(H2Trailers::Failed {
        quiet: false,
        token: 2,
    }) {
        Poll::Error(error) => {
            assert_eq!((error.kind, error.cause), (Kind::Http2, Cause::Outside(2)))
        }
        _ => panic!("expected an error"),
    }
}

#[test]
fn channels_hand_over_one_thing_at_a_time() {
    let mut channel = Channel::new(false);
    assert!(matches!(channel.poll_next(), (Next::Pending, false)));
    channel.send_data("a".into()).unwrap();
    assert_eq!(channel.poll_ready(), Progress::Pending);
    match channel.poll_next() {
        (Next::Data(data), wake) => {
            assert_eq!(data, "a");
            assert!(wake);
        }
        _ => panic!("expected data"),
    }
    channel.end();
    assert!(matches!(channel.poll_next(), (Next::End, false)));
    assert!(channel.take_trailers().is_none());
}
