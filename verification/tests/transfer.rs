use bytes::Bytes;
use http::HeaderMap;
use netty::error::{bare, found, outside, Error, Kind, Reason};
use netty::h3::code::Code;
use netty::h3::download::{
    DataEvent, Download, DownloadAction, HeadAction, ResponseHeads, TrailersEvent,
};
use netty::h3::failure::{BodyGuard, Failure, RecvGuard, ResponseGuard, SendGuard};
use netty::h3::pace::{cooperate, next_chunk, CHUNK};
use netty::h3::transport::{
    accepted, ContractError, ReadyAction, Stops, Stream, WriteEvent as Wrote,
};
use netty::h3::upload::{BodyEvent, Upload, UploadAction, WriteEvent};
use netty::rt::quic::{InvalidStreamId, StreamId};

fn upload_error(action: UploadAction) -> Error {
    match action {
        UploadAction::Fail(error) => error,
        _ => panic!("expected a failure"),
    }
}

fn download_error(action: DownloadAction) -> Error {
    match action {
        DownloadAction::Fail(error) => error,
        _ => panic!("expected a failure"),
    }
}

fn headers(length: Option<&str>) -> HeaderMap {
    let mut map = HeaderMap::new();
    if let Some(length) = length {
        map.insert("content-length", length.parse().unwrap());
    }
    map
}

#[test]
fn work_pauses_every_thirty_second_time() {
    let mut budget = 0;
    for n in 1..=100 {
        assert_eq!(cooperate(&mut budget), n % 32 == 0);
    }
}

#[test]
fn chunks_are_the_data() {
    let bytes: Vec<u8> = (0..CHUNK * 2 + 5).map(|n| n as u8).collect();
    let mut data = Bytes::from(bytes.clone());
    let mut sizes = Vec::new();
    let mut joined = Vec::new();
    while !data.is_empty() {
        let chunk = next_chunk(&mut data);
        sizes.push(chunk.len());
        joined.extend_from_slice(&chunk);
    }
    assert_eq!(sizes, [CHUNK, CHUNK, 5]);
    assert_eq!(joined, bytes);
}

#[test]
fn uploads_send_frames_in_chunks_and_finish() {
    let mut upload = Upload::new(Some(CHUNK as u64 + 3));
    let (_, action) = upload.body(BodyEvent::Data(Bytes::from(vec![1; CHUNK + 3])));
    assert!(matches!(&action, UploadAction::SendData(chunk) if chunk.len() == CHUNK));
    let (_, action) = upload.write(WriteEvent::Accepted);
    assert!(matches!(&action, UploadAction::SendData(chunk) if chunk.len() == 3));
    assert!(matches!(
        upload.write(WriteEvent::Accepted).1,
        UploadAction::Poll
    ));
    assert!(matches!(
        upload.body(BodyEvent::Unknown).1,
        UploadAction::Poll
    ));
    assert!(matches!(
        upload.body(BodyEvent::Trailers).1,
        UploadAction::SendTrailers
    ));
    assert!(matches!(
        upload.write(WriteEvent::Accepted).1,
        UploadAction::Poll
    ));
    assert!(matches!(
        upload.body(BodyEvent::End).1,
        UploadAction::Finish
    ));
    assert!(!upload.is_finished());
    assert!(matches!(
        upload.write(WriteEvent::Accepted).1,
        UploadAction::AwaitAck
    ));
    assert!(upload.is_finished());
    assert!(matches!(upload.ack(Ok(())).1, UploadAction::Done));
}

#[test]
fn empty_frames_pause_now_and_then() {
    let mut upload = Upload::new(None);
    for n in 1..=64 {
        let (pause, action) = upload.body(BodyEvent::Data(Bytes::new()));
        assert!(matches!(action, UploadAction::Poll));
        assert_eq!(pause, n % 32 == 0);
    }
}

#[test]
fn uploads_fail_for_their_reasons() {
    let fail = |length, event| upload_error(Upload::new(length).body(event).1);
    assert_eq!(
        fail(Some(1), BodyEvent::Data(Bytes::from_static(b"ab"))),
        found(Kind::UserBody, Reason::BodyTooLong)
    );
    assert_eq!(
        fail(Some(1), BodyEvent::End),
        found(Kind::UserBody, Reason::BodyTooShort)
    );
    assert_eq!(
        fail(Some(1), BodyEvent::Trailers),
        found(Kind::UserBody, Reason::BodyTooShort)
    );
    assert_eq!(fail(None, BodyEvent::Failed(1)), outside(Kind::UserBody, 1));
    assert_eq!(fail(None, BodyEvent::StopFailed(2)), outside(Kind::Http3, 2));
    let mut upload = Upload::new(None);
    upload.body(BodyEvent::Trailers);
    upload.write(WriteEvent::Accepted);
    assert_eq!(
        upload_error(upload.body(BodyEvent::Data(Bytes::new())).1),
        found(Kind::UserBody, Reason::FrameAfterTrailers)
    );
    let mut upload = Upload::new(None);
    upload.body(BodyEvent::End);
    assert_eq!(
        upload_error(upload.write(WriteEvent::Failed(3)).1),
        outside(Kind::Http3, 3)
    );
}

#[test]
fn empty_request_fails_when_its_fin_reports_a_stream_error() {
    let mut upload = Upload::new(Some(0));
    upload.body(BodyEvent::End);
    upload.write(WriteEvent::Accepted);
    assert_eq!(upload_error(upload.ack(Err(4)).1), outside(Kind::Http3, 4));
}

#[test]
fn peer_stop_ends_the_upload_without_an_error() {
    let mut upload = Upload::new(Some(9));
    assert!(matches!(
        upload.body(BodyEvent::Stopped).1,
        UploadAction::Done
    ));
    assert!(!upload.is_finished());
    let mut upload = Upload::new(None);
    upload.body(BodyEvent::Data(Bytes::from_static(b"x")));
    assert!(matches!(
        upload.write(WriteEvent::Terminated).1,
        UploadAction::Done
    ));
    assert!(!upload.is_finished());
}

#[test]
fn invalid_response_lengths_signal_message_error_and_preserve_connection() {
    for (status, length) in [(200, "invalid"), (200, "1, 2"), (103, "0"), (204, "0")] {
        let headers = headers(Some(length));
        let mut guard = RecvGuard::new();
        let head = ResponseHeads::new().read(&mut guard, status, &headers);
        if status == 103 {
            assert_eq!(
                head,
                HeadAction::Fail(found(Kind::Http3, Reason::InformationalLength))
            );
        } else {
            assert_eq!(head, HeadAction::Final);
            let (download, action) = Download::start(guard, false, status, &headers);
            assert!(matches!(action, DownloadAction::Fail(_)), "{status} {length}");
            guard = download.guard();
        }
        assert_eq!(guard.release(false), Some(Code::MessageError));
    }
}

#[test]
fn head_204_and_304_end_without_content() {
    for (head, status, length) in [
        (true, 200, Some("123")),
        (false, 204, None),
        (false, 304, Some("123")),
    ] {
        let (mut download, action) =
            Download::start(RecvGuard::new(), head, status, &headers(length));
        assert!(matches!(action, DownloadAction::Deliver(Some(0))));
        download.delivered(true);
        assert!(matches!(
            download.data(DataEvent::End).1,
            DownloadAction::PollTrailers
        ));
        assert!(matches!(
            download.trailers(TrailersEvent::End).1,
            DownloadAction::Done
        ));
        assert_eq!(download.guard().release(false), None);
    }
}

#[test]
fn informational_responses_are_skipped() {
    let mut heads = ResponseHeads::new();
    let mut guard = RecvGuard::new();
    for n in 1..=40 {
        assert_eq!(
            heads.read(&mut guard, 103, &headers(None)),
            HeadAction::Next(n == 32)
        );
    }
    assert_eq!(
        heads.read(&mut guard, 200, &headers(Some("4"))),
        HeadAction::Final
    );
    assert_eq!(
        heads.read(&mut guard, 101, &headers(None)),
        HeadAction::Fail(found(Kind::Http3, Reason::SwitchingProtocols))
    );
    assert_eq!(guard.code, Code::MessageError);
}

fn download(length: Option<&str>) -> Download {
    let (mut download, action) =
        Download::start(RecvGuard::new(), false, 200, &headers(length));
    assert!(matches!(action, DownloadAction::Deliver(_)));
    assert!(matches!(
        download.delivered(true).1,
        DownloadAction::Poll
    ));
    download
}

#[test]
fn responses_reach_the_reader_in_chunks() {
    let mut download = download(None);
    let (_, action) = download.data(DataEvent::Data(Bytes::from(vec![1; CHUNK + 1])));
    assert!(matches!(&action, DownloadAction::Push(chunk) if chunk.len() == CHUNK));
    let (_, action) = download.pushed(true);
    assert!(matches!(&action, DownloadAction::Push(chunk) if chunk.len() == 1));
    assert!(matches!(download.pushed(true).1, DownloadAction::Poll));
    assert!(matches!(
        download.data(DataEvent::End).1,
        DownloadAction::PollTrailers
    ));
    assert!(matches!(
        download.trailers(TrailersEvent::Trailers).1,
        DownloadAction::PushTrailers
    ));
    assert!(matches!(download.pushed(true).1, DownloadAction::Done));
    assert!(download.guard().finished);
}

#[test]
fn responses_fail_for_their_reasons() {
    let mut short = download(Some("2"));
    assert_eq!(
        download_error(short.data(DataEvent::End).1),
        found(Kind::Body, Reason::ResponseTooShort)
    );
    assert_eq!(short.guard().release(false), Some(Code::MessageError));
    let mut long = download(Some("2"));
    assert_eq!(
        download_error(long.data(DataEvent::Data(Bytes::from_static(b"abc"))).1),
        found(Kind::Http3, Reason::BodyTooLong)
    );
    assert_eq!(long.guard().code, Code::MessageError);
    let mut failed = download(None);
    assert_eq!(
        download_error(failed.data(DataEvent::Failed(1)).1),
        outside(Kind::Http3, 1)
    );
    assert_eq!(failed.guard().code, Code::RequestCancelled);
    let mut trailers = download(None);
    trailers.data(DataEvent::End);
    assert_eq!(
        download_error(trailers.trailers(TrailersEvent::Failed(2)).1),
        outside(Kind::Http3, 2)
    );
    let (mut unwanted, _) = Download::start(RecvGuard::new(), false, 200, &headers(None));
    assert_eq!(
        download_error(unwanted.delivered(false).1),
        bare(Kind::Canceled)
    );
}

#[test]
fn dropped_bodies_only_stop_receiving() {
    let mut gone = download(Some("9"));
    assert!(matches!(
        gone.data(DataEvent::Closed).1,
        DownloadAction::Abandon
    ));
    assert_eq!(gone.guard().release(false), Some(Code::RequestCancelled));
    let mut full = download(None);
    full.data(DataEvent::Data(Bytes::from_static(b"x")));
    assert!(matches!(full.pushed(false).1, DownloadAction::Abandon));
    let mut late = download(None);
    late.data(DataEvent::End);
    assert!(matches!(
        late.trailers(TrailersEvent::Closed).1,
        DownloadAction::Abandon
    ));
}

#[test]
fn first_failure_is_reported() {
    let closed = bare(Kind::Closed);
    let cause = found(Kind::Http3, Reason::InvalidDatagram);
    let mut failure = Failure::new();
    assert_eq!(failure.get(closed), closed);
    failure.set(Some(cause), outside(Kind::Http3, 1));
    failure.set(None, outside(Kind::Http3, 2));
    assert_eq!(failure.get(closed), cause);
    let mut response = ResponseGuard { waiting: true };
    assert_eq!(response.release(&failure, closed), Some(cause));
    assert!(response.take());
    assert!(!response.take());
    assert_eq!(response.release(&failure, closed), None);
    assert_eq!(BodyGuard { open: true }.release(&failure, closed), Some(cause));
    assert_eq!(BodyGuard { open: false }.release(&failure, closed), None);
}

#[test]
fn given_up_directions_carry_their_codes() {
    assert_eq!(SendGuard { finished: true }.release(true), None);
    let open = SendGuard { finished: false };
    assert_eq!(open.release(false).unwrap().value(), 0x10c);
    assert_eq!(open.release(true).unwrap().value(), 0x33);
    assert_eq!(RecvGuard::new().release(true), Some(Code::DatagramError));
    assert_eq!(Code::MessageError.value(), 0x10e);
    assert_eq!(Code::NoError.value(), 0x100);
}

#[test]
fn streams_write_their_pending_data() {
    let mut stream = Stream::new();
    assert_eq!(stream.poll_ready(), ReadyAction::Ready);
    assert_eq!(stream.send_data(10), Ok(()));
    assert_eq!(stream.send_data(1), Err(ContractError::NotReady));
    assert_eq!(stream.poll_ready(), ReadyAction::Write);
    assert_eq!(
        stream.wrote(Wrote::Wrote { count: 4, left: 6 }),
        ReadyAction::Write
    );
    assert_eq!(stream.wrote(Wrote::Pending), ReadyAction::Wait(false));
    assert_eq!(stream.poll_ready(), ReadyAction::Write);
    assert_eq!(stream.wrote(Wrote::Failed(3)), ReadyAction::Fail(3));
    let (mut send, mut recv) = stream.split();
    assert_eq!(recv.poll_ready(), ReadyAction::Ready);
    assert_eq!(send.poll_ready(), ReadyAction::Write);
    assert_eq!(
        send.wrote(Wrote::Wrote { count: 6, left: 0 }),
        ReadyAction::Ready
    );
    assert_eq!(send.send_data(0), Ok(()));
    assert_eq!(send.poll_ready(), ReadyAction::Ready);
    send.send_data(5).unwrap();
    send.reset();
    assert_eq!(send.poll_ready(), ReadyAction::Ready);
}

#[test]
fn inconsistent_writes_are_breaches() {
    for (count, left) in [(0, 10), (3, 8), (1, 11), (2, 9)] {
        let mut stream = Stream::new();
        stream.send_data(10).unwrap();
        stream.poll_ready();
        assert_eq!(
            stream.wrote(Wrote::Wrote { count, left }),
            ReadyAction::Breach(ContractError::Inconsistent)
        );
    }
    assert_eq!(
        ContractError::Inconsistent.message(),
        "QUIC send did not advance its buffer consistently"
    );
}

#[test]
fn long_writes_yield() {
    let mut stream = Stream::new();
    stream.send_data(100).unwrap();
    assert_eq!(stream.poll_ready(), ReadyAction::Write);
    for n in 1..=32 {
        let action = stream.wrote(Wrote::Wrote {
            count: 1,
            left: 100 - n,
        });
        if n == 32 {
            assert_eq!(action, ReadyAction::Wait(true));
        } else {
            assert_eq!(action, ReadyAction::Write);
        }
    }
}

#[test]
fn stop_observers_are_taken_once() {
    let id = StreamId::try_from(4).unwrap();
    let mut stops = Stops::new();
    stops.insert(id, "observer");
    assert_eq!(stops.take(id), Some("observer"));
    assert_eq!(stops.take(id), None);
    stops.insert(id, "again");
    stops.forget(id);
    assert_eq!(stops.take(id), None);
    assert_eq!(accepted(Some(1)), Ok(1));
    assert_eq!(accepted::<u8>(None), Err(Code::NoError));
    assert_eq!(
        StreamId::try_from(1 << 62),
        Err(InvalidStreamId(1 << 62))
    );
}

#[test]
fn bodies_are_sent_whole_in_any_frames() {
    let bytes: Vec<u8> = (0..3 * CHUNK + 7).map(|n| (n / 100) as u8).collect();
    for (length, ends) in [(bytes.len(), true), (bytes.len() + 1, false)] {
        let mut upload = Upload::new(Some(length as u64));
        let mut sent = Vec::new();
        for frame in bytes.chunks(CHUNK + 1) {
            let mut action = upload.body(BodyEvent::Data(Bytes::from(frame.to_vec()))).1;
            while let UploadAction::SendData(chunk) = action {
                sent.extend_from_slice(&chunk);
                action = upload.write(WriteEvent::Accepted).1;
            }
            assert!(matches!(action, UploadAction::Poll));
        }
        assert_eq!(sent, bytes);
        let action = upload.body(BodyEvent::End).1;
        assert_eq!(matches!(action, UploadAction::Finish), ends);
    }
}

#[test]
fn bodies_reach_the_reader_whole_in_any_frames() {
    let bytes: Vec<u8> = (0..3 * CHUNK + 7).map(|n| (n / 100) as u8).collect();
    for (length, ends) in [(bytes.len(), true), (bytes.len() + 1, false)] {
        let mut download = download(Some(length.to_string().as_str()));
        let mut read = Vec::new();
        for frame in bytes.chunks(CHUNK + 1) {
            let mut action = download.data(DataEvent::Data(Bytes::from(frame.to_vec()))).1;
            while let DownloadAction::Push(chunk) = action {
                read.extend_from_slice(&chunk);
                action = download.pushed(true).1;
            }
            assert!(matches!(action, DownloadAction::Poll));
        }
        assert_eq!(read, bytes);
        let action = download.data(DataEvent::End).1;
        assert_eq!(matches!(action, DownloadAction::PollTrailers), ends);
    }
}

#[test]
fn datagram_directions_end_with_their_streams() {
    let mut upload = Upload::new(None);
    let (_, action) = upload.body(BodyEvent::End);
    assert!(!action.closes_datagrams());
    assert!(upload.write(WriteEvent::Accepted).1.closes_datagrams());
    let mut stopped = Upload::new(None);
    assert!(!stopped.body(BodyEvent::Stopped).1.closes_datagrams());
    let mut complete = download(None);
    assert!(!complete.data(DataEvent::End).1.closes_datagrams());
    assert!(complete.trailers(TrailersEvent::End).1.closes_datagrams());
    assert!(!complete.guard().closes_datagrams());
    let mut abandoned = download(None);
    assert!(!abandoned.data(DataEvent::Closed).1.closes_datagrams());
    assert!(abandoned.guard().closes_datagrams());
}
