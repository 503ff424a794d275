use bytes::Bytes;
use netty::error::{bare, outside, Error, Kind};
use netty::h3::pace::CHUNK;
use netty::h3::tunnel::io::{AckEvent, FrameEvent, Io, IoAction, IoError, ReadAction, RoomEvent};
use netty::h3::tunnel::{
    delivered, ArrivalAction, ArrivalEvent, CloseEvent, PushEvent, TunnelAction, TunnelDownload,
    TunnelUpload, WorkEvent,
};
use netty::progress::Progress;

fn tunnel_error(action: TunnelAction) -> Error {
    match action {
        TunnelAction::Fail(error) => error,
        _ => panic!("expected a failure"),
    }
}

fn arrival_error(action: ArrivalAction) -> Error {
    match action {
        ArrivalAction::Fail(error) => error,
        _ => panic!("expected a failure"),
    }
}

fn read(action: ReadAction) -> Bytes {
    match action {
        ReadAction::Return(data) => data,
        _ => panic!("expected bytes"),
    }
}

#[test]
fn tunnels_send_flush_and_finish() {
    let mut upload = TunnelUpload::new();
    let (_, action) = upload.work(WorkEvent::Data(Bytes::from_static(b"hi")));
    assert!(matches!(&action, TunnelAction::Send(data) if data == "hi"));
    assert!(matches!(upload.done(Ok(())).1, TunnelAction::Poll));
    assert!(matches!(
        upload.work(WorkEvent::Flush).1,
        TunnelAction::Flushed
    ));
    assert!(matches!(upload.done(Ok(())).1, TunnelAction::Poll));
    assert!(matches!(
        upload.work(WorkEvent::Finish).1,
        TunnelAction::Finish
    ));
    assert!(!upload.is_finished());
    assert!(matches!(upload.done(Ok(())).1, TunnelAction::AwaitAck));
    assert!(upload.is_finished());
    assert!(matches!(upload.done(Ok(())).1, TunnelAction::Done));
}

#[test]
fn tunnel_uploads_end_for_their_reasons() {
    assert!(matches!(
        TunnelUpload::new().work(WorkEvent::Stopped).1,
        TunnelAction::Stopped
    ));
    assert_eq!(
        tunnel_error(TunnelUpload::new().work(WorkEvent::StopFailed(1)).1),
        outside(Kind::Http3, 1)
    );
    assert_eq!(
        tunnel_error(TunnelUpload::new().work(WorkEvent::Closed).1),
        bare(Kind::Canceled)
    );
    let mut upload = TunnelUpload::new();
    upload.work(WorkEvent::Finish);
    assert_eq!(tunnel_error(upload.done(Err(2)).1), outside(Kind::Http3, 2));
    assert!(!upload.is_finished());
    let mut busy = TunnelUpload::new();
    for n in 1..=33 {
        busy.work(WorkEvent::Flush);
        assert_eq!(busy.done(Ok(())).0, n == 32);
    }
}

#[test]
fn tunnels_deliver_what_arrives() {
    let mut download = TunnelDownload::new();
    let (_, action) = download.arrival(ArrivalEvent::Data(Bytes::from(vec![0; CHUNK + 2])));
    assert!(matches!(&action, ArrivalAction::Push(data) if data.len() == CHUNK));
    let (_, action) = download.pushed(PushEvent::Taken);
    assert!(matches!(&action, ArrivalAction::Push(data) if data.len() == 2));
    assert!(matches!(
        download.pushed(PushEvent::Taken).1,
        ArrivalAction::Poll
    ));
    assert!(matches!(
        download.arrival(ArrivalEvent::End).1,
        ArrivalAction::PollEnd
    ));
    assert!(!download.is_finished());
    assert!(matches!(
        download.closed(CloseEvent::End).1,
        ArrivalAction::Done
    ));
    assert!(download.is_finished());
}

#[test]
fn tunnel_downloads_fail_for_their_reasons() {
    assert_eq!(
        arrival_error(TunnelDownload::new().arrival(ArrivalEvent::Closed).1),
        bare(Kind::Canceled)
    );
    assert_eq!(
        arrival_error(TunnelDownload::new().arrival(ArrivalEvent::Failed(1)).1),
        outside(Kind::Http3, 1)
    );
    for (event, kind) in [
        (PushEvent::NeverReady, Kind::Closed),
        (PushEvent::Refused, Kind::Canceled),
    ] {
        let mut download = TunnelDownload::new();
        download.arrival(ArrivalEvent::Data(Bytes::from_static(b"x")));
        assert_eq!(arrival_error(download.pushed(event).1), bare(kind));
    }
    for (event, error) in [
        (CloseEvent::Closed, bare(Kind::Canceled)),
        (CloseEvent::Failed(2), outside(Kind::Http3, 2)),
    ] {
        let mut download = TunnelDownload::new();
        download.arrival(ArrivalEvent::End);
        assert_eq!(arrival_error(download.closed(event).1), error);
        assert!(!download.is_finished());
    }
}

const CLOSED: IoAction = IoAction::Return(Progress::Ready(Err(IoError::Closed)));

fn done(n: usize) -> IoAction {
    IoAction::Return(Progress::Ready(Ok(n)))
}

#[test]
fn reads_take_what_there_is() {
    let mut io = Io::new();
    assert!(read(io.poll_read(0)).is_empty());
    assert!(matches!(io.poll_read(4), ReadAction::PollFrame));
    assert!(matches!(io.frame(4, FrameEvent::Pending), ReadAction::Wait));
    assert!(matches!(
        io.frame(4, FrameEvent::Other),
        ReadAction::PollFrame
    ));
    assert!(matches!(
        io.frame(4, FrameEvent::Data(Bytes::new())),
        ReadAction::PollFrame
    ));
    let data = FrameEvent::Data(Bytes::from_static(b"abcdef"));
    assert_eq!(read(io.frame(4, data)), "abcd");
    assert_eq!(read(io.poll_read(4)), "ef");
    assert!(read(io.frame(4, FrameEvent::End)).is_empty());
    assert!(read(io.poll_read(4)).is_empty());
    let mut failed = Io::new();
    let error = bare(Kind::Closed);
    assert!(matches!(
        failed.frame(1, FrameEvent::Failed(error)),
        ReadAction::Fail(e) if e == error
    ));
    assert!(read(failed.poll_read(1)).is_empty());
}

#[test]
fn writes_go_through_the_channel() {
    let mut io = Io::new();
    assert_eq!(io.poll_write(0), done(0));
    assert_eq!(io.poll_write(5), IoAction::PollRoom);
    assert_eq!(
        io.write_room(5, RoomEvent::Pending),
        IoAction::Return(Progress::Pending)
    );
    assert_eq!(io.write_room(5, RoomEvent::Closed), CLOSED);
    assert_eq!(io.write_room(5, RoomEvent::Ready), IoAction::SubmitData(5));
    assert_eq!(
        io.write_room(CHUNK + 1, RoomEvent::Ready),
        IoAction::SubmitData(CHUNK)
    );
    assert_eq!(io.written(5, true), done(5));
    assert_eq!(io.written(5, false), CLOSED);
    io.submitted(false, true);
    assert_eq!(io.poll_write(5), IoAction::PollAck);
    assert_eq!(io.write_ack(5, AckEvent::Done), IoAction::PollRoom);
}

#[test]
fn connect_flush_and_half_close_preserve_incoming_bytes() {
    let mut io = Io::new();
    let data = FrameEvent::Data(Bytes::from_static(b"incoming"));
    assert_eq!(read(io.frame(2, data)), "in");
    // A flush, answered at once.
    assert_eq!(io.poll_barrier(), IoAction::PollRoom);
    assert_eq!(
        io.barrier_room(false, RoomEvent::Ready),
        IoAction::SubmitFlush
    );
    assert_eq!(io.submitted(false, true), IoAction::PollAck);
    assert_eq!(io.barrier_done(AckEvent::Done), done(0));
    assert_eq!(io.poll_write(1), IoAction::PollRoom);
    // An end, answered later.
    assert_eq!(
        io.barrier_room(true, RoomEvent::Ready),
        IoAction::SubmitFinish
    );
    assert_eq!(io.submitted(true, true), IoAction::PollAck);
    assert_eq!(
        io.barrier_done(AckEvent::Pending),
        IoAction::Return(Progress::Pending)
    );
    assert_eq!(io.poll_barrier(), IoAction::PollAck);
    assert_eq!(io.barrier_ack(true, AckEvent::Done), done(0));
    assert_eq!(io.poll_write(1), CLOSED);
    assert_eq!(io.poll_barrier(), done(0));
    assert_eq!(read(io.poll_read(9)), "coming");
}

#[test]
fn an_end_follows_an_unanswered_flush() {
    let mut io = Io::new();
    io.submitted(false, true);
    assert_eq!(io.barrier_ack(true, AckEvent::Done), IoAction::PollRoom);
    io.submitted(false, true);
    assert_eq!(io.barrier_ack(false, AckEvent::Done), done(0));
    io.submitted(true, true);
    assert_eq!(io.barrier_ack(false, AckEvent::Lost), CLOSED);
    io.submitted(true, true);
    let error = bare(Kind::Canceled);
    assert_eq!(
        io.barrier_ack(true, AckEvent::Failed(error)),
        IoAction::Return(Progress::Ready(Err(IoError::Failed(error))))
    );
    assert_eq!(io.submitted(true, false), CLOSED);
    assert_eq!(IoError::closed_message(), "HTTP/3 tunnel closed");
}

#[test]
fn lost_caller_cancels_the_tunnel() {
    assert_eq!(delivered(true), Ok(()));
    assert_eq!(delivered(false), Err(bare(Kind::Canceled)));
}

#[test]
fn tunnel_ends_close_one_datagram_direction() {
    assert!(TunnelUpload::new().work(WorkEvent::Finish).1.closes_datagrams());
    assert!(TunnelUpload::new().work(WorkEvent::Stopped).1.closes_datagrams());
    assert!(!TunnelUpload::new().work(WorkEvent::Flush).1.closes_datagrams());
    assert!(!TunnelUpload::new().work(WorkEvent::Closed).1.closes_datagrams());
    let mut download = TunnelDownload::new();
    assert!(!download.arrival(ArrivalEvent::End).1.closes_datagrams());
    assert!(download.closed(CloseEvent::End).1.closes_datagrams());
}
