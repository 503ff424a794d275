//! Tunnels: what the user writes is sent, and what arrives reaches the user.

use crate::buffer::bytes_of;
use crate::error::Cause;
use crate::error::Error;
use crate::error::Kind;
use crate::h3::pace::chunks;
use crate::h3::pace::joined;
use crate::h3::pace::lemma_chunks_are_the_data;
use crate::h3::pace::lemma_joined_last;
use crate::h3::pace::lemma_joined_lists;
use crate::h3::tunnel::lemma_arrivals_reach_the_user;
use crate::h3::tunnel::pushes;
use crate::h3::tunnel::ArrivalAction;
use crate::h3::tunnel::ArrivalActionView;
use crate::h3::tunnel::ArrivalEvent;
use crate::h3::tunnel::ArrivalEventView;
use crate::h3::tunnel::ArrivalPhase;
use crate::h3::tunnel::CloseEvent;
use crate::h3::tunnel::PushEvent;
use crate::h3::tunnel::TunnelAction;
use crate::h3::tunnel::TunnelActionView;
use crate::h3::tunnel::TunnelDownloadTurn;
use crate::h3::tunnel::TunnelDownloadView;
use crate::h3::tunnel::TunnelPhase;
use crate::h3::tunnel::TunnelUploadView;
use crate::h3::tunnel::WorkEvent;
use crate::h3::tunnel::WorkEventView;
use bytes::Bytes;
use vstd::prelude::*;

verus! {

/// The bytes of each write, in order.
pub open spec fn writes(data: Seq<Bytes>) -> Seq<Seq<u8>> {
    data.map_values(|b: Bytes| bytes_of(b))
}

/// The sending side after some writes that the transport has taken, and the bytes that it
/// gave the transport.
pub open spec fn after_writes(upload: TunnelUploadView, data: Seq<Bytes>) -> (
    TunnelUploadView,
    Seq<Seq<u8>>,
)
    decreases data.len(),
{
    if data.len() == 0 {
        (upload, Seq::empty())
    } else {
        let (before, sent) = after_writes(upload, data.drop_last());
        let turn = before.on_work(WorkEvent::Data(data.last())@);
        (
            turn.upload.on_done(Ok(())).upload,
            match turn.action {
                TunnelActionView::Send(bytes) => sent.push(bytes),
                _ => sent,
            },
        )
    }
}

/// What the user writes is sent whole and in order, and the direction then waits for more
/// work, without having ended.
pub proof fn lemma_writes_are_sent_whole(upload: TunnelUploadView, data: Seq<Bytes>)
    requires
        upload.phase == TunnelPhase::Polling,
    ensures
        joined(after_writes(upload, data).1) == joined(writes(data)),
        after_writes(upload, data).0.phase == TunnelPhase::Polling,
        after_writes(upload, data).0.finished == upload.finished,
    decreases data.len(),
{
    if data.len() > 0 {
        let (before, sent) = after_writes(upload, data.drop_last());
        lemma_writes_are_sent_whole(upload, data.drop_last());
        let last = bytes_of(data.last());
        lemma_joined_last(writes(data));
        assert(writes(data).drop_last() =~= writes(data.drop_last()));
        lemma_joined_last(sent.push(last));
        assert(sent.push(last).drop_last() =~= sent);
    } else {
        assert(writes(data) =~= Seq::empty());
    }
}

/// What comes of each sort of work. Data is sent; a flush is answered at once; an end ends the
/// stream; a peer that wants no more ends the direction without a failure; without a user the
/// tunnel is canceled, and a stream that fails fails the tunnel.
pub proof fn lemma_work_is_done(upload: TunnelUploadView, data: Bytes, token: u64)
    ensures
        ({
            let turn = upload.on_work(WorkEvent::Data(data)@);
            &&& turn.action == TunnelActionView::Send(bytes_of(data))
            &&& turn.upload == (TunnelUploadView { phase: TunnelPhase::Sending, ..upload })
        }),
        ({
            let turn = upload.on_work(WorkEvent::Flush@);
            &&& turn.action is Flushed
            &&& turn.upload == (TunnelUploadView { phase: TunnelPhase::Flushing, ..upload })
        }),
        ({
            let turn = upload.on_work(WorkEvent::Finish@);
            &&& turn.action is Finish
            &&& turn.upload == (TunnelUploadView { phase: TunnelPhase::Finishing, ..upload })
        }),
        ({
            let turn = upload.on_work(WorkEvent::Stopped@);
            &&& turn.action is Stopped
            &&& turn.upload == (TunnelUploadView { phase: TunnelPhase::Ended, ..upload })
        }),
        ({
            let turn = upload.on_work(WorkEvent::Closed@);
            &&& turn.action == TunnelActionView::Fail(
                Error { kind: Kind::Canceled, cause: Cause::Absent },
            )
            &&& turn.upload == (TunnelUploadView { phase: TunnelPhase::Ended, ..upload })
        }),
        ({
            let turn = upload.on_work(WorkEvent::StopFailed(token)@);
            &&& turn.action == TunnelActionView::Fail(
                Error { kind: Kind::Http3, cause: Cause::Outside(token) },
            )
            &&& turn.upload == (TunnelUploadView { phase: TunnelPhase::Ended, ..upload })
        }),
{
}

/// After data or an answer the direction asks for more work, with a pause after every 32nd
/// piece; after the end of the stream it waits for the acknowledgment and is then over. A
/// failure at any point fails the tunnel.
pub proof fn lemma_work_goes_on(upload: TunnelUploadView, token: u64)
    requires
        upload.budget < 32,
    ensures
        upload.phase == TunnelPhase::Sending || upload.phase == TunnelPhase::Flushing ==> {
            let turn = upload.on_done(Ok(()));
            &&& turn.action is Poll
            &&& turn.upload.phase == TunnelPhase::Polling
            &&& turn.upload.finished == upload.finished
            &&& turn.pause == (upload.budget == 31)
            &&& turn.upload.budget == if upload.budget == 31 {
                0
            } else {
                (upload.budget + 1) as nat
            }
        },
        upload.phase == TunnelPhase::Finishing ==> {
            let turn = upload.on_done(Ok(()));
            &&& turn.action is AwaitAck
            &&& turn.upload.finished && turn.upload.phase == TunnelPhase::Acknowledging
        },
        upload.phase == TunnelPhase::Acknowledging ==> {
            let turn = upload.on_done(Ok(()));
            &&& turn.action is Done
            &&& turn.upload.phase == TunnelPhase::Ended && turn.upload.finished == upload.finished
        },
        upload.on_done(Err(token)).action == TunnelActionView::Fail(
            Error { kind: Kind::Http3, cause: Cause::Outside(token) },
        ),
        upload.on_done(Err(token)).upload.phase == TunnelPhase::Ended,
        upload.on_done(Err(token)).upload.finished == upload.finished,
{
}

/// The receiving side when the user has taken every chunk that follows a decision.
pub open spec fn emptied(turn: TunnelDownloadTurn) -> TunnelDownloadView
    decreases turn.download.data.len(),
{
    match turn.action {
        ArrivalActionView::Push(_) => if turn.download.data.len() == 0 {
            turn.download.on_pushed(PushEvent::Taken).download
        } else {
            emptied(turn.download.on_pushed(PushEvent::Taken))
        },
        _ => turn.download,
    }
}

/// The receiving side after some arrivals, and the chunks that the user got.
pub open spec fn after_arrivals(download: TunnelDownloadView, data: Seq<Bytes>) -> (
    TunnelDownloadView,
    Seq<Seq<u8>>,
)
    decreases data.len(),
{
    if data.len() == 0 {
        (download, Seq::empty())
    } else {
        let (before, got) = after_arrivals(download, data.drop_last());
        let turn = before.on_arrival(ArrivalEvent::Data(data.last())@);
        (emptied(turn), got + pushes(turn))
    }
}

/// What arrives reaches the user whole and in order, however it is cut.
pub proof fn lemma_arrivals_are_read_whole(download: TunnelDownloadView, data: Seq<Bytes>)
    ensures
        joined(after_arrivals(download, data).1) == joined(writes(data)),
    decreases data.len(),
{
    if data.len() > 0 {
        let (before, got) = after_arrivals(download, data.drop_last());
        let last = bytes_of(data.last());
        lemma_arrivals_are_read_whole(download, data.drop_last());
        lemma_arrivals_reach_the_user(before, last);
        lemma_chunks_are_the_data(last);
        lemma_joined_lists(got, chunks(last));
        lemma_joined_last(writes(data));
        assert(writes(data).drop_last() =~= writes(data.drop_last()));
    } else {
        assert(writes(data) =~= Seq::empty());
    }
}

/// What ends the receiving side: the end of the stream, after which it is finished; a user who
/// is gone, which cancels it; a stream that fails. Until then it is not finished.
pub proof fn lemma_arrivals_end(download: TunnelDownloadView, token: u64)
    ensures
        ({
            let turn = download.on_arrival(ArrivalEvent::End@);
            &&& turn.action is PollEnd
            &&& turn.download == (TunnelDownloadView { phase: ArrivalPhase::Closing, ..download })
        }),
        ({
            let turn = download.on_close(CloseEvent::End);
            &&& turn.action is Done
            &&& turn.download.finished && turn.download.phase == ArrivalPhase::Ended
        }),
        download.on_arrival(ArrivalEvent::Closed@).action == ArrivalActionView::Fail(
            Error { kind: Kind::Canceled, cause: Cause::Absent },
        ),
        download.on_pushed(PushEvent::Refused).action == ArrivalActionView::Fail(
            Error { kind: Kind::Canceled, cause: Cause::Absent },
        ),
        download.on_pushed(PushEvent::NeverReady).action == ArrivalActionView::Fail(
            Error { kind: Kind::Closed, cause: Cause::Absent },
        ),
        download.on_close(CloseEvent::Closed).action == ArrivalActionView::Fail(
            Error { kind: Kind::Canceled, cause: Cause::Absent },
        ),
        download.on_arrival(ArrivalEvent::Failed(token)@).action == ArrivalActionView::Fail(
            Error { kind: Kind::Http3, cause: Cause::Outside(token) },
        ),
        download.on_close(CloseEvent::Failed(token)).action == ArrivalActionView::Fail(
            Error { kind: Kind::Http3, cause: Cause::Outside(token) },
        ),
        forall|event: ArrivalEventView| #[trigger]
            download.on_arrival(event).download.finished == download.finished,
        forall|event: PushEvent| #[trigger]
            download.on_pushed(event).download.finished == download.finished,
        forall|event: CloseEvent|
            !(event is End) ==> #[trigger] download.on_close(event).download.finished
                == download.finished,
{
}

/// A failed or canceled receiving side is over.
pub proof fn lemma_failed_arrivals_are_over(
    download: TunnelDownloadView,
    arrival: ArrivalEventView,
    push: PushEvent,
    close: CloseEvent,
)
    ensures
        download.on_arrival(arrival).action is Fail ==> download.on_arrival(
            arrival,
        ).download.phase == ArrivalPhase::Ended,
        download.on_pushed(push).action is Fail ==> download.on_pushed(push).download.phase
            == ArrivalPhase::Ended,
        download.on_close(close).action is Fail ==> download.on_close(close).download.phase
            == ArrivalPhase::Ended,
{
}

/// The receiving side pauses after every 32nd piece of work, never in between: a chunk that
/// was taken counts as one, and arrived bytes that are used up as another.
pub proof fn lemma_arrivals_pause(download: TunnelDownloadView, data: Seq<u8>)
    requires
        download.budget < 32,
    ensures
        data.len() == 0 ==> {
            let turn = download.on_arrival(ArrivalEventView::Data(data));
            &&& turn.action is Poll
            &&& turn.pause == (download.budget == 31)
            &&& turn.download.budget == (download.budget + 1) % 32
        },
        data.len() > 0 ==> {
            let turn = download.on_arrival(ArrivalEventView::Data(data));
            &&& !turn.pause
            &&& turn.download.budget == download.budget
        },
        download.data.len() > 0 ==> {
            let turn = download.on_pushed(PushEvent::Taken);
            &&& turn.pause == (download.budget == 31)
            &&& turn.download.budget == (download.budget + 1) % 32
        },
        download.data.len() == 0 ==> {
            let turn = download.on_pushed(PushEvent::Taken);
            &&& turn.pause == (download.budget >= 30)
            &&& turn.download.budget == (download.budget + 2) % 32
        },
{
}

/// What a tunnel asks for and what it is told hold the bytes that are meant.
pub proof fn lemma_tunnel_bytes_are_meant(data: Bytes, error: Error)
    ensures
        WorkEvent::Data(data)@ == WorkEventView::Data(bytes_of(data)),
        ArrivalEvent::Data(data)@ == ArrivalEventView::Data(bytes_of(data)),
        TunnelAction::Send(data)@ == TunnelActionView::Send(bytes_of(data)),
        TunnelAction::Poll@ is Poll && TunnelAction::Flushed@ is Flushed,
        TunnelAction::Finish@ is Finish && TunnelAction::AwaitAck@ is AwaitAck,
        TunnelAction::Done@ is Done && TunnelAction::Stopped@ is Stopped,
        TunnelAction::Fail(error)@ == TunnelActionView::Fail(error),
        ArrivalAction::Push(data)@ == ArrivalActionView::Push(bytes_of(data)),
        ArrivalAction::Poll@ is Poll && ArrivalAction::PollEnd@ is PollEnd,
        ArrivalAction::Done@ is Done,
        ArrivalAction::Fail(error)@ == ArrivalActionView::Fail(error),
{
}

/// A tunnel's Datagrams end with its stream: sending when the user ends it or the peer wants
/// no more, receiving when the stream is over, and neither with anything else.
pub proof fn lemma_tunnel_datagrams_end_with_the_stream(up: TunnelAction, down: ArrivalAction)
    ensures
        up.ends_datagrams() <==> up is Finish || up is Stopped,
        down.ends_datagrams() <==> down is Done,
{
}

} // verus!
