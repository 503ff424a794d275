//! Uploads and downloads: what each event leads to.

use crate::buffer::bytes_of;
use crate::error::Cause;
use crate::error::Error;
use crate::error::Kind;
use crate::error::Reason;
use crate::h3::code::Code;
use crate::h3::download::on_head;
use crate::h3::download::DataEvent;
use crate::h3::download::DataEventView;
use crate::h3::download::DownloadAction;
use crate::h3::download::DownloadActionView;
use crate::h3::download::DownloadPhase;
use crate::h3::download::DownloadView;
use crate::h3::download::HeadAction;
use crate::h3::download::TrailersEvent;
use crate::h3::failure::abort_code;
use crate::h3::failure::RecvGuard;
use crate::h3::fields::values_of;
use crate::h3::length::length_of;
use crate::h3::pace::after_chunk;
use crate::h3::pace::first_chunk;
use crate::h3::upload::BodyEvent;
use crate::h3::upload::BodyEventView;
use crate::h3::upload::UploadAction;
use crate::h3::upload::UploadActionView;
use crate::h3::upload::UploadPhase;
use crate::h3::upload::UploadView;
use crate::h3::upload::WriteEvent;
use bytes::Bytes;
use vstd::prelude::*;
use vstd::string::StringSliceAdditionalSpecFns;

verus! {

/// A chunk is the first 16 KiB of some data, or all of it if there is less; the rest follows.
pub proof fn lemma_chunks_are_cut_at_16_kib(data: Seq<u8>)
    ensures
        first_chunk(data) + after_chunk(data) == data,
        data.len() >= 16384 ==> first_chunk(data).len() == 16384,
        data.len() < 16384 ==> first_chunk(data).len() == data.len(),
{
    assert(first_chunk(data) + after_chunk(data) =~= data);
}

/// Trailers are sent if none were sent before and the declared length is absent or was met,
/// and they count as sent only when the transport has taken them. After that the body is
/// asked for its end.
pub proof fn lemma_trailers_are_sent(upload: UploadView)
    requires
        !upload.trailers_sent,
        upload.remaining is None || upload.remaining == Some(0u64),
    ensures
        ({
            let turn = upload.on_body(BodyEvent::Trailers@);
            let sent = turn.upload.on_write(WriteEvent::Accepted);
            &&& turn.action is SendTrailers
            &&& turn.upload == (UploadView { phase: UploadPhase::SendingTrailers, ..upload })
            &&& sent.action is Poll
            &&& sent.upload.trailers_sent
            &&& sent.upload.phase == UploadPhase::Polling
            &&& sent.upload.remaining == upload.remaining
            &&& sent.upload.finished == upload.finished
            &&& sent.upload.on_body(BodyEvent::End@).action is Finish
        }),
{
}

/// Whatever happens, trailers count as sent only after the transport has taken them, and the
/// stream counts as ended only after it has taken the end.
pub proof fn lemma_nothing_is_sent_unasked(
    upload: UploadView,
    body: BodyEventView,
    write: WriteEvent,
    ack: Result<(), u64>,
)
    ensures
        upload.on_body(body).upload.trailers_sent == upload.trailers_sent,
        upload.on_body(body).upload.finished == upload.finished,
        upload.on_write(write).upload.trailers_sent == (upload.trailers_sent || (write is Accepted
            && upload.phase == UploadPhase::SendingTrailers)),
        upload.phase == UploadPhase::SendingData || upload.phase == UploadPhase::SendingTrailers
            ==> upload.on_write(write).upload.finished == upload.finished,
        upload.phase == UploadPhase::Finishing ==> upload.on_write(write).upload.finished == (
        upload.finished || write is Accepted),
        upload.on_ack(ack).upload.trailers_sent == upload.trailers_sent,
        upload.on_ack(ack).upload.finished == upload.finished,
        upload.on_body(body).action is Finish ==> body is End,
        upload.on_body(body).action is SendTrailers ==> body is Trailers,
        upload.on_body(body).action is SendData ==> body is Data,
{
}

/// A frame of data is sent from its first chunk on, unless trailers were sent or the declared
/// length is exceeded; the length goes down by the frame. An empty frame, and one that is
/// neither data nor trailers, only lets the body be asked again.
pub proof fn lemma_frames_are_sent(upload: UploadView, data: Bytes)
    requires
        upload.budget < 32,
        bytes_of(data).len() <= usize::MAX,
    ensures
        ({
            let size = bytes_of(data).len();
            let turn = upload.on_body(BodyEvent::Data(data)@);
            let long = upload.remaining is Some && size > upload.remaining->0;
            &&& upload.trailers_sent ==> turn.action == UploadActionView::Fail(
                Error { kind: Kind::UserBody, cause: Cause::Found(Reason::FrameAfterTrailers) },
            )
            &&& !upload.trailers_sent && long ==> turn.action == UploadActionView::Fail(
                Error { kind: Kind::UserBody, cause: Cause::Found(Reason::BodyTooLong) },
            )
            &&& !upload.trailers_sent && !long ==> {
                let remaining = match upload.remaining {
                    Some(n) => Some((n - size) as u64),
                    None => None,
                };
                &&& size > 0 ==> turn.action == UploadActionView::SendData(
                    first_chunk(bytes_of(data)),
                ) && !turn.pause && turn.upload == (UploadView {
                    remaining,
                    data: after_chunk(bytes_of(data)),
                    phase: UploadPhase::SendingData,
                    ..upload
                })
                &&& size == 0 ==> turn.action is Poll && turn.pause == (upload.budget == 31)
                    && turn.upload == (UploadView {
                    remaining,
                    data: bytes_of(data),
                    budget: ((upload.budget + 1) % 32) as nat,
                    phase: UploadPhase::Polling,
                    ..upload
                })
            }
        }),
        upload.trailers_sent ==> upload.on_body(BodyEvent::Unknown@).action
            == UploadActionView::Fail(
            Error { kind: Kind::UserBody, cause: Cause::Found(Reason::FrameAfterTrailers) },
        ),
        upload.trailers_sent ==> upload.on_body(BodyEvent::Trailers@).action
            == UploadActionView::Fail(
            Error { kind: Kind::UserBody, cause: Cause::Found(Reason::FrameAfterTrailers) },
        ),
        !upload.trailers_sent ==> {
            let turn = upload.on_body(BodyEvent::Unknown@);
            &&& turn.action is Poll && turn.pause == (upload.budget == 31)
            &&& turn.upload.remaining == upload.remaining && turn.upload.phase
                == UploadPhase::Polling
            &&& turn.upload.budget == (upload.budget + 1) % 32 && turn.upload.data.len() == 0
        },
{
}

/// A body that ends, or that has trailers, before its declared length was met fails the
/// upload; one that ends otherwise ends the stream. A body that fails, and a stream that
/// fails, fail the upload with their own errors; a peer that wants no more ends it well.
pub proof fn lemma_uploads_end(upload: UploadView, token: u64)
    ensures
        ({
            let short = upload.remaining is Some && upload.remaining->0 > 0;
            let end = upload.on_body(BodyEvent::End@);
            &&& short ==> end.action == UploadActionView::Fail(
                Error { kind: Kind::UserBody, cause: Cause::Found(Reason::BodyTooShort) },
            )
            &&& !short ==> end.action is Finish && end.upload == (UploadView {
                phase: UploadPhase::Finishing,
                ..upload
            })
            &&& short && !upload.trailers_sent ==> upload.on_body(BodyEvent::Trailers@).action
                == UploadActionView::Fail(
                Error { kind: Kind::UserBody, cause: Cause::Found(Reason::BodyTooShort) },
            )
        }),
        upload.on_body(BodyEvent::Stopped@).action is Done,
        upload.on_body(BodyEvent::Failed(token)@).action == UploadActionView::Fail(
            Error { kind: Kind::UserBody, cause: Cause::Outside(token) },
        ),
        upload.on_body(BodyEvent::StopFailed(token)@).action == UploadActionView::Fail(
            Error { kind: Kind::Http3, cause: Cause::Outside(token) },
        ),
        upload.on_write(WriteEvent::Failed(token)).action == UploadActionView::Fail(
            Error { kind: Kind::Http3, cause: Cause::Outside(token) },
        ),
        upload.on_write(WriteEvent::Terminated).action is Done,
        upload.on_ack(Err(token)).action == UploadActionView::Fail(
            Error { kind: Kind::Http3, cause: Cause::Outside(token) },
        ),
        upload.on_ack(Ok(())).action is Done,
        upload.phase == UploadPhase::Finishing ==> {
            let turn = upload.on_write(WriteEvent::Accepted);
            turn.action is AwaitAck && turn.upload == (UploadView {
                finished: true,
                phase: UploadPhase::Acknowledging,
                ..upload
            })
        },
{
}

/// A chunk that was taken is followed by the next one of its frame, and after the last one the
/// body is asked again. Every chunk, and every frame at its end, is a piece of work, and every
/// 32nd piece is followed by a pause.
pub proof fn lemma_chunks_follow_each_other(upload: UploadView)
    requires
        upload.phase == UploadPhase::SendingData,
        upload.budget < 32,
    ensures
        ({
            let turn = upload.on_write(WriteEvent::Accepted);
            &&& turn.upload.remaining == upload.remaining
            &&& upload.data.len() > 0 ==> {
                &&& turn.action == UploadActionView::SendData(first_chunk(upload.data))
                &&& turn.upload.data == after_chunk(upload.data)
                &&& turn.upload.phase == UploadPhase::SendingData
                &&& turn.pause == (upload.budget == 31)
                &&& turn.upload.budget == (upload.budget + 1) % 32
            }
            &&& upload.data.len() == 0 ==> {
                &&& turn.action is Poll
                &&& turn.upload.phase == UploadPhase::Polling
                &&& turn.pause == (upload.budget >= 30)
                &&& turn.upload.budget == (upload.budget + 2) % 32
            }
        }),
{
}

/// A decision that ends the upload leaves it ended.
pub proof fn lemma_ended_uploads_are_over(
    upload: UploadView,
    body: BodyEventView,
    write: WriteEvent,
    ack: Result<(), u64>,
)
    ensures
        upload.on_body(body).action is Done || upload.on_body(body).action is Fail
            ==> upload.on_body(body).upload.phase == UploadPhase::Ended,
        upload.on_write(write).action is Done || upload.on_write(write).action is Fail
            ==> upload.on_write(write).upload.phase == UploadPhase::Ended,
        upload.on_ack(ack).upload.phase == UploadPhase::Ended,
{
}

/// A download that may have content starts with exactly the length that the response's fields
/// declare, and with none if they declare none. Fields from which no length can be read make
/// the response malformed.
pub proof fn lemma_downloads_start_with_the_declared_length(
    guard: RecvGuard,
    status: u16,
    m: Map<Seq<u8>, Seq<Seq<u8>>>,
)
    requires
        status != 204,
        status != 304,
    ensures
        ({
            let turn = DownloadView::start(guard, false, status, m);
            match length_of(m) {
                Ok(declared) => {
                    &&& turn.action == DownloadActionView::Deliver(declared)
                    &&& turn.download.remaining == declared
                    &&& turn.download.guard == guard
                    &&& turn.download.phase == DownloadPhase::Delivering
                },
                Err(reason) => {
                    &&& turn.action == DownloadActionView::Fail(
                        Error { kind: Kind::Http3, cause: Cause::Found(reason) },
                    )
                    &&& turn.download.guard.code == Code::MessageError
                    &&& turn.download.guard.finished == guard.finished
                },
            }
        }),
{
}

/// A download that may not have content starts with the length zero, whatever the fields
/// declare; but a declared length that cannot be read, or any with status 204, makes the
/// response malformed.
pub proof fn lemma_downloads_without_content_start_empty(
    guard: RecvGuard,
    head: bool,
    status: u16,
    m: Map<Seq<u8>, Seq<Seq<u8>>>,
)
    requires
        head || status == 204 || status == 304,
    ensures
        ({
            let turn = DownloadView::start(guard, head, status, m);
            match length_of(m) {
                Ok(declared) => if status == 204 && declared is Some {
                    &&& turn.action == DownloadActionView::Fail(
                        Error { kind: Kind::Http3, cause: Cause::Found(Reason::NoContentLength) },
                    )
                    &&& turn.download.guard.code == Code::MessageError
                } else {
                    &&& turn.action == DownloadActionView::Deliver(Some(0u64))
                    &&& turn.download.remaining == Some(0u64)
                    &&& turn.download.guard == guard
                },
                Err(reason) => {
                    &&& turn.action == DownloadActionView::Fail(
                        Error { kind: Kind::Http3, cause: Cause::Found(reason) },
                    )
                    &&& turn.download.guard.code == Code::MessageError
                },
            }
        }),
{
}

/// Every status from 100 to 199 but 101 is skipped, unless it declares a length; every other
/// status but 101 is final. Every 32nd head that is skipped is followed by a pause.
pub proof fn lemma_only_informational_heads_are_skipped(
    budget: nat,
    status: u16,
    m: Map<Seq<u8>, Seq<Seq<u8>>>,
)
    requires
        budget < 32,
    ensures
        ({
            let declared = values_of(m, "content-length".spec_bytes()).len() > 0;
            let action = on_head(budget, status, m);
            &&& status < 100 || status > 199 ==> action == HeadAction::Final
            &&& status == 101 ==> action == HeadAction::Fail(
                Error { kind: Kind::Http3, cause: Cause::Found(Reason::SwitchingProtocols) },
            )
            &&& 100 <= status <= 199 && status != 101 && declared ==> action == HeadAction::Fail(
                Error { kind: Kind::Http3, cause: Cause::Found(Reason::InformationalLength) },
            )
            &&& 100 <= status <= 199 && status != 101 && !declared ==> action
                == HeadAction::Next(budget == 31)
        }),
{
}

/// A response that the caller takes is read on, and one that nobody takes is canceled. Data
/// goes to the reader from its first chunk on unless it exceeds the declared length, which
/// goes down by it.
pub proof fn lemma_data_is_handed_on(download: DownloadView, data: Bytes)
    requires
        download.budget < 32,
        bytes_of(data).len() <= usize::MAX,
    ensures
        download.on_delivered(true).action is Poll,
        download.on_delivered(true).download == (DownloadView {
            phase: DownloadPhase::Polling,
            ..download
        }),
        download.on_delivered(false).action == DownloadActionView::Fail(
            Error { kind: Kind::Canceled, cause: Cause::Absent },
        ),
        ({
            let size = bytes_of(data).len();
            let turn = download.on_data(DataEvent::Data(data)@);
            let long = download.remaining is Some && size > download.remaining->0;
            &&& long ==> turn.action == DownloadActionView::Fail(
                Error { kind: Kind::Http3, cause: Cause::Found(Reason::BodyTooLong) },
            ) && turn.download.guard.code == Code::MessageError
            &&& !long ==> {
                &&& turn.download.guard == download.guard
                &&& turn.download.remaining == match download.remaining {
                    Some(n) => Some((n - size) as u64),
                    None => None,
                }
                &&& size > 0 ==> turn.action == DownloadActionView::Push(
                    first_chunk(bytes_of(data)),
                ) && turn.download.data == after_chunk(bytes_of(data)) && !turn.pause
                    && turn.download.phase == DownloadPhase::Pushing
                &&& size == 0 ==> turn.action is Poll && turn.download.phase
                    == DownloadPhase::Polling && turn.pause == (download.budget == 31)
            }
        }),
{
}

/// A chunk that the reader took is followed by the next one, and after the last one more data
/// is asked for, with a pause after every 32nd piece of work. A reader that is gone ends the
/// download without a failure.
pub proof fn lemma_pushes_follow_each_other(download: DownloadView)
    requires
        download.phase == DownloadPhase::Pushing,
        download.budget < 32,
    ensures
        ({
            let turn = download.on_pushed(true);
            &&& turn.download.remaining == download.remaining
            &&& turn.download.guard == download.guard
            &&& download.data.len() > 0 ==> {
                &&& turn.action == DownloadActionView::Push(first_chunk(download.data))
                &&& turn.download.data == after_chunk(download.data)
                &&& turn.download.phase == DownloadPhase::Pushing
                &&& turn.pause == (download.budget == 31)
                &&& turn.download.budget == (download.budget + 1) % 32
            }
            &&& download.data.len() == 0 ==> {
                &&& turn.action is Poll
                &&& turn.download.phase == DownloadPhase::Polling
                &&& turn.pause == (download.budget >= 30)
                &&& turn.download.budget == (download.budget + 2) % 32
            }
        }),
        download.on_pushed(false).action is Abandon,
        download.on_pushed(false).download.guard == download.guard,
{
}

/// The end of the data is followed by a poll for trailers if the declared length was met, and
/// makes the response malformed if not. Trailers go to the reader, and the response is
/// complete once the reader has them, or when there are none.
pub proof fn lemma_trailers_reach_the_reader(download: DownloadView, token: u64)
    ensures
        ({
            let short = download.remaining is Some && download.remaining->0 > 0;
            let turn = download.on_data(DataEvent::End@);
            &&& short ==> turn.action == DownloadActionView::Fail(
                Error { kind: Kind::Body, cause: Cause::Found(Reason::ResponseTooShort) },
            ) && turn.download.guard.code == Code::MessageError
            &&& !short ==> turn.action is PollTrailers && turn.download == (DownloadView {
                phase: DownloadPhase::PollingTrailers,
                ..download
            })
        }),
        ({
            let turn = download.on_trailers(TrailersEvent::Trailers);
            let pushed = turn.download.on_pushed(true);
            &&& turn.action is PushTrailers
            &&& turn.download == (DownloadView {
                phase: DownloadPhase::PushingTrailers,
                ..download
            })
            &&& pushed.action is Done
            &&& pushed.download.guard.finished
        }),
        download.on_trailers(TrailersEvent::End).action is Done,
        download.on_trailers(TrailersEvent::End).download.guard.finished,
        download.on_data(DataEvent::Closed@).action is Abandon,
        download.on_trailers(TrailersEvent::Closed).action is Abandon,
        download.on_data(DataEvent::Failed(token)@).action == DownloadActionView::Fail(
            Error { kind: Kind::Http3, cause: Cause::Outside(token) },
        ),
        download.on_trailers(TrailersEvent::Failed(token)).action == DownloadActionView::Fail(
            Error { kind: Kind::Http3, cause: Cause::Outside(token) },
        ),
{
}

/// A response counts as received only when it is complete, and a download that is over stays
/// over.
pub proof fn lemma_only_complete_responses_are_finished(
    download: DownloadView,
    data: DataEventView,
    taken: bool,
    trailers: TrailersEvent,
)
    requires
        !download.guard.finished,
    ensures
        !download.on_data(data).download.guard.finished,
        !download.on_delivered(taken).download.guard.finished,
        download.on_pushed(taken).download.guard.finished <==> download.on_pushed(
            taken,
        ).action is Done,
        download.on_trailers(trailers).download.guard.finished <==> download.on_trailers(
            trailers,
        ).action is Done,
        download.on_trailers(trailers).action is Done ==> trailers is End,
        download.on_pushed(taken).action is Done ==> taken && download.phase
            != DownloadPhase::Pushing,
        download.on_data(data).action is Fail || download.on_data(data).action is Abandon
            ==> download.on_data(data).download.phase == DownloadPhase::Ended,
        download.on_pushed(taken).action is Done || download.on_pushed(taken).action is Abandon
            ==> download.on_pushed(taken).download.phase == DownloadPhase::Ended,
        !(download.on_trailers(trailers).action is PushTrailers) ==> download.on_trailers(
            trailers,
        ).download.phase == DownloadPhase::Ended,
{
}

/// A direction that is given up carries its own code, unless the request received a Datagram
/// to which it gave no meaning: then it carries that of a Datagram error. The numbers are
/// those of HTTP/3 and of HTTP Datagrams.
pub proof fn lemma_codes_of_given_up_directions(code: Code)
    ensures
        abort_code(false, code) == code,
        abort_code(true, code) == Code::DatagramError,
        Code::DatagramError.number() == 0x33,
        Code::NoError.number() == 0x100,
        Code::InternalError.number() == 0x102,
        Code::RequestCancelled.number() == 0x10c,
        Code::MessageError.number() == 0x10e,
{
}

/// What an upload asks for holds the bytes that are handed over, and what it is told holds
/// those that came.
pub proof fn lemma_upload_bytes_are_meant(data: Bytes, error: Error, token: u64)
    ensures
        BodyEvent::Data(data)@ == BodyEventView::Data(bytes_of(data)),
        BodyEvent::Trailers@ is Trailers && BodyEvent::Unknown@ is Unknown,
        BodyEvent::End@ is End && BodyEvent::Stopped@ is Stopped,
        BodyEvent::Failed(token)@ == BodyEventView::Failed(token),
        BodyEvent::StopFailed(token)@ == BodyEventView::StopFailed(token),
        UploadAction::SendData(data)@ == UploadActionView::SendData(bytes_of(data)),
        UploadAction::SendTrailers@ is SendTrailers && UploadAction::Finish@ is Finish,
        UploadAction::Poll@ is Poll && UploadAction::AwaitAck@ is AwaitAck,
        UploadAction::Done@ is Done,
        UploadAction::Fail(error)@ == UploadActionView::Fail(error),
{
}

/// What a download asks for holds the bytes that are handed over, and what it is told holds
/// those that came.
pub proof fn lemma_download_bytes_are_meant(
    data: Bytes,
    error: Error,
    token: u64,
    length: Option<u64>,
)
    ensures
        DataEvent::Data(data)@ == DataEventView::Data(bytes_of(data)),
        DataEvent::End@ is End && DataEvent::Closed@ is Closed,
        DataEvent::Failed(token)@ == DataEventView::Failed(token),
        DownloadAction::Push(data)@ == DownloadActionView::Push(bytes_of(data)),
        DownloadAction::Deliver(length)@ == DownloadActionView::Deliver(length),
        DownloadAction::Poll@ is Poll && DownloadAction::PollTrailers@ is PollTrailers,
        DownloadAction::PushTrailers@ is PushTrailers && DownloadAction::Done@ is Done,
        DownloadAction::Abandon@ is Abandon,
        DownloadAction::Fail(error)@ == DownloadActionView::Fail(error),
{
}

/// The request's Datagrams end with the stream: sending when the stream was ended, receiving
/// when the response is complete, and neither with anything else.
pub proof fn lemma_datagrams_end_with_the_stream(up: UploadAction, down: DownloadAction)
    ensures
        up.ends_datagrams() <==> up is AwaitAck,
        down.ends_datagrams() <==> down is Done,
{
}

/// An upload pauses only before it sends a chunk or asks the body again, and trailers that
/// were taken are a piece of work like any other.
pub proof fn lemma_uploads_pause_between_pieces(
    upload: UploadView,
    body: BodyEventView,
    write: WriteEvent,
    ack: Result<(), u64>,
)
    requires
        upload.budget < 32,
    ensures
        upload.on_body(body).pause ==> upload.on_body(body).action is Poll && upload.budget == 31,
        upload.on_write(write).pause ==> {
            &&& upload.on_write(write).action is Poll || upload.on_write(write).action is SendData
            &&& upload.budget >= 30
        },
        !upload.on_ack(ack).pause,
        upload.phase == UploadPhase::SendingTrailers && write is Accepted ==> {
            &&& upload.on_write(write).pause == (upload.budget == 31)
            &&& upload.on_write(write).upload.budget == (upload.budget + 1) % 32
        },
{
}

/// A download changes its receive direction only as told: a fault of the peer changes the
/// code, completeness the finish, and nothing else anything.
pub proof fn lemma_downloads_keep_their_direction(
    download: DownloadView,
    data: DataEventView,
    taken: bool,
    trailers: TrailersEvent,
)
    ensures
        download.on_data(data).download.guard == download.guard || (download.on_data(
            data,
        ).action is Fail && !(data is Failed) && download.on_data(data).download.guard == (
        RecvGuard { code: Code::MessageError, ..download.guard })),
        download.on_delivered(taken).download.guard == download.guard,
        download.on_pushed(taken).download.guard == if download.on_pushed(taken).action is Done {
            RecvGuard { finished: true, ..download.guard }
        } else {
            download.guard
        },
        download.on_trailers(trailers).download.guard == if trailers is End {
            RecvGuard { finished: true, ..download.guard }
        } else {
            download.guard
        },
        download.phase == DownloadPhase::PushingTrailers && taken ==> download.on_pushed(
            taken,
        ).action is Done,
{
}

} // verus!
