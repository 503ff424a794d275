//! What an independent server answers to a run of requests, and when the run has drained.

use crate::h3::fields::decimal;
use crate::h3::length::lemma_decimal;
use crate::h3::length::one_length;
use crate::h3::length::read_length;
use std::collections::HashSet;
use vstd::prelude::*;

verus! {

/// The bytes of one piece of an answer.
pub const PIECE: u64 = 16384;

/// The body of an answer that is read to its end.
pub const WHOLE: u64 = 131072;

/// The body of an answer that is canceled.
pub const CUT: u64 = 4194304;

/// What one caller asks for.
#[derive(Clone, Copy, Debug, PartialEq, Eq, Structural)]
pub struct Ask {
    /// Whether the caller drops the body after its first frame.
    pub canceled: bool,
    /// The size of the body.
    pub length: u64,
}

/// A run of requests over one connection.
#[derive(Clone, Copy, Debug, PartialEq, Eq, Structural)]
pub struct Run {
    /// Whether every other caller cancels.
    pub cancel: bool,
}

impl Run {
    /// How many callers there are.
    pub open spec fn caller_count(self) -> u64 {
        if self.cancel {
            32
        } else {
            8
        }
    }

    /// How many requests each caller sends, one after the other.
    pub open spec fn round_count(self) -> u64 {
        if self.cancel {
            4
        } else {
            1
        }
    }

    /// How many requests there are.
    pub open spec fn request_count(self) -> u64 {
        (self.caller_count() * self.round_count()) as u64
    }

    /// What a caller asks for. Without cancellation every other body is empty.
    pub open spec fn ask_of(self, caller: u64) -> Ask {
        if caller % 2 == 0 {
            Ask {
                canceled: self.cancel,
                length: if self.cancel {
                    CUT
                } else {
                    0
                },
            }
        } else {
            Ask { canceled: false, length: WHOLE }
        }
    }

    /// How many of the requests of the first callers are canceled.
    pub open spec fn canceled_by(self, callers: nat) -> nat
        decreases callers,
    {
        if callers == 0 {
            0
        } else {
            self.canceled_by((callers - 1) as nat) + if self.ask_of((callers - 1) as u64).canceled {
                self.round_count() as nat
            } else {
                0
            }
        }
    }

    /// Whether the server knows a body of this size.
    pub open spec fn serves(self, length: u64) -> bool {
        length == 0 || length == WHOLE || (self.cancel && length == CUT)
    }

    /// How many callers there are.
    pub fn callers(self) -> (n: u64)
        ensures
            n == self.caller_count(),
    {
        if self.cancel {
            32
        } else {
            8
        }
    }

    /// How many requests each caller sends.
    pub fn rounds(self) -> (n: u64)
        ensures
            n == self.round_count(),
    {
        if self.cancel {
            4
        } else {
            1
        }
    }

    /// How many requests there are.
    pub fn expected(self) -> (n: u64)
        ensures
            n == self.request_count(),
    {
        self.callers() * self.rounds()
    }

    /// How many requests may run at a time.
    pub fn max_concurrent_requests(self) -> (n: usize)
        ensures
            n == if self.cancel {
                32usize
            } else {
                4
            },
    {
        if self.cancel {
            32
        } else {
            4
        }
    }

    /// What a caller asks for.
    pub fn ask(self, caller: u64) -> (ask: Ask)
        ensures
            ask == self.ask_of(caller),
    {
        let canceled = self.cancel && caller % 2 == 0;
        let length: u64 = if canceled {
            CUT
        } else if caller % 2 == 0 {
            0
        } else {
            WHOLE
        };
        Ask { canceled, length }
    }

    /// Whether the server's counts at the end are those of a run in which every request
    /// arrived and exactly the canceled answers were cut off.
    pub fn is_clean(self, accepted: u64, stopped: u64) -> (b: bool)
        ensures
            b == (accepted == self.request_count() && stopped == self.canceled_by(
                self.caller_count() as nat,
            )),
    {
        proof {
            lemma_half_of_the_requests_are_canceled(self);
        }
        let expected: u64 = self.expected();
        let canceled: u64 = if self.cancel {
            expected / 2
        } else {
            0
        };
        accepted == expected && stopped == canceled
    }
}

proof fn lemma_canceled_by(run: Run, callers: nat)
    requires
        callers < 0x1_0000_0000,
    ensures
        run.canceled_by(callers) == if run.cancel {
            ((callers + 1) / 2) * run.round_count()
        } else {
            0
        },
    decreases callers,
{
    if callers > 0 {
        lemma_canceled_by(run, (callers - 1) as nat);
        if run.cancel {
            assert(((callers + 1) / 2) * 4 == ((callers / 2) * 4) + if (callers - 1) % 2 == 0 {
                4int
            } else {
                0
            });
        }
    }
}

/// Where callers cancel, half of all requests are canceled; elsewhere none is.
pub proof fn lemma_half_of_the_requests_are_canceled(run: Run)
    ensures
        run.canceled_by(run.caller_count() as nat) == if run.cancel {
            (run.request_count() / 2) as nat
        } else {
            0
        },
{
    lemma_canceled_by(run, run.caller_count() as nat);
}

/// A path without the slashes at its front.
pub open spec fn unslashed(path: Seq<u8>) -> Seq<u8>
    decreases path.len(),
{
    if path.len() > 0 && path[0] == 47 {
        unslashed(path.skip(1))
    } else {
        path
    }
}

/// The number that a path stands for: decimal digits behind slashes, with or without a plus
/// sign.
pub open spec fn path_number(path: Seq<u8>) -> Option<u64> {
    let text = unslashed(path);
    let digits = if text.len() > 0 && text[0] == 43 {
        text.skip(1)
    } else {
        text
    };
    match one_length(digits) {
        Ok(n) => Some(n),
        Err(_) => None,
    }
}

/// The path of a request for a body of this size.
pub open spec fn path_of(length: u64) -> Seq<u8> {
    seq![47u8] + decimal(length as nat)
}

/// The size that a request asks for, if the server knows it.
pub fn requested(run: Run, path: &[u8]) -> (length: Option<u64>)
    ensures
        length == match path_number(path@) {
            Some(n) if run.serves(n) => Some(n),
            _ => None,
        },
{
    let mut from: usize = 0;
    assert(path@.skip(0) =~= path@);
    while from < path.len() && path[from] == 47
        invariant
            from <= path@.len(),
            unslashed(path@.skip(from as int)) == unslashed(path@),
        decreases path@.len() - from,
    {
        assert(path@.skip(from as int).skip(1) =~= path@.skip(from + 1));
        from = from + 1;
    }
    assert(unslashed(path@) == path@.skip(from as int));
    if from < path.len() && path[from] == 43 {
        assert(path@.skip(from as int).skip(1) =~= path@.skip(from + 1));
        from = from + 1;
    }
    let digits = vstd::slice::slice_subrange(path, from, path.len());
    assert(digits@ =~= path@.skip(from as int));
    match read_length(digits) {
        Ok(n) => {
            if n == 0 || n == WHOLE || (run.cancel && n == CUT) {
                Some(n)
            } else {
                None
            }
        },
        Err(_) => None,
    }
}

/// What a caller asks for is what the server reads in the path, and the server knows it.
pub proof fn lemma_every_request_is_understood(run: Run, caller: u64)
    ensures
        path_number(path_of(run.ask_of(caller).length)) == Some(run.ask_of(caller).length),
        run.serves(run.ask_of(caller).length),
{
    let length = run.ask_of(caller).length;
    let digits = decimal(length as nat);
    lemma_decimal(length as nat);
    assert(digits.len() > 0 && crate::h3::length::digit(digits[0]));
    assert(path_of(length).skip(1) =~= digits);
    assert(unslashed(digits) == digits);
    assert(unslashed(path_of(length)) == digits);
}

/// What the server does next for a request.
#[derive(Clone, Copy, Debug, PartialEq, Eq, Structural)]
pub enum AnswerAction {
    /// Send a piece of [`PIECE`] bytes.
    Piece,
    /// End the body.
    End,
    /// The answer is over; whether the client cut it off.
    Done(bool),
    /// The client cut off an answer that it must read, or read one that it must cut off.
    Breach,
}

/// An answer that is being sent.
#[derive(Clone, Copy, Debug, PartialEq, Eq, Structural)]
pub struct Answer {
    /// The size of the body.
    pub length: u64,
    /// The pieces that are left.
    pub left: u64,
    /// Whether only the end is missing.
    pub ending: bool,
}

impl Answer {
    /// The answer and what to do when no piece is under way. A body that is canceled must not
    /// be sent in full.
    pub open spec fn goes_on(self) -> (Answer, AnswerAction) {
        if self.left > 0 {
            (self, AnswerAction::Piece)
        } else if self.length < CUT {
            (Answer { ending: true, ..self }, AnswerAction::End)
        } else {
            (self, AnswerAction::Breach)
        }
    }

    /// The answer and what to do after a piece or the end was sent, or could not be.
    pub open spec fn on_sent(self, run: Run, taken: bool) -> (Answer, AnswerAction) {
        if self.ending {
            (
                self,
                if taken {
                    AnswerAction::Done(false)
                } else {
                    AnswerAction::Breach
                },
            )
        } else if taken {
            (Answer { left: (self.left - 1) as u64, ..self }).goes_on()
        } else {
            (
                self,
                if run.cancel && self.length == CUT {
                    AnswerAction::Done(true)
                } else {
                    AnswerAction::Breach
                },
            )
        }
    }

    /// Begins an answer.
    pub fn start(length: u64) -> (r: (Answer, AnswerAction))
        ensures
            r == (Answer { length, left: length / PIECE, ending: false }).goes_on(),
    {
        let answer = Answer { length, left: length / PIECE, ending: false };
        answer.go_on()
    }

    fn go_on(self) -> (r: (Answer, AnswerAction))
        ensures
            r == self.goes_on(),
    {
        if self.left > 0 {
            (self, AnswerAction::Piece)
        } else if self.length < CUT {
            (Answer { ending: true, ..self }, AnswerAction::End)
        } else {
            (self, AnswerAction::Breach)
        }
    }

    /// Goes on after a piece or the end was sent, or could not be.
    pub fn sent(&mut self, run: Run, taken: bool) -> (action: AnswerAction)
        requires
            old(self).ending || old(self).left > 0,
        ensures
            (*final(self), action) == old(self).on_sent(run, taken),
    {
        if self.ending {
            return if taken {
                AnswerAction::Done(false)
            } else {
                AnswerAction::Breach
            };
        }
        if !taken {
            return if run.cancel && self.length == CUT {
                AnswerAction::Done(true)
            } else {
                AnswerAction::Breach
            };
        }
        let next = Answer { left: self.left - 1, ..*self };
        let (answer, action) = next.go_on();
        *self = answer;
        action
    }

    /// The answer after `n` of its pieces were taken, and what to do.
    pub open spec fn after(self, run: Run, n: nat) -> (Answer, AnswerAction)
        decreases n,
    {
        if n == 0 {
            self.goes_on()
        } else {
            self.after(run, (n - 1) as nat).0.on_sent(run, true)
        }
    }
}

proof fn lemma_pieces_left(run: Run, answer: Answer, n: nat)
    requires
        !answer.ending,
        n <= answer.left,
    ensures
        n < answer.left ==> answer.after(run, n) == (
            Answer { left: (answer.left - n) as u64, ..answer },
            AnswerAction::Piece,
        ),
        n == answer.left ==> answer.after(run, n) == (Answer { left: 0, ..answer }).goes_on(),
    decreases n,
{
    if n > 0 {
        lemma_pieces_left(run, answer, (n - 1) as nat);
    }
}

/// A body that is read to its end is sent in pieces that make up its size, and then ended.
/// One that is canceled never ends: if all its pieces are taken, the run is at fault.
pub proof fn lemma_answer_has_its_size(run: Run, length: u64, n: nat)
    requires
        run.serves(length),
        n <= length / PIECE,
    ensures
        (length / PIECE) * PIECE == length,
        ({
            let answer = Answer { length, left: length / PIECE, ending: false };
            answer.after(run, n).1 == if n < length / PIECE {
                AnswerAction::Piece
            } else if length < CUT {
                AnswerAction::End
            } else {
                AnswerAction::Breach
            }
        }),
{
    lemma_pieces_left(run, Answer { length, left: length / PIECE, ending: false }, n);
}

/// What a native server reports of itself while its connection is open.
#[derive(Clone, Copy, Debug, PartialEq, Eq, Structural)]
pub struct Snapshot {
    pub live_connections: u64,
    pub requests: u64,
    pub active_streams: u64,
    pub canceled_streams: u64,
    pub stopped_responses: u64,
    pub reset_requests: u64,
}

/// What a snapshot shows after the last answer was read or cut off.
#[derive(Clone, Copy, Debug, PartialEq, Eq, Structural)]
pub enum Drain {
    /// Streams are still closing: take another snapshot.
    Wait,
    /// All streams are closed, and the counts are right.
    Clean,
    /// The counts cannot become right any more.
    Breach,
}

impl Run {
    /// What a snapshot of this run shows.
    pub open spec fn drain(self, s: Snapshot) -> Drain {
        let canceled = self.canceled_by(self.caller_count() as nat);
        if s.live_connections != 1 || s.requests != self.request_count() {
            Drain::Breach
        } else if s.active_streams != 0 {
            Drain::Wait
        } else if s.canceled_streams == canceled && s.stopped_responses == canceled
            && s.reset_requests == 0 {
            Drain::Clean
        } else {
            Drain::Breach
        }
    }

    /// Judges a snapshot.
    pub fn judge(self, s: Snapshot) -> (drain: Drain)
        ensures
            drain == self.drain(s),
    {
        if s.live_connections != 1 || s.requests != self.expected() {
            return Drain::Breach;
        }
        if s.active_streams != 0 {
            return Drain::Wait;
        }
        if self.is_clean(s.requests, s.canceled_streams) && self.is_clean(
            s.requests,
            s.stopped_responses,
        ) && s.reset_requests == 0 {
            Drain::Clean
        } else {
            Drain::Breach
        }
    }
}

/// What a native server reports when its connection has closed.
#[derive(Clone, Copy, Debug, PartialEq, Eq, Structural)]
pub struct Closing {
    pub requests: u64,
    pub canceled_streams: u64,
    pub stopped_responses: u64,
}

impl Run {
    /// The closing report of a run after whose last snapshot one more answer was read to its
    /// end.
    pub open spec fn closing(self) -> Closing {
        let canceled = self.canceled_by(self.caller_count() as nat) as u64;
        Closing {
            requests: (self.request_count() + 1) as u64,
            canceled_streams: canceled,
            stopped_responses: canceled,
        }
    }

    /// Judges a closing report: the connection was used once more after the cancellations,
    /// and nothing else was canceled.
    pub fn judge_closing(self, report: Closing) -> (clean: bool)
        ensures
            clean == (report == self.closing()),
    {
        proof {
            lemma_half_of_the_requests_are_canceled(self);
        }
        let expected: u64 = self.expected();
        report.requests == expected + 1 && self.is_clean(expected, report.canceled_streams)
            && self.is_clean(expected, report.stopped_responses)
    }
}

/// The server's account of a run.
#[verifier::ext_equal]
pub struct LedgerView {
    /// The requests that will arrive.
    pub expected: u64,
    /// The requests that have arrived.
    pub accepted: u64,
    /// The streams that are not closed.
    pub active: Set<u64>,
    /// The answers that are being sent.
    pub running: u64,
    /// The answers that the client cut off.
    pub stopped: u64,
    /// Whether the run was reported as drained.
    pub reported: bool,
}

impl LedgerView {
    /// Nothing is left to arrive, to be sent or to be closed.
    pub open spec fn is_drained(self) -> bool {
        self.accepted == self.expected && self.active =~= Set::empty() && self.running == 0
    }

    /// The account after a request arrived on a stream that was not active.
    pub open spec fn opened(self, stream: u64) -> LedgerView {
        LedgerView {
            accepted: (self.accepted + 1) as u64,
            active: self.active.insert(stream),
            running: (self.running + 1) as u64,
            ..self
        }
    }

    /// The account after an answer is over.
    pub open spec fn answered(self, stopped: bool) -> LedgerView {
        LedgerView {
            running: (self.running - 1) as u64,
            stopped: if stopped {
                (self.stopped + 1) as u64
            } else {
                self.stopped
            },
            ..self
        }
    }

    /// The account after a stream closed.
    pub open spec fn closed(self, stream: u64) -> LedgerView {
        LedgerView { active: self.active.remove(stream), ..self }
    }

    /// The account after it was asked for its report, and the report.
    pub open spec fn report(self) -> (LedgerView, Option<(u64, u64)>) {
        if self.is_drained() && !self.reported {
            (LedgerView { reported: true, ..self }, Some((self.accepted, self.stopped)))
        } else {
            (self, None)
        }
    }
}

/// The server's account of a run.
pub struct Ledger {
    expected: u64,
    accepted: u64,
    active: HashSet<u64>,
    running: u64,
    stopped: u64,
    reported: bool,
}

impl View for Ledger {
    type V = LedgerView;

    closed spec fn view(&self) -> LedgerView {
        LedgerView {
            expected: self.expected,
            accepted: self.accepted,
            active: self.active@,
            running: self.running,
            stopped: self.stopped,
            reported: self.reported,
        }
    }
}

impl Ledger {
    /// Every answer belongs to a request, and every request has at most one.
    pub open spec fn wf(self) -> bool {
        &&& self@.running + self@.stopped <= self@.accepted
        &&& self@.active.finite()
    }

    /// The account of a run in which nothing has arrived.
    pub fn new(run: Run) -> (l: Ledger)
        ensures
            l.wf(),
            l@ == (LedgerView {
                expected: run.request_count(),
                accepted: 0,
                active: Set::empty(),
                running: 0,
                stopped: 0,
                reported: false,
            }),
    {
        Ledger {
            expected: run.expected(),
            accepted: 0,
            active: HashSet::new(),
            running: 0,
            stopped: 0,
            reported: false,
        }
    }

    /// Takes a request. Returns whether its stream is new; if not, nothing changes.
    pub fn opened(&mut self, stream: u64) -> (fresh: bool)
        requires
            old(self).wf(),
            old(self)@.accepted < u64::MAX,
        ensures
            final(self).wf(),
            fresh == !old(self)@.active.contains(stream),
            final(self)@ == if fresh {
                old(self)@.opened(stream)
            } else {
                old(self)@
            },
    {
        broadcast use vstd::std_specs::hash::group_hash_axioms;

        if self.active.contains(&stream) {
            return false;
        }
        self.active.insert(stream);
        self.accepted = self.accepted + 1;
        self.running = self.running + 1;
        true
    }

    /// Takes the end of an answer; whether the client cut it off.
    pub fn answered(&mut self, stopped: bool)
        requires
            old(self).wf(),
            old(self)@.running > 0,
        ensures
            final(self).wf(),
            final(self)@ == old(self)@.answered(stopped),
    {
        self.running = self.running - 1;
        if stopped {
            self.stopped = self.stopped + 1;
        }
    }

    /// Takes the end of a stream. Returns whether it was active; if not, nothing changes.
    pub fn closed(&mut self, stream: u64) -> (known: bool)
        requires
            old(self).wf(),
        ensures
            final(self).wf(),
            known == old(self)@.active.contains(stream),
            final(self)@ == old(self)@.closed(stream),
    {
        broadcast use vstd::std_specs::hash::group_hash_axioms;

        self.active.remove(&stream)
    }

    /// The requests that arrived and the answers that were cut off, once the run has drained.
    /// The report comes only once.
    pub fn report(&mut self) -> (r: Option<(u64, u64)>)
        requires
            old(self).wf(),
        ensures
            final(self).wf(),
            (final(self)@, r) == old(self)@.report(),
    {
        broadcast use vstd::std_specs::hash::group_hash_axioms;

        let empty = self.active.len() == 0;
        if self.accepted == self.expected && empty && self.running == 0 && !self.reported {
            self.reported = true;
            return Some((self.accepted, self.stopped));
        }
        None
    }

    /// Whether every request has arrived and every stream is closed.
    pub fn is_over(&self) -> (b: bool)
        requires
            self.wf(),
        ensures
            b == (self@.accepted == self@.expected && self@.active =~= Set::empty()),
    {
        broadcast use vstd::std_specs::hash::group_hash_axioms;

        self.accepted == self.expected && self.active.len() == 0
    }
}

/// A run is reported at most once, and only when everything that was expected has arrived
/// and nothing is left of it.
pub proof fn lemma_report_comes_once(ledger: LedgerView)
    ensures
        ledger.report().1 matches Some(counts) ==> ledger.is_drained() && counts.0
            == ledger.expected,
        ledger.reported ==> ledger.report() == (ledger, None::<(u64, u64)>),
        ledger.report().0.report().1 is None || ledger.report().1 is None,
{
}

/// A stream that opens and closes again leaves no trace but in the counts.
pub proof fn lemma_closing_undoes_opening(ledger: LedgerView, stream: u64, stopped: bool)
    requires
        !ledger.active.contains(stream),
        ledger.running < u64::MAX,
    ensures
        ledger.opened(stream).answered(stopped).closed(stream).active =~= ledger.active,
        ledger.opened(stream).answered(stopped).closed(stream).running == ledger.running,
        ledger.opened(stream).closed(stream).answered(stopped) =~= ledger.opened(stream).answered(
            stopped,
        ).closed(stream),
{
}

} // verus!
