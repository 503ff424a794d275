use netty::interop::peer::{
    requested, Answer, AnswerAction, Ask, Closing, Drain, Ledger, Run, Snapshot, CUT, PIECE, WHOLE,
};

const PLAIN: Run = Run { cancel: false };

const CANCELING: Run = Run { cancel: true };

#[test]
fn runs_have_their_requests() {
    assert_eq!(
        (PLAIN.callers(), PLAIN.rounds(), PLAIN.expected()),
        (8, 1, 8)
    );
    assert_eq!(
        (CANCELING.callers(), CANCELING.rounds(), CANCELING.expected()),
        (32, 4, 128)
    );
    assert_eq!(PLAIN.max_concurrent_requests(), 4);
    assert_eq!(CANCELING.max_concurrent_requests(), 32);
    let ask = |canceled, length| Ask { canceled, length };
    assert_eq!(PLAIN.ask(0), ask(false, 0));
    assert_eq!(PLAIN.ask(1), ask(false, 128 * 1024));
    assert_eq!(CANCELING.ask(6), ask(true, 4 * 1024 * 1024));
    assert_eq!(CANCELING.ask(7), ask(false, 128 * 1024));
}

#[test]
fn half_of_the_requests_are_canceled() {
    assert!(PLAIN.is_clean(8, 0));
    assert!(!PLAIN.is_clean(8, 1));
    assert!(CANCELING.is_clean(128, 64));
    assert!(!CANCELING.is_clean(128, 63));
    assert!(!CANCELING.is_clean(127, 64));
}

#[test]
fn paths_name_the_size() {
    assert_eq!(requested(PLAIN, b"/0"), Some(0));
    assert_eq!(requested(PLAIN, b"/131072"), Some(WHOLE));
    assert_eq!(requested(PLAIN, b"//131072"), Some(WHOLE));
    assert_eq!(requested(PLAIN, b"/+131072"), Some(WHOLE));
    assert_eq!(requested(PLAIN, b"131072"), Some(WHOLE));
    assert_eq!(requested(PLAIN, b"/4194304"), None);
    assert_eq!(requested(CANCELING, b"/4194304"), Some(CUT));
    for path in ["", "/", "/+", "/1", "/-0", "/0x0", "/ 0", "/99999999999999999999"] {
        assert_eq!(requested(CANCELING, path.as_bytes()), None, "{path}");
    }
    for caller in 0..32 {
        let length = CANCELING.ask(caller).length;
        let path = format!("/{length}");
        assert_eq!(requested(CANCELING, path.as_bytes()), Some(length));
    }
}

#[test]
fn answers_are_sent_in_pieces() {
    let (mut answer, mut action) = Answer::start(WHOLE);
    let mut sent = 0;
    while action == AnswerAction::Piece {
        sent += PIECE;
        action = answer.sent(PLAIN, true);
    }
    assert_eq!(sent, 131072);
    assert_eq!(action, AnswerAction::End);
    assert_eq!(answer.sent(PLAIN, true), AnswerAction::Done(false));
    assert_eq!(Answer::start(0).1, AnswerAction::End);
}

#[test]
fn only_canceled_answers_are_cut_off() {
    let (mut answer, action) = Answer::start(CUT);
    assert_eq!(action, AnswerAction::Piece);
    assert_eq!(answer.sent(CANCELING, true), AnswerAction::Piece);
    assert_eq!(answer.sent(CANCELING, false), AnswerAction::Done(true));
    let (mut answer, _) = Answer::start(WHOLE);
    assert_eq!(answer.sent(CANCELING, false), AnswerAction::Breach);
    let (mut answer, mut action) = Answer::start(CUT);
    while action == AnswerAction::Piece {
        action = answer.sent(CANCELING, true);
    }
    assert_eq!(action, AnswerAction::Breach);
}

#[test]
fn drained_runs_are_reported_once() {
    let mut ledger = Ledger::new(PLAIN);
    for stream in 0..8 {
        assert_eq!(ledger.report(), None);
        assert!(ledger.opened(4 * stream));
        assert!(!ledger.opened(4 * stream));
    }
    for stream in 0..8 {
        ledger.answered(stream == 3);
        assert_eq!(ledger.report(), None);
        assert!(!ledger.is_over());
        assert!(ledger.closed(4 * stream));
        assert!(!ledger.closed(4 * stream));
    }
    assert!(ledger.is_over());
    assert_eq!(ledger.report(), Some((8, 1)));
    assert_eq!(ledger.report(), None);
}

#[test]
fn snapshots_are_judged() {
    let clean = Snapshot {
        live_connections: 1,
        requests: 128,
        active_streams: 0,
        canceled_streams: 64,
        stopped_responses: 64,
        reset_requests: 0,
    };
    assert_eq!(CANCELING.judge(clean), Drain::Clean);
    let closing = Snapshot {
        active_streams: 1,
        ..clean
    };
    assert_eq!(CANCELING.judge(closing), Drain::Wait);
    for broken in [
        Snapshot {
            live_connections: 0,
            ..clean
        },
        Snapshot {
            requests: 127,
            ..clean
        },
        Snapshot {
            canceled_streams: 63,
            ..clean
        },
        Snapshot {
            stopped_responses: 65,
            ..clean
        },
        Snapshot {
            reset_requests: 1,
            ..clean
        },
    ] {
        assert_eq!(CANCELING.judge(broken), Drain::Breach);
    }
}

#[test]
fn closing_reports_are_judged() {
    let clean = Closing {
        requests: 129,
        canceled_streams: 64,
        stopped_responses: 64,
    };
    assert!(CANCELING.judge_closing(clean));
    for broken in [
        Closing {
            requests: 128,
            ..clean
        },
        Closing {
            canceled_streams: 65,
            ..clean
        },
        Closing {
            stopped_responses: 63,
            ..clean
        },
    ] {
        assert!(!CANCELING.judge_closing(broken));
    }
    assert!(PLAIN.judge_closing(Closing {
        requests: 9,
        canceled_streams: 0,
        stopped_responses: 0,
    }));
}
