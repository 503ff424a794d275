use bytes::Bytes;
use netty::interop::churn::{
    distinct, expected_report, is_clean, make_value, make_worker_value, progressed, turned_over,
    Mode, Report,
};
use netty::interop::fixture::{parse, FixtureError};
use netty::interop::observe::{ReadStep, Reader, SendLimit, State};
use netty::varint::{encode_varint, integer, varint};

#[test]
fn variable_length_integers_round_trip() {
    for (value, bytes) in [
        (0, vec![0]),
        (63, vec![63]),
        (64, vec![0x40, 64]),
        (16383, vec![0x7f, 0xff]),
        (16384, vec![0x80, 0, 0x40, 0]),
        ((1 << 30) - 1, vec![0xbf, 0xff, 0xff, 0xff]),
        (1 << 30, vec![0xc0, 0, 0, 0, 0x40, 0, 0, 0]),
        ((1 << 62) - 1, vec![0xff; 8]),
    ] {
        assert_eq!(encode_varint(value), bytes);
        let mut longer = bytes.clone();
        longer.push(9);
        let mut data = longer.as_slice();
        assert_eq!(varint(&mut data), Some(value));
        assert_eq!(data, [9]);
        let mut cut = &bytes[..bytes.len() - 1];
        assert_eq!(varint(&mut cut), None);
        assert_eq!(cut.len(), bytes.len() - 1);
    }
}

#[test]
fn prefix_integers_are_read() {
    let read = |bytes: &[u8], bits| {
        let mut data = bytes;
        (integer(&mut data, bits), data.len())
    };
    assert_eq!(read(&[10], 5), (Some(10), 0));
    assert_eq!(read(&[0xea, 1], 5), (Some(10), 1));
    assert_eq!(read(&[31, 154, 10], 5), (Some(1337), 0));
    assert_eq!(read(&[255, 0], 8), (Some(255), 0));
    assert_eq!(read(&[], 8), (None, 0));
    assert_eq!(read(&[255, 128], 8), (None, 0));
    assert_eq!(read(&[255; 12], 8), (None, 2));
}

fn send(state: &mut State, id: u64, bytes: &[u8]) {
    state.sent(id, bytes, bytes.len());
}

#[test]
fn header_sections_are_counted() {
    let mut state = State::new(false);
    send(&mut state, 8, &[1, 3, 0, 0, 0]);
    send(&mut state, 0, &[1, 3, 5, 0, 0]);
    send(&mut state, 4, &[0, 3, 5]);
    send(&mut state, 2, &[1, 3, 9]);
    assert_eq!(state.request_insert_counts(), [(0, 5), (8, 0)]);
    assert!(state.request_dynamic());
    assert!(state.response_insert_counts().is_empty());
    assert_eq!(state.dynamic(), None);
    for (id, bytes) in [(12, [1, 1, 0]), (20, [1, 1, 2]), (16, [1, 1, 7])] {
        let step = Reader::new().read(&mut state, id, Bytes::copy_from_slice(&bytes));
        assert!(matches!(step, ReadStep::Deliver(data) if data[..] == bytes));
    }
    assert_eq!(state.response_insert_counts(), [(12, 0), (16, 7), (20, 2)]);
    assert_eq!(state.dynamic(), Some(16));
    state.stop_capture();
    assert!(!state.request_dynamic());
    assert_eq!(state.poll_send(0, 5), SendLimit::Through);
}

#[test]
fn cancellations_are_found_on_decoder_streams() {
    let mut state = State::new(false);
    // A section acknowledgment, an insert count increment, a cancellation of stream 64.
    send(&mut state, 6, &[3, 0x80 | 4, 1, 0x7f, 1]);
    assert!(state.has_cancel(64));
    assert!(!state.has_cancel(63));
    assert!(!state.has_cancel(4));
    let mut encoder = State::new(false);
    send(&mut encoder, 6, &[2, 0x7f, 1]);
    assert!(!encoder.has_cancel(64));
}

#[test]
fn request_headers_stop_after_a_few_bytes() {
    let mut state = State::new(false);
    state.pause_request_headers(64);
    assert_eq!(state.poll_send(60, 100), SendLimit::Write(100));
    assert_eq!(state.poll_send(64, 5), SendLimit::Write(5));
    send(&mut state, 64, b"12345");
    assert!(!state.request_headers_partial(64));
    assert_eq!(state.poll_send(64, 100), SendLimit::Write(3));
    send(&mut state, 64, b"678");
    assert!(state.request_headers_partial(64));
    assert_eq!(state.poll_send(64, 100), SendLimit::Block);
}

#[test]
fn captures_are_bounded() {
    let mut state = State::new(false);
    state.pause_request_headers(0);
    state.sent(4, &[0; 40], 8);
    assert!(state.request_headers_partial(4));
    // Only the first bytes of a request are kept, so the last count is not seen.
    let mut long = vec![1, 60];
    long.extend_from_slice(&[255; 40]);
    let mut other = State::new(false);
    send(&mut other, 8, &long);
    assert!(other.request_insert_counts().is_empty());
}

#[test]
fn encoder_streams_are_held_while_paused() {
    let mut state = State::new(true);
    let mut reader = Reader::new();
    assert!(matches!(reader.poll_data(&mut state), ReadStep::Read));
    let bytes = Bytes::from_static(&[2, 9, 9]);
    assert!(matches!(
        reader.read(&mut state, 7, bytes.clone()),
        ReadStep::Hold
    ));
    assert!(state.encoder_is_held());
    assert!(matches!(reader.poll_data(&mut state), ReadStep::Hold));
    state.resume();
    assert!(matches!(reader.poll_data(&mut state), ReadStep::Deliver(data) if data == bytes));
    state.pause_encoder();
    assert!(!state.encoder_is_held());
    // Other streams pass.
    assert!(matches!(
        Reader::new().read(&mut state, 3, Bytes::from_static(&[0])),
        ReadStep::Deliver(_)
    ));
    state.resume();
    state.stop_capture();
    assert!(matches!(reader.poll_data(&mut state), ReadStep::Through));
}

#[test]
fn churn_values_repeat_once() {
    let value = |n| {
        let value = make_value(n);
        assert_eq!(value.len(), 16 + 1 + 256);
        assert!(value[17..].iter().all(|&b| b == b'x'));
        String::from_utf8(value[..17].to_vec()).unwrap()
    };
    assert_eq!(value(0), "0000000000000000-");
    assert_eq!(value(15), "0000000000000007-");
    assert_eq!(value(16), "0000000000000007-");
    assert_eq!(value(17), "0000000000000008-");
    assert_eq!(value(18), "0000000000000008-");
    assert_eq!(value(100_000), "0000000000049999-");
    let worker = make_worker_value(3, 12);
    assert_eq!(&worker[..20], b"03-0000000000000012-");
    assert_eq!(worker.len(), 276);
}

#[test]
fn progress_means_different_counts() {
    let list: Vec<(u64, u64)> = (0..40).map(|n| (60 + n * 4, n % 30)).collect();
    assert_eq!(distinct(&list, 0), 29);
    assert_eq!(distinct(&list, 65), 29);
    assert!(progressed(Mode::BlockedResponse, &list));
    assert!(!progressed(Mode::FixedAuthorityControl, &list));
    let fixed = vec![(64, 1), (196, 5), (200, 5), (204, 0)];
    assert!(progressed(Mode::FixedAuthorityControl, &fixed));
    assert!(!progressed(Mode::PartialRequest, &fixed));
    assert_eq!(Mode::PartialRequest.name(), "partial-request");
    assert!(Mode::SensitiveControl.sensitive());
    assert!(!Mode::FixedAuthorityControl.sensitive());
}

#[test]
fn reports_show_each_cancellation_once() {
    let counts = |mode| {
        let report = expected_report(mode);
        (
            report.requests,
            report.canceled_streams,
            report.stopped_responses,
            report.reset_requests,
        )
    };
    assert_eq!(counts(Mode::SensitiveControl), (2065, 0, 0, 0));
    assert_eq!(counts(Mode::BlockedResponse), (2065, 1, 1, 0));
    assert_eq!(counts(Mode::PartialRequest), (2064, 1, 1, 1));
}

#[test]
fn fixtures_are_read() {
    let source = "# comment\n\n [request] \nname: value: more \r\nx-1:\n[response]\nname:\ty\n";
    let fixture = parse(source).ok().unwrap();
    let text = |fields: &[netty::interop::fixture::Field]| {
        fields
            .iter()
            .map(|f| {
                (
                    String::from_utf8(f.name.clone()).unwrap(),
                    String::from_utf8(f.value.clone()).unwrap(),
                )
            })
            .collect::<Vec<_>>()
    };
    assert_eq!(
        text(&fixture.request),
        [
            ("name".to_string(), "value: more".to_string()),
            ("x-1".to_string(), String::new())
        ]
    );
    assert_eq!(
        text(&fixture.response),
        [("name".to_string(), "y".to_string())]
    );
}

#[test]
fn faulty_fixtures_are_refused() {
    let error = |source: &str| parse(source).err().unwrap();
    assert_eq!(
        error("[request]\na: b\n[request]"),
        FixtureError::DuplicateSection(3)
    );
    assert_eq!(error("a: b"), FixtureError::BeforeSection);
    assert_eq!(error("[request]\nplain"), FixtureError::Malformed(2));
    assert_eq!(error("[request]\nA: b"), FixtureError::Invalid(2));
    assert_eq!(error("[request]\na : b"), FixtureError::Invalid(2));
    assert_eq!(error("[request]\n: b"), FixtureError::Invalid(2));
    assert_eq!(error("[request]\na: \u{e9}"), FixtureError::Invalid(2));
    assert_eq!(error("[request]\na: b\na: c"), FixtureError::Invalid(3));
    assert_eq!(error(""), FixtureError::RequestSize);
    assert_eq!(error("[request]\na: b\n[response]"), FixtureError::ResponseSize);
    let mut many = String::from("[response]\na: b\n[request]\n");
    for n in 0..64 {
        many.push_str(&format!("n{n}: v\n"));
    }
    assert_eq!(error(&many), FixtureError::RequestSize);
}

#[test]
fn every_white_space_is_trimmed() {
    for space in [
        '\t', '\u{b}', '\u{c}', '\r', ' ', '\u{85}', '\u{a0}', '\u{1680}', '\u{2000}', '\u{200a}',
        '\u{2028}', '\u{2029}', '\u{202f}', '\u{205f}', '\u{3000}',
    ] {
        let source = format!(
            "{space}\n{space}{space}[request]{space}\na:{space}v w{space}{space}\n[response]\nb:c{space}"
        );
        let fixture = parse(&source).ok().unwrap();
        assert_eq!(fixture.request[0].value, b"v w");
        assert_eq!(fixture.response[0].value, b"c");
    }
    for other in ['\u{200b}', '\u{180e}', '\u{feff}', '\u{a1}'] {
        let source = format!("[request]\na: v{other}");
        assert_eq!(parse(&source).err().unwrap(), FixtureError::Invalid(2));
    }
}

#[test]
fn finished_runs_are_judged() {
    for mode in [
        Mode::FixedAuthorityControl,
        Mode::SensitiveControl,
        Mode::BlockedResponse,
        Mode::PartialRequest,
    ] {
        let report = expected_report(mode);
        assert!(is_clean(mode, report, 2001));
        assert!(!is_clean(mode, report, 2000));
        let wrong = Report {
            requests: report.requests + 1,
            ..report
        };
        assert!(!is_clean(mode, wrong, 2001));
    }
    assert!(turned_over(1969, 2001, 1001, 1001));
    assert!(!turned_over(1968, 2000, 1001, 1001));
    assert!(!turned_over(1969, 2000, 1001, 1001));
    assert!(!turned_over(1969, 2001, 1000, 1001));
    assert!(!turned_over(1969, 2001, 1001, 1000));
}

#[test]
fn captures_say_what_they_can_take() {
    let mut state = State::new(true);
    assert!(state.is_paused());
    state.resume();
    assert!(!state.is_paused());
    state.sent(0, &[0; 9], 9);
    assert!(state.may_send(0));
    state.pause_request_headers(0);
    assert!(!state.may_send(0));
    assert!(state.may_send(4));
    state.sent(2, &vec![0; 65535], 65535);
    assert!(state.has_room(2, 1));
    assert!(!state.has_room(2, 2));
    assert!(state.has_room(6, 65536));
    assert!(state.has_room(0, usize::MAX));
}
