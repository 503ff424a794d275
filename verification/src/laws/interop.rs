//! Interoperability runs: fixtures, observation, table turnover and peers.

use crate::h3::fields::decimal;
use crate::interop::churn;
use crate::interop::churn::churn_value;
use crate::interop::churn::distinct_counts;
use crate::interop::churn::value_id;
use crate::interop::fixture::colon;
use crate::interop::fixture::named;
use crate::interop::fixture::read_fixture;
use crate::interop::fixture::read_lines;
use crate::interop::fixture::strip;
use crate::interop::fixture::strip_end;
use crate::interop::fixture::strip_start;
use crate::interop::fixture::valid_name;
use crate::interop::fixture::valid_value;
use crate::interop::fixture::views;
use crate::interop::fixture::white;
use crate::interop::fixture::white_back;
use crate::interop::fixture::white_front;
use crate::interop::fixture::Field;
use crate::interop::fixture::FixtureError;
use crate::interop::fixture::FixtureView;
use crate::interop::observe::cancel_stream;
use crate::interop::observe::cancels;
use crate::interop::observe::capture;
use crate::interop::observe::encoder_stream;
use crate::interop::observe::insert_count;
use crate::interop::observe::is_dynamic;
use crate::interop::observe::lists_counts;
use crate::interop::observe::longer_prefix;
use crate::interop::observe::ReadStepView;
use crate::interop::observe::ReaderView;
use crate::interop::observe::StateView;
use crate::interop::peer::path_number;
use crate::interop::peer::unslashed;
use crate::interop::peer::Answer;
use crate::interop::peer::AnswerAction;
use crate::interop::peer::Ask;
use crate::interop::peer::Closing;
use crate::interop::peer::Drain;
use crate::interop::peer::LedgerView;
use crate::interop::peer::Run;
use crate::interop::peer::Snapshot;
use crate::laws::wire::lemma_varint_reading;
use crate::text::padded;
use crate::varint::lemma_varint_round_trip;
use crate::varint::prefix_integer;
use crate::varint::varint_decode;
use crate::varint::varint_encode;
use vstd::prelude::*;
use vstd::string::StringSliceAdditionalSpecFns;

verus! {

/// White space is what Unicode calls so: among the characters of one byte the space and the
/// controls from tab to carriage return, and among those of two and three bytes these code
/// points.
pub proof fn lemma_white_space_is_that_of_unicode(s: Seq<u8>)
    ensures
        s.len() == 1 ==> (white(s) <==> s[0] == 0x20 || 0x09 <= s[0] <= 0x0d),
        s.len() == 2 && 0xc2 <= s[0] <= 0xdf && 0x80 <= s[1] <= 0xbf ==> {
            let point = (s[0] - 0xc0) * 0x40 + (s[1] - 0x80);
            white(s) <==> point == 0x85 || point == 0xa0
        },
        s.len() == 3 && 0xe0 <= s[0] <= 0xef && 0x80 <= s[1] <= 0xbf && 0x80 <= s[2] <= 0xbf ==> {
            let point = (s[0] - 0xe0) * 0x1000 + (s[1] - 0x80) * 0x40 + (s[2] - 0x80);
            white(s) <==> point == 0x1680 || 0x2000 <= point <= 0x200a || point == 0x2028 || point
                == 0x2029 || point == 0x202f || point == 0x205f || point == 0x3000
        },
        s.len() == 0 || s.len() > 3 ==> !white(s),
{
}

proof fn lemma_strip_start(s: Seq<u8>) -> (i: int)
    ensures
        0 <= i <= s.len(),
        strip_start(s) == s.skip(i),
        white_front(strip_start(s)) == 0,
    decreases s.len(),
{
    if white_front(s) > 0 {
        let n = white_front(s) as int;
        let i = lemma_strip_start(s.skip(n));
        assert(s.skip(n).skip(i) =~= s.skip(n + i));
        n + i
    } else {
        assert(s.skip(0) =~= s);
        0
    }
}

proof fn lemma_strip_end(s: Seq<u8>) -> (n: int)
    ensures
        0 <= n <= s.len(),
        strip_end(s) == s.take(n),
        white_back(strip_end(s)) == 0,
    decreases s.len(),
{
    if white_back(s) > 0 {
        let k = white_back(s) as int;
        let n = lemma_strip_end(s.take(s.len() - k));
        assert(s.take(s.len() - k).take(n) =~= s.take(n));
        n
    } else {
        assert(s.take(s.len() as int) =~= s);
        s.len() as int
    }
}

/// Text that is stripped is a part of the text, begins and ends with no white space, and text
/// without white space at its ends stays as it is.
pub proof fn lemma_stripping_takes_white_space(s: Seq<u8>, k: int)
    ensures
        exists|i: int, j: int| 0 <= i <= j <= s.len() && strip(s) == #[trigger] s.subrange(i, j),
        1 <= k <= 3 && k <= strip(s).len() ==> !white(strip(s).take(k)) && !white(
            strip(s).skip(strip(s).len() - k),
        ),
        white_front(s) == 0 && white_back(s) == 0 ==> strip(s) == s,
{
    let i = lemma_strip_start(s);
    let front = strip_start(s);
    let n = lemma_strip_end(front);
    let t = strip(s);
    assert(t =~= s.subrange(i, i + n));
    if 1 <= k <= 3 && k <= t.len() {
        assert(t.take(k) =~= front.take(k));
        lemma_front_is_clear(front, k);
        lemma_back_is_clear(t, k);
    }
}

proof fn lemma_front_is_clear(s: Seq<u8>, k: int)
    requires
        white_front(s) == 0,
        1 <= k <= 3,
        k <= s.len(),
    ensures
        !white(s.take(k)),
{
}

proof fn lemma_back_is_clear(s: Seq<u8>, k: int)
    requires
        white_back(s) == 0,
        1 <= k <= 3,
        k <= s.len(),
    ensures
        !white(s.skip(s.len() - k)),
{
}

/// The colon that ends a name is the first one.
pub proof fn lemma_names_end_at_the_first_colon(s: Seq<u8>)
    ensures
        match colon(s) {
            Some(i) => 0 <= i < s.len() && s[i] == 0x3a && forall|k: int|
                0 <= k < i ==> #[trigger] s[k] != 0x3a,
            None => forall|k: int| 0 <= k < s.len() ==> #[trigger] s[k] != 0x3a,
        },
    decreases s.len(),
{
    if s.len() > 0 {
        let head = s.drop_last();
        lemma_names_end_at_the_first_colon(head);
        assert forall|k: int| 0 <= k < head.len() implies head[k] == s[k] by {
        }
    }
}

/// A line of a fixture: nothing and comments mean nothing, and a section begins once. Any
/// other line is a fault before the first section, and without a colon.
pub proof fn lemma_fixture_sections_begin_once(
    fixture: FixtureView,
    line: Seq<u8>,
    number: usize,
)
    ensures
        ({
            let t = strip(line);
            let request = t == "[request]".spec_bytes();
            let response = t == "[response]".spec_bytes() && !request;
            let quiet = t.len() == 0 || t[0] == 0x23;
            let field = !quiet && !request && !response;
            let read = fixture.line(line, number);
            let plain = forall|k: int| 0 <= k < t.len() ==> #[trigger] t[k] != 0x3a;
            &&& quiet ==> read == Ok::<FixtureView, FixtureError>(fixture)
            &&& !quiet && request && fixture.seen_request ==> read == Err::<
                FixtureView,
                FixtureError,
            >(FixtureError::DuplicateSection(number))
            &&& !quiet && request && !fixture.seen_request ==> read == Ok::<
                FixtureView,
                FixtureError,
            >(FixtureView { section: Some(false), seen_request: true, ..fixture })
            &&& !quiet && response && fixture.seen_response ==> read == Err::<
                FixtureView,
                FixtureError,
            >(FixtureError::DuplicateSection(number))
            &&& !quiet && response && !fixture.seen_response ==> read == Ok::<
                FixtureView,
                FixtureError,
            >(FixtureView { section: Some(true), seen_response: true, ..fixture })
            &&& field && fixture.section is None ==> read == Err::<FixtureView, FixtureError>(
                FixtureError::BeforeSection,
            )
            &&& field && fixture.section is Some && plain ==> read == Err::<
                FixtureView,
                FixtureError,
            >(FixtureError::Malformed(number))
        }),
{
    lemma_names_end_at_the_first_colon(strip(line));
}

/// Whether a field of a fixture is well formed and new among others: its name consists of
/// lower-case letters, digits and dashes, and its value of printable ASCII.
pub open spec fn is_proper(others: Seq<(Seq<u8>, Seq<u8>)>, name: Seq<u8>, value: Seq<u8>) -> bool {
    &&& name.len() > 0
    &&& forall|k: int|
        0 <= k < name.len() ==> (0x61 <= #[trigger] name[k] <= 0x7a || 0x30 <= name[k] <= 0x39
            || name[k] == 0x2d)
    &&& forall|k: int| 0 <= k < value.len() ==> 0x20 <= #[trigger] value[k] <= 0x7e
    &&& forall|k: int| 0 <= k < others.len() ==> (#[trigger] others[k]).0 != name
}

/// A field of a fixture goes to the end of its section, with the name before its first colon
/// and the value behind it without the white space around, if it is well formed and its name
/// is new there.
pub proof fn lemma_fixture_fields_are_read(
    fixture: FixtureView,
    line: Seq<u8>,
    number: usize,
    i: int,
)
    requires
        0 <= i < strip(line).len(),
        strip(line)[i] == 0x3a,
        forall|k: int| 0 <= k < i ==> #[trigger] strip(line)[k] != 0x3a,
        strip(line)[0] != 0x23,
        strip(line) != "[request]".spec_bytes(),
        strip(line) != "[response]".spec_bytes(),
        fixture.section is Some,
    ensures
        ({
            let t = strip(line);
            let (name, value) = (t.take(i), strip(t.skip(i + 1)));
            let read = fixture.line(line, number);
            let others = if fixture.section == Some(true) {
                fixture.response
            } else {
                fixture.request
            };
            let grown = others.push((name, value));
            &&& !is_proper(others, name, value) ==> read == Err::<FixtureView, FixtureError>(
                FixtureError::Invalid(number),
            )
            &&& is_proper(others, name, value) && fixture.section == Some(false) ==> read == Ok::<
                FixtureView,
                FixtureError,
            >(FixtureView { request: grown, ..fixture })
            &&& is_proper(others, name, value) && fixture.section == Some(true) ==> read == Ok::<
                FixtureView,
                FixtureError,
            >(FixtureView { response: grown, ..fixture })
        }),
{
    let t = strip(line);
    lemma_names_end_at_the_first_colon(t);
    assert(colon(t) == Some(i)) by {
        let c = colon(t)->0;
        assert(colon(t) is Some);
        assert(t[c] == 0x3a);
    }
    let (name, value) = (t.take(i), strip(t.skip(i + 1)));
    let others = fixture.current();
    lemma_proper_fields(others, name, value);
}

proof fn lemma_proper_fields(others: Seq<(Seq<u8>, Seq<u8>)>, name: Seq<u8>, value: Seq<u8>)
    ensures
        is_proper(others, name, value) == (valid_name(name) && valid_value(value) && !named(
            others,
            name,
        )),
{
}

/// Lines are read one after the other until one is at fault, counted from one.
pub proof fn lemma_fixtures_are_read_line_by_line(lines: Seq<Seq<u8>>, line: Seq<u8>)
    ensures
        read_lines(Seq::empty()) == Ok::<FixtureView, FixtureError>(
            FixtureView {
                section: None,
                seen_request: false,
                seen_response: false,
                request: Seq::empty(),
                response: Seq::empty(),
            },
        ),
        read_lines(lines.push(line)) == match read_lines(lines) {
            Ok(fixture) => fixture.line(line, (lines.len() + 1) as usize),
            Err(error) => Err(error),
        },
{
    assert(lines.push(line).drop_last() =~= lines);
}

/// A fixture is usable exactly if every line is, and both sections have from one to 63 fields.
pub proof fn lemma_fixtures_have_both_sections(source: Seq<u8>)
    ensures
        ({
            let read = read_fixture(source);
            match read_lines(crate::h3::fields::split(source, 0x0a)) {
                Err(error) => read is Err && read->Err_0 == error,
                Ok(fixture) => {
                    let (a, b) = (fixture.request.len(), fixture.response.len());
                    &&& !(1 <= a <= 63) ==> read is Err && read->Err_0
                        == FixtureError::RequestSize
                    &&& 1 <= a <= 63 && !(1 <= b <= 63) ==> read is Err && read->Err_0
                        == FixtureError::ResponseSize
                    &&& 1 <= a <= 63 && 1 <= b <= 63 ==> read is Ok && read->Ok_0 == (
                        fixture.request,
                        fixture.response,
                    )
                },
            }
        }),
{
}

/// The insert count of a request or response stream stands behind the type of its first frame,
/// which must be that of a header section, and the length of that frame. Other streams have
/// none.
pub proof fn lemma_insert_counts_follow_the_frame_header(
    id: u64,
    kind: nat,
    length: nat,
    rest: Seq<u8>,
)
    requires
        kind < 0x4000_0000_0000_0000,
        length < 0x4000_0000_0000_0000,
    ensures
        ({
            let bytes = varint_encode(kind) + (varint_encode(length) + rest);
            let count = insert_count(id, bytes);
            &&& id % 4 != 0 || kind != 1 ==> count is None
            &&& id % 4 == 0 && kind == 1 ==> count == prefix_integer(rest, 8).0
        }),
{
    let inner = varint_encode(length) + rest;
    let bytes = varint_encode(kind) + inner;
    lemma_varint_round_trip(kind, inner);
    lemma_varint_round_trip(length, rest);
    assert(bytes.skip(varint_encode(kind).len() as int) =~= inner);
    assert(inner.skip(varint_encode(length).len() as int) =~= rest);
}

/// The instructions of a decoder stream are read one after the other: one that begins with the
/// bits `01` cancels the stream whose number follows.
pub proof fn lemma_cancellations_are_found(rest: Seq<u8>, id: u64, v: nat, n: nat)
    requires
        rest.len() > 0,
        0 < n <= rest.len(),
        prefix_integer(
            rest,
            if rest[0] >= 0x80 {
                7
            } else {
                6
            },
        ) == (Some(v), n),
    ensures
        cancels(rest, id) <==> (0x40 <= rest[0] <= 0x7f && v == id) || cancels(
            rest.skip(n as int),
            id,
        ),
        !cancels(Seq::empty(), id),
{
}

/// A decoder stream begins with its type, three.
pub proof fn lemma_decoder_streams_begin_with_their_type(kind: nat, rest: Seq<u8>, id: u64)
    requires
        kind < 0x4000_0000_0000_0000,
    ensures
        cancel_stream(varint_encode(kind) + rest, id) <==> kind == 3 && cancels(rest, id),
{
    lemma_varint_round_trip(kind, rest);
    assert((varint_encode(kind) + rest).skip(varint_encode(kind).len() as int) =~= rest);
}

/// Of a stream that the client opened for itself everything is captured, and of any other the
/// first 32 bytes.
pub proof fn lemma_captures_are_what_was_written(id: u64, before: Seq<u8>, written: Seq<u8>)
    requires
        before.len() <= 32,
    ensures
        id % 4 == 2 ==> capture(id, before, written) == before + written,
        id % 4 != 2 && before.len() + written.len() <= 32 ==> capture(id, before, written)
            == before + written,
        id % 4 != 2 && before.len() + written.len() > 32 ==> capture(id, before, written) == (
        before + written).take(32),
        before.len() + written.len() <= 32 ==> longer_prefix(before, written) == before + written,
        before.len() + written.len() > 32 ==> longer_prefix(before, written) == (before
            + written).take(32),
{
    if before.len() + written.len() > 32 {
        assert((before + written).take(32) =~= before + written.take(32 - before.len()));
    }
    if before.len() == 32 {
        assert((before + written).take(32) =~= before);
        assert(written.len() == 0 ==> before + written =~= before);
    }
}

/// The peer's encoder stream is one that the peer opened for itself and that begins with the
/// number two.
pub proof fn lemma_encoder_streams_begin_with_their_type(id: u64, prefix: Seq<u8>)
    requires
        prefix.len() > 0,
        prefix[0] < 0x40,
    ensures
        encoder_stream(id, prefix) <==> id % 4 == 3 && prefix[0] == 2,
{
    lemma_varint_reading(prefix);
}

/// What the transport gave is handed on, unless it belongs to the encoder stream while that is
/// paused: then it is held back, unchanged, and handed on first once the pause is over.
pub proof fn lemma_only_the_encoder_is_held_back(
    reader: ReaderView,
    state: StateView,
    id: u64,
    bytes: Seq<u8>,
)
    requires
        reader.held is None,
    ensures
        ({
            let (after, seen, step) = reader.read(state, id, bytes);
            let prefix = longer_prefix(reader.prefix, bytes);
            let hold = state.paused && encoder_stream(id, prefix);
            &&& hold ==> step is Hold && after.held == Some(bytes) && seen.encoder_held
            &&& !hold ==> step == ReadStepView::Deliver(bytes) && after.held is None
                && seen.encoder_held == state.encoder_held
            &&& after.prefix == prefix
            &&& reader.prefix.len() < 32 ==> seen.rx == state.rx.insert(id, prefix)
            &&& reader.prefix.len() >= 32 ==> seen.rx == state.rx
            &&& seen.tx == state.tx && seen.paused == state.paused && seen.capturing
                == state.capturing && seen.pause_request == state.pause_request
        }),
        ({
            let (after, seen, step) = reader.poll(state);
            &&& after == reader && seen == state
            &&& state.capturing ==> step is Read
            &&& !state.capturing ==> step is Through
        }),
{
}

/// Bytes that are held back stay while the pause lasts, and are handed on when it is over.
pub proof fn lemma_held_bytes_wait(reader: ReaderView, state: StateView, bytes: Seq<u8>)
    requires
        reader.held == Some(bytes),
    ensures
        state.paused ==> reader.poll(state) == (
            reader,
            StateView { encoder_held: true, ..state },
            ReadStepView::Hold,
        ),
        !state.paused ==> reader.poll(state) == (
            ReaderView { held: None, ..reader },
            state,
            ReadStepView::Deliver(bytes),
        ),
{
}

/// The first sixteen requests send eight values, each twice; the next one repeats the last of
/// them, and from there on every value is again sent twice.
pub proof fn lemma_values_are_sent_twice(n: u64)
    requires
        n < 0x8000_0000_0000_0000,
    ensures
        n < 16 ==> value_id(n) == n / 2,
        value_id(16) == value_id(15),
        n >= 17 ==> value_id(n) == (n - 1) / 2,
{
}

/// The field that a request sends: sixteen digits for its value, a dash, and 256 times `x`.
pub proof fn lemma_values_are_written_out(n: u64, i: int)
    ensures
        ({
            let digits = padded(value_id(n) as nat, 16);
            let value = churn_value(n);
            &&& value.len() == digits.len() + 257
            &&& 0 <= i < digits.len() ==> value[i] == digits[i]
            &&& value[digits.len() as int] == 0x2d
            &&& digits.len() < i < value.len() ==> value[i] == 0x78
        }),
{
}

/// A count is among the different ones exactly if a stream from the first on has it and it is
/// not zero.
pub proof fn lemma_different_counts(list: Seq<(u64, u64)>, from: u64, count: u64)
    ensures
        distinct_counts(list, from).contains(count) <==> count > 0 && exists|i: int|
            0 <= i < list.len() && (#[trigger] list[i]).0 >= from && list[i].1 == count,
{
}

/// What the peer must report: of 2065 requests all but one whose headers were cut off, one
/// cancellation where there was one, and one reset for the request that was cut off.
pub proof fn lemma_reports_of_the_runs(mode: churn::Mode)
    ensures
        ({
            let report = churn::expected(mode);
            let partial = mode == churn::Mode::PartialRequest;
            let blocked = mode == churn::Mode::BlockedResponse;
            &&& report.requests + report.reset_requests == 2065
            &&& report.reset_requests == 1 <==> partial
            &&& report.canceled_streams == 1 <==> partial || blocked
            &&& report.canceled_streams <= 1 && report.reset_requests <= 1
            &&& report.stopped_responses == report.canceled_streams
        }),
{
}

/// A run: eight callers with a request each, or, with cancellation, 32 with four. Every other
/// caller, from the first on, asks for an empty body or, with cancellation, for one of 4 MiB
/// that it cuts off; the others read 128 KiB.
pub proof fn lemma_runs_ask_for_these_bodies(run: Run, caller: u64)
    ensures
        !run.cancel ==> run.caller_count() == 8 && run.round_count() == 1 && run.request_count()
            == 8,
        run.cancel ==> run.caller_count() == 32 && run.round_count() == 4 && run.request_count()
            == 128,
        caller % 2 == 1 ==> run.ask_of(caller) == (Ask { canceled: false, length: 131072 }),
        caller % 2 == 0 && !run.cancel ==> run.ask_of(caller) == (Ask {
            canceled: false,
            length: 0,
        }),
        caller % 2 == 0 && run.cancel ==> run.ask_of(caller) == (Ask {
            canceled: true,
            length: 4194304,
        }),
        run.canceled_by(run.caller_count() as nat) == if run.cancel {
            64nat
        } else {
            0
        },
        run.serves(0) && run.serves(131072) && (run.serves(4194304) <==> run.cancel),
{
    crate::interop::peer::lemma_half_of_the_requests_are_canceled(run);
}

/// The server knows no other sizes.
pub proof fn lemma_other_sizes_are_unknown(run: Run, length: u64)
    ensures
        run.serves(length) <==> length == 0 || length == 131072 || (length == 4194304
            && run.cancel),
{
}

/// Slashes at the front of a path do not matter, nor does one plus sign behind them; what is
/// left must be the digits of the size.
pub proof fn lemma_paths_are_read(path: Seq<u8>, digits: Seq<u8>, n: u64)
    requires
        digits == decimal(n as nat),
    ensures
        path.len() > 0 && path[0] != 0x2f ==> unslashed(path) == path,
        unslashed(seq![0x2fu8] + path) == unslashed(path),
        path_number(digits) == Some(n),
        path_number(seq![0x2bu8] + digits) == Some(n),
        path_number(seq![0x2fu8] + path) == path_number(path),
{
    let slashed = seq![0x2fu8] + path;
    assert(slashed.skip(1) =~= path);
    crate::h3::length::lemma_decimal(n as nat);
    assert(crate::h3::length::digit(digits[0]));
    assert(unslashed(digits) == digits);
    let plus = seq![0x2bu8] + digits;
    assert(unslashed(plus) == plus);
    assert(plus.skip(1) =~= digits);
}

/// An answer goes on piece by piece while the client takes them, and ends after the last one,
/// unless it is one that must be cut off. A client that does not take a piece has cut the
/// answer off, which only a run with cancellation may do, and only to the largest body.
pub proof fn lemma_answers_go_on(answer: Answer, run: Run)
    requires
        answer.ending || answer.left > 0,
    ensures
        answer.ending ==> answer.on_sent(run, true).1 == AnswerAction::Done(false)
            && answer.on_sent(run, false).1 == AnswerAction::Breach,
        !answer.ending && answer.left > 1 ==> answer.on_sent(run, true) == (
            Answer { left: (answer.left - 1) as u64, ..answer },
            AnswerAction::Piece,
        ),
        !answer.ending && answer.left == 1 && answer.length < 4194304 ==> answer.on_sent(run, true)
            == (Answer { left: 0, ending: true, ..answer }, AnswerAction::End),
        !answer.ending && answer.left == 1 && answer.length >= 4194304 ==> answer.on_sent(
            run,
            true,
        ).1 == AnswerAction::Breach,
        !answer.ending ==> answer.on_sent(run, false).1 == if run.cancel && answer.length
            == 4194304 {
            AnswerAction::Done(true)
        } else {
            AnswerAction::Breach
        },
{
}

/// An account changes with what happens: a request that arrives is counted, active and being
/// answered; an answer that is over is no longer running, and counted if it was cut off; a
/// stream that closes is no longer active. The run has drained when everything expected has
/// arrived and nothing is running or active.
pub proof fn lemma_accounts_follow_the_run(ledger: LedgerView, stream: u64, stopped: bool)
    requires
        ledger.accepted < u64::MAX,
        0 < ledger.running < u64::MAX,
        ledger.stopped < u64::MAX,
    ensures
        ledger.opened(stream) == (LedgerView {
            accepted: (ledger.accepted + 1) as u64,
            active: ledger.active.insert(stream),
            running: (ledger.running + 1) as u64,
            ..ledger
        }),
        ledger.answered(stopped) == (LedgerView {
            running: (ledger.running - 1) as u64,
            stopped: (ledger.stopped + if stopped { 1int } else { 0 }) as u64,
            ..ledger
        }),
        ledger.closed(stream) == (LedgerView { active: ledger.active.remove(stream), ..ledger }),
        !ledger.is_drained(),
{
}

/// The report comes exactly when the run has drained and was not reported yet; it holds the
/// requests and the answers that were cut off.
pub proof fn lemma_drained_runs_are_reported(ledger: LedgerView)
    ensures
        ({
            let drained = ledger.accepted == ledger.expected && ledger.running == 0 && forall|
                stream: u64,
            |
                !ledger.active.contains(stream);
            &&& drained && !ledger.reported ==> ledger.report().1 == Some(
                (ledger.accepted, ledger.stopped),
            ) && ledger.report().0.reported
            &&& !drained || ledger.reported ==> ledger.report() == (ledger, None::<(u64, u64)>)
        }),
{
    if forall|stream: u64| !ledger.active.contains(stream) {
        assert(ledger.active =~= Set::empty());
    }
}

/// What a snapshot of a run shows: a fault if the connection is gone or requests are missing;
/// otherwise nothing yet while streams are active; and then whether exactly the canceled
/// answers were cut off, and no request was reset.
pub proof fn lemma_snapshots_show_the_run(run: Run, s: Snapshot)
    ensures
        ({
            let canceled = if run.cancel {
                64u64
            } else {
                0
            };
            let requests = if run.cancel {
                128u64
            } else {
                8
            };
            let whole = s.live_connections == 1 && s.requests == requests;
            let right = s.canceled_streams == canceled && s.stopped_responses == canceled
                && s.reset_requests == 0;
            &&& !whole ==> run.drain(s) == Drain::Breach
            &&& whole && s.active_streams > 0 ==> run.drain(s) == Drain::Wait
            &&& whole && s.active_streams == 0 && right ==> run.drain(s) == Drain::Clean
            &&& whole && s.active_streams == 0 && !right ==> run.drain(s) == Drain::Breach
            &&& run.closing() == (Closing {
                requests: (requests + 1) as u64,
                canceled_streams: canceled,
                stopped_responses: canceled,
            })
        }),
{
    crate::interop::peer::lemma_half_of_the_requests_are_canceled(run);
}

/// A stream refers to the dynamic table exactly if its insert count is there and not zero.
pub proof fn lemma_dynamic_streams_have_a_count(m: Map<u64, Seq<u8>>, id: u64)
    ensures
        is_dynamic(m, id) <==> m.contains_key(id) && insert_count(id, m[id]) is Some
            && insert_count(id, m[id])->0 > 0,
{
}

/// An answer begins with its first piece, or with its end if it has none; the largest body
/// cannot be without pieces.
pub proof fn lemma_answers_begin(answer: Answer)
    ensures
        answer.left > 0 ==> answer.goes_on() == (answer, AnswerAction::Piece),
        answer.left == 0 && answer.length < 4194304 ==> answer.goes_on() == (
            Answer { ending: true, ..answer },
            AnswerAction::End,
        ),
        answer.left == 0 && answer.length >= 4194304 ==> answer.goes_on().1
            == AnswerAction::Breach,
{
}

/// White space before or behind some text does not matter, character by character.
pub proof fn lemma_white_space_around_does_not_matter(s: Seq<u8>, w: Seq<u8>)
    requires
        white(w),
    ensures
        strip(w + s) == strip(s),
        strip(s + w) == strip(s),
{
    let front = w + s;
    assert(front.take(w.len() as int) =~= w);
    assert(front.take(1)[0] == w[0]);
    assert(w.len() > 1 ==> front.take(1).len() == 1);
    if w.len() == 3 {
        assert(front.take(2)[0] == w[0]);
    }
    assert(white_front(front) == w.len());
    assert(front.skip(w.len() as int) =~= s);
    lemma_white_space_behind(s, w);
}

proof fn lemma_white_back(s: Seq<u8>, w: Seq<u8>)
    requires
        white(w),
    ensures
        strip_end(s + w) == strip_end(s),
{
    let t = s + w;
    let n = t.len();
    assert(t.skip(n - w.len()) =~= w);
    assert(t.skip(n - 1)[0] == w[w.len() - 1]);
    if w.len() == 3 {
        assert(t.skip(n - 2)[0] == w[1]);
    }
    assert(white_back(t) == w.len());
    assert(t.take(n - w.len()) =~= s);
}

proof fn lemma_white_space_behind(s: Seq<u8>, w: Seq<u8>)
    requires
        white(w),
    ensures
        strip(s + w) == strip(s),
    decreases s.len(),
{
    let t = s + w;
    if s.len() == 0 {
        assert(t =~= w);
        assert(w.take(w.len() as int) =~= w);
        assert(w.take(1)[0] == w[0]);
        if w.len() == 3 {
            assert(w.take(2)[0] == w[0]);
        }
        assert(white_front(w) == w.len());
        assert(w.skip(w.len() as int) =~= s);
    } else {
        lemma_front_before_white(s, w);
        if white_front(s) > 0 {
            let k = white_front(s) as int;
            assert(t.skip(k) =~= s.skip(k) + w);
            lemma_white_space_behind(s.skip(k), w);
        } else {
            lemma_white_back(s, w);
        }
    }
}

proof fn lemma_front_before_white(s: Seq<u8>, w: Seq<u8>)
    requires
        white(w),
        s.len() > 0,
    ensures
        white_front(s + w) == white_front(s),
{
    let t = s + w;
    assert(t.take(1) =~= s.take(1));
    if s.len() >= 2 {
        assert(t.take(2) =~= s.take(2));
    } else {
        assert(t.take(2)[1] == w[0]);
        assert(t.len() >= 3 ==> t.take(3)[1] == w[0]);
    }
    if s.len() >= 3 {
        assert(t.take(3) =~= s.take(3));
    } else if s.len() == 2 {
        assert(t.take(3)[2] == w[0]);
    }
}

/// An instruction of a decoder stream that breaks off cancels nothing.
pub proof fn lemma_broken_instructions_cancel_nothing(rest: Seq<u8>, id: u64)
    requires
        rest.len() > 0,
        prefix_integer(
            rest,
            if rest[0] >= 0x80 {
                7
            } else {
                6
            },
        ).0 is None,
    ensures
        !cancels(rest, id),
{
}

/// A list of insert counts holds exactly the streams that have one, each once and with its
/// count, in the order of their IDs.
pub proof fn lemma_lists_hold_every_count(
    m: Map<u64, Seq<u8>>,
    list: Seq<(u64, u64)>,
    id: u64,
    i: int,
    j: int,
)
    requires
        lists_counts(m, list),
    ensures
        m.contains_key(id) && insert_count(id, m[id]) is Some ==> exists|k: int|
            0 <= k < list.len() && #[trigger] list[k] == (id, insert_count(id, m[id])->0 as u64),
        0 <= i < list.len() ==> m.contains_key(list[i].0) && insert_count(
            list[i].0,
            m[list[i].0],
        ) == Some(list[i].1 as nat),
        0 <= i < j < list.len() ==> list[i].0 < list[j].0,
{
    if m.contains_key(id) && insert_count(id, m[id]) is Some {
        let k = choose|k: int| 0 <= k < list.len() && (#[trigger] list[k]).0 == id;
        assert(list[k] == (id, insert_count(id, m[id])->0 as u64));
    }
}

/// The fields of a fixture are what was read of them.
pub proof fn lemma_fixture_fields_are_kept(fields: Seq<Field>, i: int)
    requires
        0 <= i < fields.len(),
    ensures
        views(fields).len() == fields.len(),
        views(fields)[i] == (fields[i].name@, fields[i].value@),
{
}

} // verus!
