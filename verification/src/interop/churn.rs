//! Requests that keep a QPACK dynamic table turning over, and what a run must show.

use crate::text;
use crate::text::padded;
use crate::text::repeated;
use vstd::prelude::*;

verus! {

/// What a run cancels, if anything.
#[derive(Clone, Copy, Debug, PartialEq, Eq, Structural)]
pub enum Mode {
    /// Nothing; the authority stays in the dynamic table.
    FixedAuthorityControl,
    /// Nothing; the authority is never indexed.
    SensitiveControl,
    /// A request whose response waits for the encoder stream.
    BlockedResponse,
    /// A request of whose headers only a part was sent.
    PartialRequest,
}

impl Mode {
    /// The name of the mode.
    pub open spec fn text(self) -> Seq<char> {
        match self {
            Mode::FixedAuthorityControl => "fixed-control"@,
            Mode::SensitiveControl => "sensitive-control"@,
            Mode::BlockedResponse => "blocked-response"@,
            Mode::PartialRequest => "partial-request"@,
        }
    }

    /// The name of the mode.
    pub fn name(self) -> (text: &'static str)
        ensures
            text@ == self.text(),
    {
        match self {
            Mode::FixedAuthorityControl => "fixed-control",
            Mode::SensitiveControl => "sensitive-control",
            Mode::BlockedResponse => "blocked-response",
            Mode::PartialRequest => "partial-request",
        }
    }

    /// Whether requests mark their authority as sensitive.
    pub fn sensitive(self) -> (b: bool)
        ensures
            b == (self != Mode::FixedAuthorityControl),
    {
        match self {
            Mode::FixedAuthorityControl => false,
            _ => true,
        }
    }
}

/// The value that request `n` sends. Only acknowledged entries are referred to, so each
/// value is sent twice: the first time it enters the table.
pub open spec fn value_id(n: u64) -> u64 {
    if n == 16 {
        7
    } else if n >= 17 {
        (8 + (n - 17) / 2) as u64
    } else {
        n / 2
    }
}

/// The `x-churn` field of request `n`.
pub open spec fn churn_value(n: u64) -> Seq<u8> {
    padded(value_id(n) as nat, 16) + seq![45u8] + repeated(120, 256)
}

/// The `x-churn` field of request `n`: a number of sixteen digits, a dash and a filling.
pub fn make_value(n: u64) -> (v: Vec<u8>)
    ensures
        v@ == churn_value(n),
{
    let id: u64 = if n == 16 {
        7
    } else if n >= 17 {
        8 + (n - 17) / 2
    } else {
        n / 2
    };
    let mut v: Vec<u8> = Vec::new();
    text::put_padded(&mut v, id, 16);
    v.push(45);
    text::put_repeated(&mut v, 120, 256);
    assert(v@ =~= churn_value(n));
    v
}

/// The `x-churn` field of a worker's request: its number, that of the request, a filling.
pub fn make_worker_value(worker: u32, n: u64) -> (v: Vec<u8>)
    ensures
        v@ == padded(worker as nat, 2) + seq![45u8] + padded(n as nat, 16) + seq![45u8]
            + repeated(120, 256),
{
    let mut v: Vec<u8> = Vec::new();
    text::put_padded(&mut v, worker as u64, 2);
    v.push(45);
    text::put_padded(&mut v, n, 16);
    v.push(45);
    text::put_repeated(&mut v, 120, 256);
    assert(v@ =~= padded(worker as nat, 2) + seq![45u8] + padded(n as nat, 16) + seq![45u8]
        + repeated(120, 256));
    v
}

/// Each value beyond the first requests is sent exactly twice in a row.
pub proof fn lemma_values_come_in_pairs(k: u64)
    requires
        k < 0x7000_0000_0000_0000,
    ensures
        value_id((17 + 2 * k) as u64) == value_id((18 + 2 * k) as u64),
        value_id((19 + 2 * k) as u64) == value_id((17 + 2 * k) as u64) + 1,
{
}

/// Whether a count is listed, other than zero, for a stream from `from` on.
pub open spec fn occurs(list: Seq<(u64, u64)>, from: u64, count: u64) -> bool {
    count != 0 && exists|i: int|
        0 <= i < list.len() && (#[trigger] list[i]).0 >= from && list[i].1 == count
}

/// The different insert counts, other than zero, of the streams from `from` on.
pub open spec fn distinct_counts(list: Seq<(u64, u64)>, from: u64) -> Set<u64> {
    Set::new(|count: u64| occurs(list, from, count))
}

fn holds(v: &Vec<u64>, x: u64) -> (b: bool)
    ensures
        b == v@.contains(x),
{
    for i in 0..v.len()
        invariant
            forall|k: int| 0 <= k < i ==> v@[k] != x,
    {
        if v[i] == x {
            return true;
        }
    }
    false
}

/// The number of different insert counts, other than zero, of the streams from `from` on.
pub fn distinct(list: &Vec<(u64, u64)>, from: u64) -> (n: usize)
    ensures
        n == distinct_counts(list@, from).len(),
{
    let mut seen: Vec<u64> = Vec::new();
    for i in 0..list.len()
        invariant
            seen@.no_duplicates(),
            forall|c: u64| #[trigger] seen@.contains(c) <==> occurs(list@.take(i as int), from, c),
    {
        let (id, count): (u64, u64) = list[i];
        let ghost before = seen@;
        if id >= from && count != 0 && !holds(&seen, count) {
            seen.push(count);
        }
        proof {
            let shorter = list@.take(i as int);
            let longer = list@.take(i + 1);
            assert forall|c: u64| #[trigger] seen@.contains(c) <==> occurs(longer, from, c) by {
                if seen@.contains(c) {
                    let k = choose|k: int| 0 <= k < seen@.len() && seen@[k] == c;
                    if k < before.len() {
                        assert(before.contains(c));
                        let a = choose|a: int|
                            0 <= a < shorter.len() && (#[trigger] shorter[a]).0 >= from
                                && shorter[a].1 == c;
                        assert(longer[a] == shorter[a]);
                    } else {
                        assert(longer[i as int] == (id, count));
                    }
                }
                if occurs(longer, from, c) {
                    let a = choose|a: int|
                        0 <= a < longer.len() && (#[trigger] longer[a]).0 >= from && longer[a].1
                            == c;
                    if a < i {
                        assert(shorter[a] == longer[a]);
                        assert(before.contains(c));
                        let k = choose|k: int| 0 <= k < before.len() && before[k] == c;
                        assert(seen@[k] == c);
                    } else if before.contains(count) {
                        let k = choose|k: int| 0 <= k < before.len() && before[k] == c;
                        assert(seen@[k] == c);
                    } else {
                        assert(seen@[before.len() as int] == c);
                    }
                }
            }
        }
    }
    proof {
        assert(list@.take(list@.len() as int) =~= list@);
        seen@.unique_seq_to_set();
        assert(seen@.to_set() =~= distinct_counts(list@, from));
    }
    seen.len()
}

/// The stream that is canceled, or would be.
pub const CANCELED: u64 = 64;

/// Whether the encoder has gone on after the cancellation: the insert counts move on, but
/// for the control whose table never turns over.
pub fn progressed(mode: Mode, list: &Vec<(u64, u64)>) -> (b: bool)
    ensures
        b == if mode == Mode::FixedAuthorityControl {
            distinct_counts(list@, 196).len() == 1
        } else {
            distinct_counts(list@, 65).len() >= 28
        },
{
    match mode {
        Mode::FixedAuthorityControl => distinct(list, 196) == 1,
        _ => distinct(list, CANCELED + 1) >= 28,
    }
}

/// What the peer must have counted at the end of a run.
#[derive(Clone, Copy, Debug, PartialEq, Eq, Structural)]
pub struct Report {
    pub requests: u64,
    pub canceled_streams: u64,
    pub stopped_responses: u64,
    pub reset_requests: u64,
}

/// The report that a run must end with: a request of which only a part was sent does not
/// count, and each cancellation shows once.
pub open spec fn expected(mode: Mode) -> Report {
    let partial = mode == Mode::PartialRequest;
    let canceled = partial || mode == Mode::BlockedResponse;
    Report {
        requests: if partial {
            2064
        } else {
            2065
        },
        canceled_streams: if canceled {
            1
        } else {
            0
        },
        stopped_responses: if canceled {
            1
        } else {
            0
        },
        reset_requests: if partial {
            1
        } else {
            0
        },
    }
}

/// The report that a run must end with.
pub fn expected_report(mode: Mode) -> (r: Report)
    ensures
        r == expected(mode),
{
    let (requests, canceled, reset): (u64, u64, u64) = match mode {
        Mode::PartialRequest => (2064, 1, 1),
        Mode::BlockedResponse => (2065, 1, 0),
        _ => (2065, 0, 0),
    };
    Report {
        requests,
        canceled_streams: canceled,
        stopped_responses: canceled,
        reset_requests: reset,
    }
}

/// Whether a run ended as it must: the peer counted what was expected, and nearly all its
/// responses referred to the dynamic table.
pub fn is_clean(mode: Mode, report: Report, response_sections: u64) -> (b: bool)
    ensures
        b == (report == expected(mode) && response_sections > 2000),
{
    let wanted = expected_report(mode);
    report.requests == wanted.requests && report.canceled_streams == wanted.canceled_streams
        && report.stopped_responses == wanted.stopped_responses && report.reset_requests
        == wanted.reset_requests && response_sections > 2000
}

/// The requests that fill the table before the workers start.
pub const WARMUP: u64 = 32;

/// Whether the table was turned over by many workers: more requests than the peer's first
/// credit allows, all of them counted by the peer, and more than half of the header sections
/// in each direction dynamic.
pub fn turned_over(
    complete: u64,
    requests: u64,
    request_sections: u64,
    response_sections: u64,
) -> (b: bool)
    requires
        complete <= u64::MAX - WARMUP,
    ensures
        ({
            let count = complete + WARMUP;
            b == (count > 2000 && requests == count && request_sections > count / 2
                && response_sections > count / 2)
        }),
{
    let count: u64 = complete + WARMUP;
    count > 2000 && requests == count && request_sections > count / 2 && response_sections > count
        / 2
}

} // verus!
