//! The cases of a client comparison over several runtimes.

use crate::bench::samples::Samples;
use crate::bench::samples::SamplesView;
use vstd::prelude::*;

verus! {

/// How the client's tasks are spread.
#[derive(Clone, Copy, Debug, PartialEq, Eq, Structural)]
pub enum Mode {
    /// One thread, one connection.
    Single,
    /// Four threads share one connection.
    Shared,
    /// Four threads with a connection each.
    Sharded,
}

impl Mode {
    /// The name of the mode.
    pub open spec fn text(self) -> Seq<char> {
        match self {
            Mode::Single => "single"@,
            Mode::Shared => "shared"@,
            Mode::Sharded => "sharded"@,
        }
    }

    /// The name of the mode.
    pub fn name(self) -> (text: &'static str)
        ensures
            text@ == self.text(),
    {
        match self {
            Mode::Single => "single",
            Mode::Shared => "shared",
            Mode::Sharded => "sharded",
        }
    }

    pub open spec fn threads_of(self) -> usize {
        if self == Mode::Single {
            1
        } else {
            4
        }
    }

    /// The threads of the client.
    pub fn threads(self) -> (n: usize)
        ensures
            n == self.threads_of(),
    {
        match self {
            Mode::Single => 1,
            _ => 4,
        }
    }

    pub open spec fn connections_of(self) -> usize {
        if self == Mode::Sharded {
            4
        } else {
            1
        }
    }

    /// The connections of the client.
    pub fn connections(self) -> (n: usize)
        ensures
            n == self.connections_of(),
    {
        match self {
            Mode::Sharded => 4,
            _ => 1,
        }
    }
}

/// One case to measure.
#[derive(Clone, Copy, Debug, PartialEq, Eq, Structural)]
pub struct Case {
    /// Whether the protocol library is measured, and not the plain client.
    pub proto: bool,
    pub round: usize,
    pub mode: Mode,
    /// The requests that are under way at a time, over all connections.
    pub total: usize,
}

impl Case {
    /// The requests that are under way at a time on one connection.
    pub fn concurrency(&self) -> (n: usize)
        ensures
            n == self.total / self.mode.connections_of(),
    {
        self.total / self.mode.connections()
    }
}

/// The name of the protocol library in a report.
pub fn proto_name() -> (text: &'static str)
    ensures
        text@ == "wreq-proto"@,
{
    "wreq-proto"
}

/// Whether the HTTP/2 clients can be measured with bodies of this size.
pub fn admits_body(bytes: usize) -> (b: bool)
    ensures
        b == (bytes == 0 || bytes == 4096),
{
    bytes == 0 || bytes == 4096
}

/// The cases that are wanted; everything that is not given is free.
#[derive(Clone, Copy, Debug, PartialEq, Eq, Structural)]
pub struct Filter {
    pub mode: Option<Mode>,
    pub total: Option<usize>,
    pub proto: Option<bool>,
}

impl Filter {
    /// Whether a case is wanted.
    pub open spec fn admits(self, case: Case) -> bool {
        &&& self.mode is None || self.mode == Some(case.mode)
        &&& self.total is None || self.total == Some(case.total)
        &&& self.proto is None || self.proto == Some(case.proto)
    }

    fn accepts(self, case: Case) -> (b: bool)
        ensures
            b == self.admits(case),
    {
        let mode = match self.mode {
            Some(mode) => mode == case.mode,
            None => true,
        };
        let total = match self.total {
            Some(total) => total == case.total,
            None => true,
        };
        let proto = match self.proto {
            Some(proto) => proto == case.proto,
            None => true,
        };
        mode && total && proto
    }
}

/// The modes and loads of one round, in order.
pub const LOADS: usize = 11;

/// The mode of a load.
pub open spec fn load_mode(load: nat) -> Mode {
    if load < 4 {
        Mode::Single
    } else if load < 8 {
        Mode::Shared
    } else {
        Mode::Sharded
    }
}

/// The requests under way of a load. A sharded client needs at least one per connection.
pub open spec fn load_total(load: nat) -> usize {
    let step = if load < 8 {
        load % 4
    } else {
        (load - 7) as nat
    };
    if step == 0 {
        1
    } else if step == 1 {
        4
    } else if step == 2 {
        32
    } else {
        128
    }
}

/// The case at a place of the whole run: every load is measured with both clients, and the
/// client that comes first changes from round to round.
pub open spec fn case_at(k: nat) -> Case {
    let round = k / (2 * LOADS as nat);
    let load = k % (2 * LOADS as nat) / 2;
    let second = k % 2 == 1;
    Case {
        proto: second != (round % 2 == 1),
        round: round as usize,
        mode: load_mode(load),
        total: load_total(load),
    }
}

/// The wanted cases among the first `k`.
pub open spec fn plan_of(filter: Filter, k: nat) -> Seq<Case>
    decreases k,
{
    if k == 0 {
        Seq::empty()
    } else {
        let before = plan_of(filter, (k - 1) as nat);
        let case = case_at((k - 1) as nat);
        if filter.admits(case) {
            before.push(case)
        } else {
            before
        }
    }
}

/// The cases of a run, in the order in which they are measured.
pub fn plan(rounds: usize, filter: Filter) -> (cases: Vec<Case>)
    ensures
        cases@ == plan_of(filter, (rounds * 2 * LOADS) as nat),
{
    let mut cases: Vec<Case> = Vec::new();
    for round in 0..rounds
        invariant
            cases@ == plan_of(filter, (round * 2 * LOADS) as nat),
    {
        for slot in 0..22usize
            invariant
                cases@ == plan_of(filter, (round * 2 * LOADS + slot) as nat),
        {
            let load: usize = slot / 2;
            let mode = if load < 4 {
                Mode::Single
            } else if load < 8 {
                Mode::Shared
            } else {
                Mode::Sharded
            };
            let step: usize = if load < 8 {
                load % 4
            } else {
                load - 7
            };
            let total: usize = if step == 0 {
                1
            } else if step == 1 {
                4
            } else if step == 2 {
                32
            } else {
                128
            };
            let second = slot % 2 == 1;
            let odd = round % 2 == 1;
            let case = Case { proto: second != odd, round, mode, total };
            proof {
                let k = (round * 2 * LOADS + slot) as nat;
                assert(k / 22 == round && k % 22 == slot);
                assert(k % 2 == slot % 2);
                assert(case == case_at(k));
            }
            if filter.accepts(case) {
                cases.push(case);
            }
        }
    }
    cases
}

/// Every load of every round is measured with both clients.
pub proof fn lemma_both_clients_are_measured(round: nat, load: nat)
    requires
        load < LOADS,
    ensures
        ({
            let first = case_at((round * 2 * LOADS + 2 * load) as nat);
            let second = case_at((round * 2 * LOADS + 2 * load + 1) as nat);
            &&& first.mode == second.mode && first.total == second.total
            &&& first.proto != second.proto
            &&& first.proto == (round % 2 == 1)
        }),
{
    let k = (round * 22 + 2 * load) as nat;
    assert(k / 22 == round && k % 22 == 2 * load);
    assert((k + 1) / 22 == round && (k + 1) % 22 == 2 * load + 1);
    assert(k % 2 == 0);
}

/// The requests of a case divide evenly among its connections.
pub proof fn lemma_loads_divide_evenly(load: nat)
    requires
        load < LOADS,
    ensures
        load_total(load) % load_mode(load).connections_of() == 0,
        load_total(load) / load_mode(load).connections_of() > 0,
{
    let n = load_total(load);
    if load < 8 {
        assert(load_mode(load).connections_of() == 1);
        assert(n % 1 == 0 && n / 1 == n);
    } else {
        assert(load_mode(load).connections_of() == 4);
        assert(n == 4 || n == 32 || n == 128);
        assert(4usize % 4 == 0 && 32usize % 4 == 0 && 128usize % 4 == 0);
        assert(4usize / 4 == 1 && 32usize / 4 == 8 && 128usize / 4 == 32);
    }
}

/// What one worker measured, between two instants in microseconds.
pub struct Measurement {
    pub samples: Samples,
    pub started: u64,
    pub finished: u64,
}

/// The earliest start of some measurements.
pub open spec fn earliest(m: Seq<Measurement>) -> u64
    decreases m.len(),
{
    if m.len() <= 1 {
        m[0].started
    } else if m.last().started < earliest(m.drop_last()) {
        m.last().started
    } else {
        earliest(m.drop_last())
    }
}

/// The latest end of some measurements.
pub open spec fn latest(m: Seq<Measurement>) -> u64
    decreases m.len(),
{
    if m.len() <= 1 {
        m[0].finished
    } else if m.last().finished > latest(m.drop_last()) {
        m.last().finished
    } else {
        latest(m.drop_last())
    }
}

/// The samples of some measurements together.
pub open spec fn all_samples(m: Seq<Measurement>) -> nat
    decreases m.len(),
{
    if m.len() == 0 {
        0
    } else {
        all_samples(m.drop_last()) + m.last().samples@.total as nat
    }
}

/// One histogram after another added to it.
pub open spec fn merged_all(start: SamplesView, m: Seq<Measurement>) -> SamplesView
    decreases m.len(),
{
    if m.len() == 0 {
        start
    } else {
        merged_all(start, m.drop_last()).merged(m.last().samples@)
    }
}

proof fn lemma_all_samples_grow(m: Seq<Measurement>, i: int)
    requires
        0 <= i <= m.len(),
    ensures
        all_samples(m.take(i)) <= all_samples(m),
    decreases m.len(),
{
    if i == m.len() {
        assert(m.take(i) =~= m);
    } else {
        lemma_all_samples_grow(m.drop_last(), i);
        assert(m.drop_last().take(i) =~= m.take(i));
    }
}

/// Puts the measurements of all workers together: their samples, and the span from the
/// first start to the last end.
pub fn combine(measurements: Vec<Measurement>) -> (r: Measurement)
    requires
        measurements@.len() > 0,
        forall|i: int| 0 <= i < measurements@.len() ==> (#[trigger] measurements@[i]).samples.wf(),
        all_samples(measurements@) <= u64::MAX,
    ensures
        r.samples.wf(),
        r.started == earliest(measurements@),
        r.finished == latest(measurements@),
        r.samples@ == merged_all(
            (SamplesView { counts: Seq::new(1920, |i: int| 0u64), total: 0 }),
            measurements@,
        ),
{
    let ghost all = measurements@;
    let mut started: u64 = measurements[0].started;
    let mut finished: u64 = measurements[0].finished;
    let mut samples = Samples::new();
    let ghost start = samples@;
    let mut rest = measurements;
    let n: usize = rest.len();
    let mut i: usize = 0;
    assert(all.take(0) =~= Seq::empty());
    assert(all.take(1)[0] == all[0]);
    while i < n
        invariant
            n == all.len(),
            n > 0,
            i <= n,
            rest@ == all.skip(i as int),
            forall|k: int| 0 <= k < all.len() ==> (#[trigger] all[k]).samples.wf(),
            all_samples(all) <= u64::MAX,
            samples.wf(),
            start == (SamplesView { counts: Seq::new(1920, |i: int| 0u64), total: 0 }),
            samples@ == merged_all(start, all.take(i as int)),
            samples@.total == all_samples(all.take(i as int)),
            i == 0 ==> started == all[0].started && finished == all[0].finished,
            i > 0 ==> started == earliest(all.take(i as int)),
            i > 0 ==> finished == latest(all.take(i as int)),
        decreases n - i,
    {
        let m = rest.remove(0);
        proof {
            assert(m == all[i as int]);
            assert(rest@ =~= all.skip(i + 1));
            assert(all.take(i + 1).drop_last() =~= all.take(i as int));
            lemma_all_samples_grow(all, i + 1);
            assert(all.take(i + 1).last() == m);
        }
        if m.started < started {
            started = m.started;
        }
        if m.finished > finished {
            finished = m.finished;
        }
        samples.merge(m.samples);
        i = i + 1;
    }
    assert(all.take(n as int) =~= all);
    Measurement { samples, started, finished }
}

} // verus!
