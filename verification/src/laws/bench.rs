//! Measurements: histograms, plans and comparisons.

use crate::bench::accuracy::histogram;
use crate::bench::accuracy::lemma_count_of_bucket;
use crate::bench::comparison::filled;
use crate::bench::comparison::Client;
use crate::bench::comparison::Diagnostics;
use crate::bench::matrix::all_samples;
use crate::bench::matrix::case_at;
use crate::bench::matrix::earliest;
use crate::bench::matrix::latest;
use crate::bench::matrix::load_mode;
use crate::bench::matrix::load_total;
use crate::bench::matrix::merged_all;
use crate::bench::matrix::plan_of;
use crate::bench::matrix::Case;
use crate::bench::matrix::Filter;
use crate::bench::matrix::Measurement;
use crate::bench::matrix::Mode;
use crate::bench::samples::bucket;
use crate::bench::samples::clamped;
use crate::bench::samples::lemma_bucket_holds_its_numbers;
use crate::bench::samples::lower_end;
use crate::bench::samples::sum;
use crate::bench::samples::upper_end;
use crate::bench::samples::SamplesView;
use vstd::prelude::*;

verus! {

/// Times below 64 microseconds have a bucket each, and from there on a time shares its bucket
/// with those that differ from it less than doubling would: twice the time is 32 buckets on.
pub proof fn lemma_buckets_double(n: nat)
    ensures
        n < 64 ==> bucket(n) == n,
        n >= 64 ==> bucket(n) == bucket(n / 2) + 32,
{
}

/// A time that is recorded adds one to its bucket and to the total, and to nothing else. One
/// that does not fit 64 bits counts as the largest that does.
pub proof fn lemma_recording_adds_one(samples: SamplesView, micros: u128, i: int)
    requires
        samples.counts.len() == 1920,
        samples.total < u64::MAX,
        forall|k: int| 0 <= k < 1920 ==> #[trigger] samples.counts[k] < u64::MAX,
        0 <= i < 1920,
    ensures
        ({
            let time = if micros < 0x1_0000_0000_0000_0000 {
                micros as nat
            } else {
                0xffff_ffff_ffff_ffff
            };
            let after = samples.recorded(clamped(micros));
            &&& after.total == samples.total + 1
            &&& after.counts[i] == samples.counts[i] + if i == bucket(time) {
                1int
            } else {
                0
            }
        }),
{
    lemma_bucket_holds_its_numbers(clamped(micros) as u64);
}

/// Two histograms that are merged are the histogram of all their times together.
pub proof fn lemma_merged_histograms_hold_both(first: Seq<u64>, second: Seq<u64>)
    requires
        first.len() + second.len() <= u64::MAX,
    ensures
        histogram(first).merged(histogram(second)) == histogram(first + second),
    decreases second.len(),
{
    lemma_count_of_bucket(first, 0);
    lemma_count_of_bucket(second, 0);
    lemma_count_of_bucket(first + second, 0);
    if second.len() == 0 {
        assert(first + second =~= first);
        assert(histogram(first).merged(histogram(second)).counts =~= histogram(first).counts) by {
            assert forall|k: int| 0 <= k < 1920 implies histogram(second).counts[k] == 0 by {
            }
        }
    } else {
        let head = second.drop_last();
        let b = bucket(second.last() as nat);
        lemma_bucket_holds_its_numbers(second.last());
        lemma_merged_histograms_hold_both(first, head);
        assert((first + second).drop_last() =~= first + head);
        lemma_count_of_bucket(head, b);
        lemma_count_of_bucket(first, b);
        lemma_count_of_bucket(first + head, b);
        let left = histogram(first).merged(histogram(second));
        let right = histogram(first + second);
        assert forall|k: int| 0 <= k < 1920 implies left.counts[k] == right.counts[k] by {
            assert(histogram(first).merged(histogram(head)).counts[k] == histogram(
                first + head,
            ).counts[k]);
            lemma_count_of_bucket(head, k);
            lemma_count_of_bucket(first, k);
            lemma_count_of_bucket(first + head, k);
        }
        assert(left.counts =~= right.counts);
    }
}

/// The rank of a percentage is the smallest number of samples that is at least that share of
/// all.
pub proof fn lemma_ranks_round_up(samples: SamplesView, percent: u64)
    requires
        percent <= 100,
    ensures
        samples.rank(percent) * 100 >= samples.total * percent,
        samples.rank(percent) > 0 ==> (samples.rank(percent) - 1) * 100 < samples.total * percent,
{
    let n = samples.total * percent;
    assert(0 <= n <= samples.total * 100) by (nonlinear_arith)
        requires
            n == samples.total * percent,
            percent <= 100,
    ;
    assert(samples.rank(percent) == (n + 99) / 100);
}

/// The bucket that a percentage reaches is the first up to which there are enough samples, and
/// there is only one such bucket.
pub proof fn lemma_only_one_bucket_is_reached(samples: SamplesView, rank: u64, i: int, j: int)
    requires
        samples.reaches(rank, i),
        samples.reaches(rank, j),
    ensures
        i == j,
        sum(samples.counts.take(i + 1)) >= rank,
        i > 0 ==> sum(samples.counts.take(i)) < rank,
{
    lemma_sums_grow(samples.counts, i + 1, j);
    lemma_sums_grow(samples.counts, j + 1, i);
}

proof fn lemma_sums_grow(counts: Seq<u64>, i: int, j: int)
    requires
        0 <= i,
        j <= counts.len(),
    ensures
        i <= j ==> sum(counts.take(i)) <= sum(counts.take(j)),
    decreases j - i,
{
    if i < j {
        lemma_sums_grow(counts, i, j - 1);
        assert(counts.take(j).drop_last() =~= counts.take(j - 1));
    }
}

/// The span of some measurements begins with the first start and ends with the last end: no
/// measurement lies outside, and some measurement reaches each end of it.
pub proof fn lemma_spans_hold_all_measurements(m: Seq<Measurement>, i: int)
    requires
        m.len() > 0,
        0 <= i < m.len(),
    ensures
        earliest(m) <= m[i].started,
        latest(m) >= m[i].finished,
        exists|k: int| 0 <= k < m.len() && (#[trigger] m[k]).started == earliest(m),
        exists|k: int| 0 <= k < m.len() && (#[trigger] m[k]).finished == latest(m),
    decreases m.len(),
{
    if m.len() == 1 {
        assert(m[0].started == earliest(m) && m[0].finished == latest(m));
    } else {
        let head = m.drop_last();
        let j = if i < head.len() {
            i
        } else {
            0
        };
        lemma_spans_hold_all_measurements(head, j);
        let a = choose|k: int| 0 <= k < head.len() && (#[trigger] head[k]).started
            == earliest(head);
        let b = choose|k: int| 0 <= k < head.len() && (#[trigger] head[k]).finished
            == latest(head);
        assert(m[a].started == earliest(head) && m[b].finished == latest(head));
        let last = m.len() - 1;
        assert(m[last].started == m.last().started && m[last].finished == m.last().finished);
        assert(j == i || i == last);
        assert(head[j] == m[j]);
    }
}

/// All samples of some measurements are in the combined histogram.
pub proof fn lemma_combined_totals_add_up(start: SamplesView, m: Seq<Measurement>)
    requires
        start.total + all_samples(m) <= u64::MAX,
    ensures
        merged_all(start, m).total == start.total + all_samples(m),
        m.len() == 0 ==> merged_all(start, m) == start,
        m.len() > 0 ==> merged_all(start, m) == merged_all(start, m.drop_last()).merged(
            m.last().samples@,
        ),
    decreases m.len(),
{
    if m.len() > 0 {
        lemma_combined_totals_add_up(start, m.drop_last());
    }
}

/// The loads of a round: one, four, 32 and 128 requests at a time for a client with one thread
/// and for one whose threads share a connection, and four, 32 and 128 for one with a
/// connection for each thread.
pub proof fn lemma_loads_of_a_round()
    ensures
        load_mode(0) == Mode::Single && load_total(0) == 1,
        load_mode(1) == Mode::Single && load_total(1) == 4,
        load_mode(2) == Mode::Single && load_total(2) == 32,
        load_mode(3) == Mode::Single && load_total(3) == 128,
        load_mode(4) == Mode::Shared && load_total(4) == 1,
        load_mode(5) == Mode::Shared && load_total(5) == 4,
        load_mode(6) == Mode::Shared && load_total(6) == 32,
        load_mode(7) == Mode::Shared && load_total(7) == 128,
        load_mode(8) == Mode::Sharded && load_total(8) == 4,
        load_mode(9) == Mode::Sharded && load_total(9) == 32,
        load_mode(10) == Mode::Sharded && load_total(10) == 128,
        Mode::Single.threads_of() == 1 && Mode::Single.connections_of() == 1,
        Mode::Shared.threads_of() == 4 && Mode::Shared.connections_of() == 1,
        Mode::Sharded.threads_of() == 4 && Mode::Sharded.connections_of() == 4,
{
}

/// The cases of a run come round by round and load by load, each load with both clients, the
/// plain one first in even rounds.
pub proof fn lemma_cases_come_in_order(round: nat, load: nat, second: bool)
    requires
        load < 11,
        round <= usize::MAX,
    ensures
        case_at((22 * round + 2 * load + if second { 1int } else { 0 }) as nat) == (Case {
            proto: if round % 2 == 0 {
                second
            } else {
                !second
            },
            round: round as usize,
            mode: load_mode(load),
            total: load_total(load),
        }),
{
    let k = (22 * round + 2 * load + if second {
        1int
    } else {
        0
    }) as nat;
    assert(k / 22 == round);
    assert(k % 22 == 2 * load + if second {
        1int
    } else {
        0
    });
    assert(k % 22 / 2 == load);
    assert((k % 2 == 1) == second);
}

/// A case is wanted exactly if it agrees with everything that the filter gives.
pub proof fn lemma_filters_select(filter: Filter, case: Case)
    ensures
        filter.admits(case) <==> (filter.mode is Some ==> filter.mode->0 == case.mode) && (
        filter.total is Some ==> filter.total->0 == case.total) && (filter.proto is Some
            ==> filter.proto->0 == case.proto),
{
}

/// A plan holds exactly the wanted cases, in the order of the run.
pub proof fn lemma_plans_hold_the_wanted_cases(filter: Filter, k: nat)
    ensures
        plan_of(filter, 0) == Seq::<Case>::empty(),
        filter.admits(case_at(k)) ==> plan_of(filter, k + 1) == plan_of(filter, k).push(
            case_at(k),
        ),
        !filter.admits(case_at(k)) ==> plan_of(filter, k + 1) == plan_of(filter, k),
{
}

/// Diagnostic modes are used one at a time. In a round the plain client comes first, in its
/// own task if that is wanted, then its cloned form if that is, and the library last.
pub proof fn lemma_clients_of_a_round(modes: Diagnostics)
    ensures
        modes.valid() <==> {
            ||| !modes.direct_tasks && !modes.direct_clone
            ||| !modes.profiling && !(modes.direct_tasks && modes.direct_clone)
        },
        modes.clients().last() == Client::Proto,
        modes.clients()[0] == if modes.direct_tasks {
            Client::Task
        } else {
            Client::Direct
        },
        modes.clients().len() == if modes.direct_clone {
            3nat
        } else {
            2
        },
        modes.direct_clone && !modes.direct_tasks ==> modes.clients()[1] == Client::Cloned,
{
}

/// A body that comes back is made of the byte that was sent.
pub proof fn lemma_echoes_are_made_of_one_byte(data: Seq<u8>)
    ensures
        filled(data) <==> forall|i: int| 0 <= i < data.len() ==> #[trigger] data[i] == 7,
{
}

/// The buckets cover all times of 64 bits: the last one ends with the largest.
pub proof fn lemma_buckets_cover_all_times()
    ensures
        lower_end(0) == 0,
        upper_end(1919) == 0xffff_ffff_ffff_ffff,
{
    vstd::arithmetic::power2::lemma2_to64();
    vstd::arithmetic::power2::lemma2_to64_rest();
    assert(upper_end(1919) == 64 * vstd::arithmetic::power2::pow2(58) - 1);
}

} // verus!
