//! How close the percentiles of a histogram are to those of the recorded times.

use crate::bench::samples::bucket;
use crate::bench::samples::lemma_bucket_holds_its_numbers;
use crate::bench::samples::lemma_buckets_are_narrow;
use crate::bench::samples::lemma_sum_update;
use crate::bench::samples::lemma_sum_zero;
use crate::bench::samples::lower_end;
use crate::bench::samples::scaled;
use crate::bench::samples::sum;
use crate::bench::samples::upper_end;
use crate::bench::samples::SamplesView;
use crate::bench::samples::BUCKETS;
use vstd::arithmetic::power2::lemma2_to64;
use vstd::arithmetic::power2::lemma2_to64_rest;
use vstd::arithmetic::power2::lemma_pow2_pos;
use vstd::arithmetic::power2::lemma_pow2_unfold;
use vstd::arithmetic::power2::pow2;
use vstd::prelude::*;

verus! {

/// How many of some times have a property.
pub open spec fn count(times: Seq<u64>, property: spec_fn(u64) -> bool) -> nat
    decreases times.len(),
{
    if times.len() == 0 {
        0
    } else {
        count(times.drop_last(), property) + if property(times.last()) {
            1nat
        } else {
            0
        }
    }
}

/// The histogram of some times.
pub open spec fn histogram(times: Seq<u64>) -> SamplesView
    decreases times.len(),
{
    if times.len() == 0 {
        SamplesView { counts: Seq::new(BUCKETS as nat, |i: int| 0u64), total: 0 }
    } else {
        histogram(times.drop_last()).recorded(times.last() as nat)
    }
}

proof fn lemma_count_implies(
    times: Seq<u64>,
    narrow: spec_fn(u64) -> bool,
    wide: spec_fn(u64) -> bool,
)
    requires
        forall|t: u64| #[trigger] narrow(t) ==> wide(t),
    ensures
        count(times, narrow) <= count(times, wide),
        count(times, wide) <= times.len(),
    decreases times.len(),
{
    if times.len() > 0 {
        lemma_count_implies(times.drop_last(), narrow, wide);
    }
}

/// The buckets below `i` hold the times whose bucket is below `i`.
proof fn lemma_histogram_counts(times: Seq<u64>, i: int)
    requires
        times.len() <= u64::MAX,
        0 <= i <= BUCKETS,
    ensures
        histogram(times).counts.len() == BUCKETS,
        histogram(times).total == times.len(),
        sum(histogram(times).counts.take(i)) == count(times, |t: u64| bucket(t as nat) < i),
    decreases times.len(),
{
    if times.len() == 0 {
        lemma_sum_zero(histogram(times).counts.take(i));
    } else {
        let before = histogram(times.drop_last());
        let b = bucket(times.last() as nat);
        lemma_bucket_holds_its_numbers(times.last());
        lemma_histogram_counts(times.drop_last(), i);
        lemma_histogram_counts(times.drop_last(), b + 1);
        let every = |t: u64| true;
        lemma_count_implies(times.drop_last(), |t: u64| bucket(t as nat) < b + 1, every);
        lemma_sum_update(before.counts.take(b + 1), b, 0);
        let after = histogram(times).counts;
        if b < i {
            lemma_sum_update(before.counts.take(i), b, after[b]);
            assert(after.take(i) =~= before.counts.take(i).update(b, after[b]));
        } else {
            assert(after.take(i) =~= before.counts.take(i));
        }
    }
}

/// A bucket of a histogram counts the times that belong to it, and no bucket overflows.
pub(crate) proof fn lemma_count_of_bucket(times: Seq<u64>, i: int)
    requires
        times.len() <= u64::MAX,
        0 <= i < BUCKETS,
    ensures
        histogram(times).counts.len() == BUCKETS,
        histogram(times).total == times.len(),
        histogram(times).counts[i] == count(times, |t: u64| bucket(t as nat) == i),
        histogram(times).counts[i] <= times.len(),
    decreases times.len(),
{
    lemma_histogram_counts(times, 0);
    let held = |t: u64| bucket(t as nat) == i;
    lemma_count_implies(times, held, held);
    if times.len() > 0 {
        lemma_count_of_bucket(times.drop_last(), i);
        lemma_histogram_counts(times.drop_last(), 0);
        lemma_bucket_holds_its_numbers(times.last());
        lemma_count_implies(times.drop_last(), held, held);
    }
}

proof fn lemma_half_bucket(n: nat)
    requires
        n >= 64,
    ensures
        bucket(n) == bucket(n / 2) + 32,
{
}

/// Later times have later buckets.
pub proof fn lemma_buckets_ascend(a: nat, b: nat)
    requires
        a <= b,
    ensures
        bucket(a) <= bucket(b),
        b >= 64 ==> bucket(b) >= 64,
    decreases b,
{
    if b >= 64 {
        lemma_half_bucket(b);
        lemma_buckets_ascend(b / 2, b / 2);
        if a >= 64 {
            lemma_half_bucket(a);
            lemma_buckets_ascend(a / 2, b / 2);
        }
    }
}

proof fn lemma_scaled_power(mantissa: nat, shift: nat)
    requires
        32 <= mantissa < 64,
    ensures
        scaled(mantissa * pow2(shift)) == (mantissa, shift),
    decreases shift,
{
    lemma2_to64();
    if shift == 0 {
        assert(mantissa * pow2(0) == mantissa) by (nonlinear_arith)
            requires
                pow2(0) == 1,
        ;
    } else {
        let half = mantissa * pow2((shift - 1) as nat);
        lemma_scaled_power(mantissa, (shift - 1) as nat);
        lemma_pow2_unfold(shift);
        lemma_pow2_pos((shift - 1) as nat);
        assert(mantissa * pow2(shift) == 2 * half) by (nonlinear_arith)
            requires
                pow2(shift) == 2 * pow2((shift - 1) as nat),
                half == mantissa * pow2((shift - 1) as nat),
        ;
        assert(half >= 32) by (nonlinear_arith)
            requires
                half == mantissa * pow2((shift - 1) as nat),
                mantissa >= 32,
                pow2((shift - 1) as nat) > 0,
        ;
    }
}

/// The lower end of a bucket is its own.
pub proof fn lemma_lower_end_is_first(i: int)
    requires
        0 <= i < BUCKETS,
    ensures
        bucket(lower_end(i)) == i,
{
    if i >= 64 {
        let mantissa = ((i - 64) % 32 + 32) as nat;
        let shift = ((i - 64) / 32 + 1) as nat;
        lemma_scaled_power(mantissa, shift);
        assert(lower_end(i) == mantissa * pow2(shift));
    }
}

/// Buckets adjoin: the next one begins behind the upper end of each.
pub proof fn lemma_buckets_adjoin(i: int)
    requires
        0 <= i < BUCKETS - 1,
    ensures
        upper_end(i) + 1 == lower_end(i + 1),
{
    lemma2_to64();
    if i >= 64 {
        let m = (i - 64) % 32 + 32;
        let s = ((i - 64) / 32 + 1) as nat;
        let p = pow2(s);
        lemma_pow2_pos(s);
        assert((m + 1) * p >= 1) by (nonlinear_arith)
            requires
                m >= 32,
                p > 0,
        ;
        assert((i - 64) % 32 + 33 == m + 1);
        assert(upper_end(i) == (m + 1) * p - 1);
        if m == 63 {
            let q = pow2(s + 1);
            lemma_pow2_unfold(s + 1);
            assert(q == 2 * p);
            assert((i + 1 - 64) % 32 == 0 && (i + 1 - 64) / 32 == s);
            assert((i + 1 - 64) % 32 + 32 == 32);
            assert(lower_end(i + 1) == 32 * q);
            assert((m + 1) * p == 64 * p) by (nonlinear_arith)
                requires
                    m == 63,
            ;
        } else {
            assert((i + 1 - 64) % 32 == m - 31 && (i + 1 - 64) / 32 == s - 1);
            assert((i + 1 - 64) % 32 + 32 == m + 1);
            assert(lower_end(i + 1) == (m + 1) * p);
        }
    } else if i == 63 {
        assert(lower_end(64) == 32 * pow2(1));
        assert(upper_end(63) == 63);
    }
}

/// A percentile is close: fewer samples than the percentage asks for lie below the lower end
/// of the reported bucket, at least as many lie at or below the reported upper end, and the
/// two differ by at most a thirty-second of the lower one.
pub proof fn lemma_percentile_is_close(times: Seq<u64>, rank: u64, i: int)
    requires
        0 < times.len() <= u64::MAX,
        0 < rank,
        histogram(times).reaches(rank, i),
    ensures
        count(times, |t: u64| t < lower_end(i)) < rank,
        count(times, |t: u64| t <= upper_end(i)) >= rank,
        lower_end(i) <= upper_end(i),
        (upper_end(i) - lower_end(i)) * 32 <= lower_end(i),
{
    let low = lower_end(i);
    lemma_histogram_counts(times, 0);
    lemma_histogram_counts(times, i);
    lemma_histogram_counts(times, i + 1);
    lemma_buckets_are_narrow(i);
    let earlier = |t: u64| bucket(t as nat) < i;
    let so_far = |t: u64| bucket(t as nat) < i + 1;
    let below = |t: u64| t < lower_end(i);
    let covered = |t: u64| t <= upper_end(i);
    assert forall|t: u64| #[trigger] below(t) implies earlier(t) by {
        lemma_lower_end_is_first(i);
        lemma_buckets_ascend(t as nat, low);
        lemma_bucket_holds_its_numbers(t);
    }
    assert forall|t: u64| #[trigger] so_far(t) implies covered(t) by {
        lemma_bucket_holds_its_numbers(t);
        if t > upper_end(i) {
            if i < BUCKETS - 1 {
                lemma_buckets_adjoin(i);
                lemma_lower_end_is_first(i + 1);
                lemma_buckets_ascend(lower_end(i + 1), t as nat);
            } else {
                lemma2_to64();
                lemma2_to64_rest();
                assert(upper_end(i) == 64 * pow2(58) - 1);
            }
        }
    }
    lemma_count_implies(times, below, earlier);
    lemma_count_implies(times, so_far, covered);
    if i == 0 {
        assert(histogram(times).counts.take(0) =~= Seq::empty());
    }
    assert(low <= upper_end(i)) by {
        lemma_lower_end_is_first(i);
        if i >= 64 {
            let m = (i - 64) % 32 + 32;
            let p = pow2(((i - 64) / 32 + 1) as nat);
            lemma_pow2_pos(((i - 64) / 32 + 1) as nat);
            assert((m + 1) * p == m * p + p) by (nonlinear_arith);
        }
    }
}

} // verus!
