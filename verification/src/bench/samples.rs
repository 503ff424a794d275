//! Latency histograms.

use std::time::Duration;
use vstd::arithmetic::power2::lemma2_to64;
use vstd::arithmetic::power2::lemma2_to64_rest;
use vstd::arithmetic::power2::lemma_pow2_pos;
use vstd::arithmetic::power2::lemma_pow2_unfold;
use vstd::arithmetic::power2::pow2;
use vstd::prelude::*;

verus! {

/// The number of buckets.
pub const BUCKETS: usize = 1920;

/// A number as `mantissa * 2^shift`, rounded down, with a mantissa below 64.
pub open spec fn scaled(n: nat) -> (nat, nat)
    decreases n,
{
    if n < 64 {
        (n, 0)
    } else {
        let (mantissa, shift) = scaled(n / 2);
        (mantissa, shift + 1)
    }
}

/// The bucket of a number of microseconds: small numbers have one each, and larger ones
/// share it with those that agree in their six leading binary digits.
pub open spec fn bucket(micros: nat) -> int {
    let (mantissa, shift) = scaled(micros);
    if shift == 0 {
        micros as int
    } else {
        64 + (shift - 1) * 32 + mantissa - 32
    }
}

/// The smallest number of a bucket.
pub open spec fn lower_end(i: int) -> nat {
    if i < 64 {
        i as nat
    } else {
        (((i - 64) % 32 + 32) * pow2(((i - 64) / 32 + 1) as nat)) as nat
    }
}

/// The largest number of a bucket.
pub open spec fn upper_end(i: int) -> nat {
    if i < 64 {
        i as nat
    } else {
        (((i - 64) % 32 + 33) * pow2(((i - 64) / 32 + 1) as nat) - 1) as nat
    }
}

proof fn lemma_scaled(n: nat)
    ensures
        ({
            let (mantissa, shift) = scaled(n);
            &&& mantissa * pow2(shift) <= n < (mantissa + 1) * pow2(shift)
            &&& n >= 64 ==> 32 <= mantissa < 64 && shift >= 1
            &&& n < 64 ==> mantissa == n && shift == 0
        }),
    decreases n,
{
    if n < 64 {
        lemma2_to64();
        assert(pow2(0) == 1);
        assert(n * pow2(0) == n) by (nonlinear_arith)
            requires
                pow2(0) == 1,
        ;
        assert((n + 1) * pow2(0) == n + 1) by (nonlinear_arith)
            requires
                pow2(0) == 1,
        ;
    } else {
        lemma_scaled(n / 2);
        let (mantissa, shift) = scaled(n / 2);
        let p = pow2(shift);
        lemma_pow2_unfold(shift + 1);
        assert(pow2(shift + 1) == 2 * p);
        assert(mantissa * (2 * p) == 2 * (mantissa * p)) by (nonlinear_arith);
        assert((mantissa + 1) * (2 * p) == 2 * ((mantissa + 1) * p)) by (nonlinear_arith);
    }
}

proof fn lemma_shift_bound(n: nat, k: nat)
    requires
        n < 64 * pow2(k),
    ensures
        scaled(n).1 <= k,
    decreases k,
{
    if n >= 64 {
        if k == 0 {
            lemma2_to64();
        } else {
            lemma_pow2_unfold(k);
            lemma_shift_bound(n / 2, (k - 1) as nat);
        }
    }
}

/// Every number of microseconds lies within the ends of its bucket.
pub proof fn lemma_bucket_holds_its_numbers(micros: u64)
    ensures
        0 <= bucket(micros as nat) < BUCKETS,
        lower_end(bucket(micros as nat)) <= micros <= upper_end(bucket(micros as nat)),
{
    let n = micros as nat;
    let (mantissa, shift) = scaled(n);
    lemma_scaled(n);
    if n >= 64 {
        lemma2_to64();
        lemma2_to64_rest();
        assert(n < 64 * pow2(58)) by {
            assert(pow2(58) == 0x400000000000000);
        }
        lemma_shift_bound(n, 58);
        let i = bucket(n);
        assert(i - 64 == (shift - 1) * 32 + (mantissa - 32));
        assert((i - 64) / 32 == shift - 1 && (i - 64) % 32 == mantissa - 32) by (nonlinear_arith)
            requires
                i - 64 == (shift - 1) * 32 + (mantissa - 32),
                0 <= mantissa - 32 < 32,
                shift >= 1,
        ;
    }
}

/// A bucket is narrow: its ends differ by less than a thirty-second of the lower one, so
/// that at least five significant binary digits are kept.
pub proof fn lemma_buckets_are_narrow(i: int)
    requires
        0 <= i < BUCKETS,
    ensures
        (upper_end(i) - lower_end(i)) * 32 <= lower_end(i),
{
    if i >= 64 {
        let m = (i - 64) % 32 + 32;
        let p = pow2(((i - 64) / 32 + 1) as nat);
        lemma_pow2_pos(((i - 64) / 32 + 1) as nat);
        assert((m + 1) * p == m * p + p) by (nonlinear_arith);
        assert(p * 32 <= m * p) by (nonlinear_arith)
            requires
                m >= 32,
                p > 0,
        ;
        assert((m + 1) * p - 1 >= 0) by (nonlinear_arith)
            requires
                m >= 32,
                p > 0,
        ;
    }
}

/// The samples of some buckets.
pub open spec fn sum(counts: Seq<u64>) -> nat
    decreases counts.len(),
{
    if counts.len() == 0 {
        0
    } else {
        sum(counts.drop_last()) + counts.last() as nat
    }
}

/// A histogram.
#[verifier::ext_equal]
pub struct SamplesView {
    pub counts: Seq<u64>,
    pub total: u64,
}

impl SamplesView {
    /// The histogram with one more sample.
    pub open spec fn recorded(self, micros: nat) -> SamplesView {
        let i = bucket(micros);
        SamplesView {
            counts: self.counts.update(i, (self.counts[i] + 1) as u64),
            total: (self.total + 1) as u64,
        }
    }

    /// The histogram with another one added to it.
    pub open spec fn merged(self, other: SamplesView) -> SamplesView {
        SamplesView {
            counts: Seq::new(
                self.counts.len(),
                |i: int| (self.counts[i] + other.counts[i]) as u64,
            ),
            total: (self.total + other.total) as u64,
        }
    }

    /// The number of samples that make up a percentage, rounded up.
    pub open spec fn rank(self, percent: u64) -> u64 {
        ((self.total * percent + 99) / 100) as u64
    }

    /// Whether bucket `i` is the first at which `rank` samples are reached.
    pub open spec fn reaches(self, rank: u64, i: int) -> bool {
        &&& 0 <= i < self.counts.len()
        &&& sum(self.counts.take(i)) < rank || i == 0
        &&& sum(self.counts.take(i + 1)) >= rank
    }
}

/// The largest time that is recorded as it is.
pub open spec fn clamped(micros: u128) -> nat {
    if micros <= u64::MAX {
        micros as nat
    } else {
        u64::MAX as nat
    }
}

/// A bounded histogram with at least five significant binary digits per bucket.
pub struct Samples {
    counts: Vec<u64>,
    pub total: u64,
}

impl View for Samples {
    type V = SamplesView;

    closed spec fn view(&self) -> SamplesView {
        SamplesView { counts: self.counts@, total: self.total }
    }
}

pub(crate) proof fn lemma_sum_update(counts: Seq<u64>, i: int, c: u64)
    requires
        0 <= i < counts.len(),
    ensures
        sum(counts.update(i, c)) == sum(counts) - counts[i] + c,
        counts[i] <= sum(counts),
    decreases counts.len(),
{
    let after = counts.update(i, c);
    if i == counts.len() - 1 {
        assert(after.drop_last() =~= counts.drop_last());
    } else {
        lemma_sum_update(counts.drop_last(), i, c);
        assert(after.drop_last() =~= counts.drop_last().update(i, c));
    }
}

proof fn lemma_sum_take(counts: Seq<u64>, i: int)
    requires
        0 <= i < counts.len(),
    ensures
        sum(counts.take(i + 1)) == sum(counts.take(i)) + counts[i],
{
    assert(counts.take(i + 1).drop_last() =~= counts.take(i));
}

proof fn lemma_sum_grows(counts: Seq<u64>, i: int)
    requires
        0 <= i <= counts.len(),
    ensures
        sum(counts.take(i)) <= sum(counts),
    decreases counts.len(),
{
    if i == counts.len() {
        assert(counts.take(i) =~= counts);
    } else {
        lemma_sum_grows(counts.drop_last(), i);
        assert(counts.drop_last().take(i) =~= counts.take(i));
    }
}

pub(crate) proof fn lemma_sum_zero(counts: Seq<u64>)
    requires
        forall|i: int| 0 <= i < counts.len() ==> counts[i] == 0,
    ensures
        sum(counts) == 0,
    decreases counts.len(),
{
    if counts.len() > 0 {
        lemma_sum_zero(counts.drop_last());
    }
}

proof fn lemma_sum_merged(a: Seq<u64>, b: Seq<u64>, i: int)
    requires
        a.len() == b.len(),
        0 <= i < a.len(),
        sum(a) + sum(b) <= u64::MAX,
    ensures
        a[i] + b[i] <= u64::MAX,
{
    lemma_sum_update(a, i, 0);
    lemma_sum_update(b, i, 0);
}

proof fn lemma_sum_of_merged(a: Seq<u64>, b: Seq<u64>, c: Seq<u64>)
    requires
        a.len() == b.len() == c.len(),
        forall|i: int| 0 <= i < a.len() ==> #[trigger] c[i] == a[i] + b[i],
    ensures
        sum(c) == sum(a) + sum(b),
    decreases a.len(),
{
    if a.len() > 0 {
        lemma_sum_of_merged(a.drop_last(), b.drop_last(), c.drop_last());
    }
}

/// The whole microseconds of a time span.
pub uninterp spec fn micros_of(elapsed: Duration) -> u128;

/// Calls `Duration::as_micros`: the whole microseconds of a time span, which its value
/// determines.
#[verifier::external_body]
fn whole_micros(elapsed: Duration) -> (micros: u128)
    ensures
        micros == micros_of(elapsed),
{
    elapsed.as_micros()
}

impl Samples {
    /// There is a count for every bucket, and the total is their sum.
    pub open spec fn wf(self) -> bool {
        &&& self@.counts.len() == BUCKETS
        &&& sum(self@.counts) == self@.total
    }

    /// An empty histogram.
    pub fn new() -> (s: Samples)
        ensures
            s.wf(),
            s@ == (SamplesView { counts: Seq::new(BUCKETS as nat, |i: int| 0u64), total: 0 }),
    {
        let counts: Vec<u64> = vec![0; BUCKETS];
        proof {
            lemma_sum_zero(counts@);
            assert(counts@ =~= Seq::new(BUCKETS as nat, |i: int| 0u64));
        }
        Samples { counts, total: 0 }
    }

    /// Adds a sample.
    pub fn record(&mut self, elapsed: Duration)
        requires
            old(self).wf(),
            old(self)@.total < u64::MAX,
        ensures
            final(self).wf(),
            final(self)@ == old(self)@.recorded(clamped(micros_of(elapsed))),
    {
        let micros: u128 = whole_micros(elapsed);
        self.record_micros(micros);
    }

    /// Adds a sample of so many microseconds.
    pub fn record_micros(&mut self, micros: u128)
        requires
            old(self).wf(),
            old(self)@.total < u64::MAX,
        ensures
            final(self).wf(),
            final(self)@ == old(self)@.recorded(clamped(micros)),
    {
        let n: u64 = if micros <= u64::MAX as u128 {
            micros as u64
        } else {
            u64::MAX
        };
        proof {
            lemma_bucket_holds_its_numbers(n);
            lemma_scaled(n as nat);
        }
        let mut mantissa: u64 = n;
        let mut shift: usize = 0;
        while mantissa >= 64
            invariant
                scaled(n as nat).0 == scaled(mantissa as nat).0,
                scaled(n as nat).1 == scaled(mantissa as nat).1 + shift,
                scaled(n as nat).1 <= 58,
            decreases mantissa,
        {
            mantissa = mantissa / 2;
            shift = shift + 1;
        }
        let i: usize = if shift == 0 {
            n as usize
        } else {
            64 + (shift - 1) * 32 + (mantissa as usize - 32)
        };
        assert(i == bucket(n as nat));
        proof {
            lemma_sum_update(self.counts@, i as int, 0);
            lemma_sum_update(self.counts@, i as int, (self.counts@[i as int] + 1) as u64);
        }
        let count: u64 = self.counts[i];
        self.counts.set(i, count + 1);
        self.total = self.total + 1;
    }

    /// Adds another histogram.
    pub fn merge(&mut self, other: Samples)
        requires
            old(self).wf(),
            other.wf(),
            old(self)@.total + other@.total <= u64::MAX,
        ensures
            final(self).wf(),
            final(self)@ == old(self)@.merged(other@),
    {
        let ghost before = self.counts@;
        for i in 0..BUCKETS
            invariant
                before.len() == BUCKETS,
                other@.counts.len() == BUCKETS,
                sum(before) + sum(other@.counts) <= u64::MAX,
                self.counts@.len() == BUCKETS,
                self.total == old(self)@.total,
                forall|k: int|
                    0 <= k < i ==> #[trigger] self.counts@[k] == before[k] + other@.counts[k],
                forall|k: int| i <= k < BUCKETS ==> #[trigger] self.counts@[k] == before[k],
        {
            proof {
                lemma_sum_merged(before, other@.counts, i as int);
            }
            let count: u64 = self.counts[i];
            self.counts.set(i, count + other.counts[i]);
        }
        self.total = self.total + other.total;
        proof {
            lemma_sum_of_merged(before, other@.counts, self.counts@);
            assert(self@ =~= old(self)@.merged(other@));
        }
    }

    /// The upper end of the bucket at which so many percent of the samples are reached; the
    /// largest number if there are not so many.
    pub fn percentile(&self, percent: u64) -> (micros: u64)
        requires
            self.wf(),
        ensures
            ({
                let rank = self@.rank(percent);
                ||| exists|i: int| #[trigger] self@.reaches(rank, i) && micros == upper_end(i)
                ||| self@.total < rank && micros == u64::MAX
            }),
    {
        assert(self.total * percent <= u64::MAX * u64::MAX) by (nonlinear_arith)
            requires
                self.total <= u64::MAX,
                percent <= u64::MAX,
        ;
        let rank: u64 = ((self.total as u128 * percent as u128 + 99) / 100) as u64;
        let mut count: u64 = 0;
        assert(self.counts@.take(0) =~= Seq::empty());
        for i in 0..BUCKETS
            invariant
                self.wf(),
                rank == self@.rank(percent),
                count == sum(self.counts@.take(i as int)),
                count < rank || i == 0,
        {
            proof {
                lemma_sum_take(self.counts@, i as int);
                lemma_sum_grows(self.counts@, i + 1);
            }
            count = count + self.counts[i];
            if count >= rank {
                assert(self@.reaches(rank, i as int));
                return Self::bucket_end(i);
            }
        }
        assert(self.counts@.take(BUCKETS as int) =~= self.counts@);
        u64::MAX
    }

    /// The upper end of a bucket.
    fn bucket_end(i: usize) -> (n: u64)
        requires
            i < BUCKETS,
        ensures
            n == upper_end(i as int),
    {
        if i < 64 {
            return i as u64;
        }
        let shift: usize = (i - 64) / 32 + 1;
        let mantissa: usize = (i - 64) % 32 + 32;
        let mut scale: u128 = 1;
        proof {
            lemma2_to64();
            lemma2_to64_rest();
        }
        for k in 0..shift
            invariant
                scale == pow2(k as nat),
                shift <= 58,
                scale <= 0x400000000000000,
        {
            proof {
                lemma_pow2_unfold((k + 1) as nat);
                vstd::arithmetic::power2::lemma_pow2_strictly_increases(k as nat, 58);
                lemma2_to64();
                lemma2_to64_rest();
                if k + 1 < 58 {
                    vstd::arithmetic::power2::lemma_pow2_strictly_increases((k + 1) as nat, 58);
                }
            }
            scale = scale * 2;
        }
        proof {
            lemma_pow2_pos(shift as nat);
            assert((mantissa + 1) * scale <= 64 * 0x400000000000000) by (nonlinear_arith)
                requires
                    mantissa < 64,
                    scale <= 0x400000000000000,
            ;
            assert((mantissa + 1) * scale >= 1) by (nonlinear_arith)
                requires
                    mantissa >= 0,
                    scale >= 1,
            ;
        }
        ((mantissa as u128 + 1) * scale - 1) as u64
    }
}

/// A percentile that is reached is at least as large as that share of the samples: the
/// samples of the buckets up to the reported end make up the percentage.
pub proof fn lemma_percentile_covers(samples: SamplesView, percent: u64, i: int)
    requires
        samples.reaches(samples.rank(percent), i),
        percent <= 100,
    ensures
        sum(samples.counts.take(i + 1)) * 100 >= samples.total * percent,
{
    let n = samples.total * percent;
    assert(0 <= n <= samples.total * 100) by (nonlinear_arith)
        requires
            n == samples.total * percent,
            percent <= 100,
    ;
    assert(samples.rank(percent) == (n + 99) / 100);
}

/// As long as it is at most one hundred, every percentage is reached.
pub proof fn lemma_percentile_is_reached(samples: SamplesView, percent: u64)
    requires
        percent <= 100,
    ensures
        samples.rank(percent) <= samples.total,
{
    let n = samples.total * percent;
    assert(0 <= n <= samples.total * 100) by (nonlinear_arith)
        requires
            n == samples.total * percent,
            percent <= 100,
    ;
    assert((n + 99) / 100 <= samples.total);
}

} // verus!
