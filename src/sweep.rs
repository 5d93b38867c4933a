//! The adaptive sweep: for each power-of-two buffer size, a short estimate
//! run, a measurement run scaled to fill a fixed time window, and two
//! trackers of the best buffer size.
use vstd::prelude::*;
use crate::reader::{
    checksum_modulus, lemma_stats_counts, lemma_wrapping_step, stats_describe, time_reads,
    wrapping_sum, ReadError, RunStats,
};

verus! {

/// The largest buffer size a sweep may use: 16 MiB.
pub const MAX_BUFFER_BYTES: usize = 16 * 1024 * 1024;

/// The wall-clock window one measurement aims to fill: two seconds.
pub const TARGET_TIMING_NANOS: u64 = 2_000_000_000;

/// The estimate run reads this many buffers' worth of bytes.
pub const TIMING_ESTIMATE_SYSCALLS: u64 = 100;

/// Buffer size of the warm-up run.
pub const WARMUP_BUFFER_BYTES: usize = 1024;

/// Byte target of the warm-up run.
pub const WARMUP_TOTAL_BYTES: u64 = 4096;

/// Nanoseconds per second.
pub const NANOS_PER_SEC: u64 = 1_000_000_000;

/// `n` is a power of two (1, 2, 4, ...).
pub open spec fn is_pow2(n: nat) -> bool
    decreases n,
{
    if n <= 1 {
        n == 1
    } else {
        n % 2 == 0 && is_pow2(n / 2)
    }
}

/// The buffer sizes a sweep visits: `start`, then each double, while at
/// most `end`.
pub open spec fn sweep_sizes(start: nat, end: nat) -> Seq<nat>
    decreases end - start,
{
    if start == 0 || start > end {
        Seq::empty()
    } else if 2 * start > end {
        seq![start]
    } else {
        seq![start] + sweep_sizes(2 * start, end)
    }
}

/// Byte target of a measurement, scaled from an estimate run of
/// `TIMING_ESTIMATE_SYSCALLS` buffers of `buf_size` bytes that took
/// `estimate_nanos` (taken as at least one nanosecond), and never below
/// `TIMING_ESTIMATE_SYSCALLS`.
pub open spec fn scaled_target(estimate_nanos: nat, buf_size: nat) -> nat {
    let d: nat = if estimate_nanos == 0 { 1 } else { estimate_nanos };
    let scaled: nat = (TARGET_TIMING_NANOS as nat * (TIMING_ESTIMATE_SYSCALLS as nat * buf_size)) / d;
    if scaled < TIMING_ESTIMATE_SYSCALLS {
        TIMING_ESTIMATE_SYSCALLS as nat
    } else {
        scaled
    }
}

/// Throughput in bytes per second of `bytes` read in `nanos` (taken as at
/// least one nanosecond), rounded down.
pub open spec fn rate_of(bytes: nat, nanos: nat) -> nat {
    let d: nat = if nanos == 0 { 1 } else { nanos };
    (bytes * NANOS_PER_SEC as nat) / d
}

/// Is `n` a power of two?
pub fn is_power_of_two(n: usize) -> (r: bool)
    ensures
        r == is_pow2(n as nat),
{
    let mut m: usize = n;
    while m > 1 && m % 2 == 0
        invariant
            is_pow2(m as nat) == is_pow2(n as nat),
        decreases m,
    {
        m = m / 2;
    }
    m == 1
}

/// Computes the byte target of a measurement from the estimate run.
pub fn measure_target(estimate_nanos: u64, buf_size: usize) -> (r: u64)
    requires
        buf_size <= MAX_BUFFER_BYTES,
    ensures
        r == scaled_target(estimate_nanos as nat, buf_size as nat),
        r <= TARGET_TIMING_NANOS * (TIMING_ESTIMATE_SYSCALLS * MAX_BUFFER_BYTES),
{
    let d: u64 = if estimate_nanos == 0 { 1 } else { estimate_nanos };
    let estimate_bytes: u64 = TIMING_ESTIMATE_SYSCALLS * buf_size as u64;
    assert(TARGET_TIMING_NANOS * estimate_bytes <= TARGET_TIMING_NANOS * (TIMING_ESTIMATE_SYSCALLS * MAX_BUFFER_BYTES)) by (nonlinear_arith)
        requires
            estimate_bytes <= TIMING_ESTIMATE_SYSCALLS * MAX_BUFFER_BYTES,
    ;
    let scaled: u64 = (TARGET_TIMING_NANOS * estimate_bytes) / d;
    assert(scaled <= TARGET_TIMING_NANOS * estimate_bytes) by (nonlinear_arith)
        requires
            d >= 1,
            scaled as int == (TARGET_TIMING_NANOS as int * estimate_bytes as int) / (d as int),
    ;
    if scaled < TIMING_ESTIMATE_SYSCALLS {
        TIMING_ESTIMATE_SYSCALLS
    } else {
        scaled
    }
}

/// Throughput in bytes per second of `bytes` read in `nanos`.
pub fn throughput(bytes: u64, nanos: u64) -> (r: u128)
    ensures
        r == rate_of(bytes as nat, nanos as nat),
{
    let d: u128 = if nanos == 0 { 1 } else { nanos as u128 };
    assert((bytes as u128) * (NANOS_PER_SEC as u128) <= u64::MAX * NANOS_PER_SEC) by (nonlinear_arith)
        requires
            bytes <= u64::MAX,
    ;
    (bytes as u128 * NANOS_PER_SEC as u128) / d
}

/// Why a sweep's bounds were refused.
#[derive(Clone, Copy, Debug, PartialEq, Eq, Structural)]
pub enum RangeError {
    /// The first size is larger than the last.
    StartAfterEnd,
    /// The last size is above `MAX_BUFFER_BYTES`.
    EndTooLarge,
    /// The first size is not a power of two.
    StartNotPowerOfTwo,
    /// The last size is not a power of two.
    EndNotPowerOfTwo,
}

/// The buffer sizes of one sweep: every power of two from `start` up to and
/// including `end`.
#[derive(Clone, Copy, Debug, PartialEq, Eq, Structural)]
pub struct SweepRange {
    pub start: usize,
    pub end: usize,
}

impl SweepRange {
    /// Both bounds are powers of two, in order, and at most 16 MiB.
    pub open spec fn wf(self) -> bool {
        &&& is_pow2(self.start as nat)
        &&& is_pow2(self.end as nat)
        &&& self.start <= self.end
        &&& self.end <= MAX_BUFFER_BYTES
    }

    /// The sizes the sweep visits.
    pub open spec fn sizes(self) -> Seq<nat> {
        sweep_sizes(self.start as nat, self.end as nat)
    }

    /// Checks the bounds of a sweep; the first rule broken, in the order of
    /// `RangeError`'s variants, is the error.
    pub fn new(start: usize, end: usize) -> (r: Result<SweepRange, RangeError>)
        ensures
            r matches Ok(s) ==> s.start == start && s.end == end && s.wf(),
            r is Ok <==> (SweepRange { start, end }).wf(),
            r == Err::<SweepRange, RangeError>(RangeError::StartAfterEnd) <==> start > end,
            r == Err::<SweepRange, RangeError>(RangeError::EndTooLarge) <==> start <= end
                && end > MAX_BUFFER_BYTES,
            r == Err::<SweepRange, RangeError>(RangeError::StartNotPowerOfTwo) <==> start <= end
                && end <= MAX_BUFFER_BYTES && !is_pow2(start as nat),
            r == Err::<SweepRange, RangeError>(RangeError::EndNotPowerOfTwo) <==> start <= end
                && end <= MAX_BUFFER_BYTES && is_pow2(start as nat) && !is_pow2(end as nat),
    {
        if start > end {
            Err(RangeError::StartAfterEnd)
        } else if end > MAX_BUFFER_BYTES {
            Err(RangeError::EndTooLarge)
        } else if !is_power_of_two(start) {
            Err(RangeError::StartNotPowerOfTwo)
        } else if !is_power_of_two(end) {
            Err(RangeError::EndNotPowerOfTwo)
        } else {
            Ok(SweepRange { start, end })
        }
    }
}

/// The two best-size trackers of one sweep: the highest throughput seen
/// at any size, and the first local maximum, which is followed only while
/// throughput has not yet dropped below it.
#[derive(Clone, Copy, Debug, PartialEq, Eq, Structural)]
pub struct BestSizes {
    pub best_size: usize,
    pub best_throughput: u128,
    pub first_peak_size: usize,
    pub first_peak_throughput: u128,
    /// Still in the phase where throughput has not dropped.
    pub increasing: bool,
    /// At least one reading has been taken.
    pub seen: bool,
}

/// The trackers before any measurement.
pub open spec fn initial_best() -> BestSizes {
    BestSizes {
        best_size: 0,
        best_throughput: 0,
        first_peak_size: 0,
        first_peak_throughput: 0,
        increasing: true,
        seen: false,
    }
}

/// The trackers after one more measurement of `throughput` at `size`. The
/// first reading sets both trackers, whatever its throughput.
pub open spec fn next_best(t: BestSizes, size: usize, throughput: u128) -> BestSizes {
    if !t.seen {
        BestSizes {
            best_size: size,
            best_throughput: throughput,
            first_peak_size: size,
            first_peak_throughput: throughput,
            increasing: true,
            seen: true,
        }
    } else {
        let raise_peak = t.increasing && throughput > t.first_peak_throughput;
        let raise_best = throughput > t.best_throughput;
        BestSizes {
            best_size: if raise_best { size } else { t.best_size },
            best_throughput: if raise_best { throughput } else { t.best_throughput },
            first_peak_size: if raise_peak { size } else { t.first_peak_size },
            first_peak_throughput: if raise_peak { throughput } else { t.first_peak_throughput },
            increasing: t.increasing && throughput >= t.first_peak_throughput,
            seen: true,
        }
    }
}

/// The trackers after the readings `steps`, (size, throughput) in order.
pub open spec fn best_after(t: BestSizes, steps: Seq<(usize, u128)>) -> BestSizes
    decreases steps.len(),
{
    if steps.len() == 0 {
        t
    } else {
        let last = steps.last();
        next_best(best_after(t, steps.drop_last()), last.0, last.1)
    }
}

impl BestSizes {
    /// The first local maximum never exceeds the overall maximum, and
    /// trackers that have seen nothing are still in the increasing phase.
    pub open spec fn wf(self) -> bool {
        &&& self.first_peak_throughput <= self.best_throughput
        &&& !self.seen ==> self.increasing
    }

    /// Trackers that have seen nothing yet.
    pub fn new() -> (r: BestSizes)
        ensures
            r == initial_best(),
            r.wf(),
    {
        BestSizes {
            best_size: 0,
            best_throughput: 0,
            first_peak_size: 0,
            first_peak_throughput: 0,
            increasing: true,
            seen: false,
        }
    }

    /// Takes one measurement into account.
    pub fn update(&mut self, size: usize, throughput: u128)
        ensures
            *final(self) == next_best(*old(self), size, throughput),
            old(self).wf() ==> final(self).wf(),
    {
        if !self.seen {
            self.best_size = size;
            self.best_throughput = throughput;
            self.first_peak_size = size;
            self.first_peak_throughput = throughput;
            self.increasing = true;
            self.seen = true;
            return;
        }
        if self.increasing {
            if throughput > self.first_peak_throughput {
                self.first_peak_throughput = throughput;
                self.first_peak_size = size;
            } else if throughput < self.first_peak_throughput {
                self.increasing = false;
            }
        }
        if throughput > self.best_throughput {
            self.best_throughput = throughput;
            self.best_size = size;
        }
    }
}

/// Once the first local maximum is frozen by a drop in throughput, no later
/// reading changes it, however high.
pub proof fn lemma_frozen_peak_stays(t: BestSizes, steps: Seq<(usize, u128)>)
    requires
        t.wf(),
        !t.increasing,
    ensures
        !best_after(t, steps).increasing,
        best_after(t, steps).first_peak_size == t.first_peak_size,
        best_after(t, steps).first_peak_throughput == t.first_peak_throughput,
    decreases steps.len(),
{
    if steps.len() > 0 {
        lemma_frozen_peak_stays(t, steps.drop_last());
    }
}

/// The overall maximum is never below the first local maximum, after any
/// readings from well-formed trackers, in particular from fresh ones.
pub proof fn lemma_best_dominates_peak(t: BestSizes, steps: Seq<(usize, u128)>)
    requires
        t.wf(),
    ensures
        best_after(t, steps).wf(),
        best_after(initial_best(), steps).wf(),
    decreases steps.len(),
{
    if steps.len() > 0 {
        lemma_best_dominates_peak(t, steps.drop_last());
    }
}

/// After at least one reading from fresh trackers, both tracked sizes are
/// sizes that were read.
pub proof fn lemma_best_sizes_were_read(steps: Seq<(usize, u128)>)
    requires
        steps.len() > 0,
    ensures
        best_after(initial_best(), steps).seen,
        exists|i: int|
            0 <= i < steps.len() && #[trigger] steps[i].0 == best_after(
                initial_best(),
                steps,
            ).best_size,
        exists|i: int|
            0 <= i < steps.len() && #[trigger] steps[i].0 == best_after(
                initial_best(),
                steps,
            ).first_peak_size,
    decreases steps.len(),
{
    let prev = steps.drop_last();
    let n = steps.len() - 1;
    let t = best_after(initial_best(), prev);
    let r = best_after(initial_best(), steps);
    assert(steps[n] == steps.last());
    assert(r == next_best(t, steps[n].0, steps[n].1));
    if prev.len() == 0 {
        assert(steps[n].0 == r.best_size);
        assert(steps[n].0 == r.first_peak_size);
    } else {
        lemma_best_sizes_were_read(prev);
        let i = choose|i: int| 0 <= i < prev.len() && #[trigger] prev[i].0 == t.best_size;
        let j = choose|j: int| 0 <= j < prev.len() && #[trigger] prev[j].0 == t.first_peak_size;
        assert(steps[i] == prev[i]);
        assert(steps[j] == prev[j]);
        if r.best_size == steps[n].0 {
            assert(steps[n].0 == r.best_size);
        } else {
            assert(steps[i].0 == r.best_size);
        }
        if r.first_peak_size == steps[n].0 {
            assert(steps[n].0 == r.first_peak_size);
        } else {
            assert(steps[j].0 == r.first_peak_size);
        }
    }
}

/// Taking readings `a` and then `b` is taking `a + b`.
pub proof fn lemma_best_after_append(t: BestSizes, a: Seq<(usize, u128)>, b: Seq<(usize, u128)>)
    ensures
        best_after(t, a + b) == best_after(best_after(t, a), b),
    decreases b.len(),
{
    if b.len() == 0 {
        assert(a + b =~= a);
    } else {
        assert((a + b).drop_last() =~= a + b.drop_last());
        assert((a + b).last() == b.last());
        lemma_best_after_append(t, a, b.drop_last());
    }
}

/// Throughput never drops from one reading to a later one.
pub open spec fn non_decreasing(steps: Seq<(usize, u128)>) -> bool {
    forall|i: int, j: int| 0 <= i < j < steps.len() ==> #[trigger] steps[i].1 <= #[trigger] steps[j].1
}

/// Over readings whose throughput never drops, fresh trackers stay in the
/// increasing phase and the first local maximum is the overall maximum:
/// the last throughput, at the first size that reached it.
pub proof fn lemma_non_decreasing_peak_is_best(steps: Seq<(usize, u128)>)
    requires
        steps.len() > 0,
        non_decreasing(steps),
    ensures
        best_after(initial_best(), steps).increasing,
        best_after(initial_best(), steps).first_peak_throughput == steps.last().1,
        best_after(initial_best(), steps).best_throughput == steps.last().1,
        best_after(initial_best(), steps).first_peak_size == best_after(
            initial_best(),
            steps,
        ).best_size,
    decreases steps.len(),
{
    let prev = steps.drop_last();
    let n = steps.len() - 1;
    assert(steps[n] == steps.last());
    if prev.len() > 0 {
        assert(non_decreasing(prev)) by {
            assert forall|i: int, j: int| 0 <= i < j < prev.len() implies #[trigger] prev[i].1
                <= #[trigger] prev[j].1 by {
                assert(prev[i] == steps[i]);
                assert(prev[j] == steps[j]);
            }
        }
        lemma_non_decreasing_peak_is_best(prev);
        assert(prev.last() == steps[n - 1]);
        assert(steps[n - 1].1 <= steps[n].1);
        lemma_best_sizes_were_read(prev);
    }
    assert(best_after(initial_best(), steps) == next_best(
        best_after(initial_best(), prev),
        steps[n].0,
        steps[n].1,
    ));
}

/// The first local maximum of a sweep is fixed by the readings up to the
/// first drop: when the trackers after `a` have left the increasing phase,
/// no readings `b` that follow change it.
pub proof fn lemma_peak_fixed_at_first_drop(a: Seq<(usize, u128)>, b: Seq<(usize, u128)>)
    requires
        !best_after(initial_best(), a).increasing,
    ensures
        best_after(initial_best(), a + b).first_peak_size == best_after(
            initial_best(),
            a,
        ).first_peak_size,
        best_after(initial_best(), a + b).first_peak_throughput == best_after(
            initial_best(),
            a,
        ).first_peak_throughput,
{
    lemma_best_after_append(initial_best(), a, b);
    lemma_best_dominates_peak(initial_best(), a);
    lemma_frozen_peak_stays(best_after(initial_best(), a), b);
}

/// One buffer size of a sweep: the estimate run, the measurement run and
/// the measured throughput in bytes per second.
pub struct Measurement {
    pub buf_size: usize,
    pub estimate: RunStats,
    pub stats: RunStats,
    pub throughput: u128,
}

/// The (size, throughput) readings of a list of measurements.
pub open spec fn readings(ms: Seq<Measurement>) -> Seq<(usize, u128)> {
    ms.map_values(|m: Measurement| (m.buf_size, m.throughput))
}

/// The wrapping sum of the measurement runs' checksums.
pub open spec fn sum_of_checksums(ms: Seq<Measurement>) -> nat
    decreases ms.len(),
{
    if ms.len() == 0 {
        0
    } else {
        sum_of_checksums(ms.drop_last()) + ms.last().stats.byte_sum as nat
    }
}

/// A measurement of `size` over a stream, with summing set by `use_buffer`.
pub open spec fn measured(m: Measurement, size: nat, use_buffer: bool) -> bool {
    &&& m.buf_size == size
    &&& stats_describe(m.estimate, (TIMING_ESTIMATE_SYSCALLS * size) as u64, size, use_buffer)
    &&& stats_describe(
        m.stats,
        scaled_target(m.estimate.duration_nanos as nat, size) as u64,
        size,
        use_buffer,
    )
    &&& m.throughput == rate_of(m.stats.bytes_read as nat, m.stats.duration_nanos as nat)
}

/// The outcome of one sweep.
pub struct SweepReport {
    /// The warm-up run, made before any measurement.
    pub warmup: RunStats,
    /// One entry per buffer size, smallest first.
    pub measurements: Vec<Measurement>,
    /// The trackers after the last measurement.
    pub best: BestSizes,
    /// Wrapping sum of the checksums of every measurement run.
    pub byte_sum: u64,
}

/// An `Overfull` error of a sweep names the warm-up buffer or one of the
/// swept buffer sizes, and a larger length.
pub open spec fn overfull_in_sweep(e: ReadError, range: SweepRange) -> bool {
    match e {
        ReadError::Overfull { returned, capacity } => {
            &&& capacity == WARMUP_BUFFER_BYTES || range.sizes().contains(capacity as nat)
            &&& returned > capacity
        },
        _ => true,
    }
}

/// Runs one sweep over `f`: a warm-up read, then for each size of `range`
/// an estimate run of `TIMING_ESTIMATE_SYSCALLS` buffers and a measurement
/// run whose target is scaled to fill `TARGET_TIMING_NANOS`.
pub fn run_benchmark<R: std::io::Read>(f: &mut R, range: &SweepRange, use_buffer: bool) -> (r: Result<
    SweepReport,
    ReadError,
>)
    requires
        range.wf(),
    ensures
        r matches Ok(rep) ==> {
            let ms = rep.measurements@;
            &&& stats_describe(
                rep.warmup,
                WARMUP_TOTAL_BYTES,
                WARMUP_BUFFER_BYTES as nat,
                use_buffer,
            )
            &&& ms.len() == range.sizes().len()
            &&& forall|i: int|
                0 <= i < ms.len() ==> measured(#[trigger] ms[i], range.sizes()[i], use_buffer)
            &&& rep.best == best_after(initial_best(), readings(ms))
            &&& rep.best.wf()
            &&& range.sizes().contains(rep.best.best_size as nat)
            &&& range.sizes().contains(rep.best.first_peak_size as nat)
            &&& rep.byte_sum == sum_of_checksums(ms) as int % checksum_modulus()
        },
        r is Err ==> overfull_in_sweep(r->Err_0, *range),
{
    let mut warmup_buf: Vec<u8> = vec![1u8; WARMUP_BUFFER_BYTES];
    let warmup = match time_reads(f, warmup_buf.as_mut_slice(), WARMUP_TOTAL_BYTES, use_buffer) {
        Ok(s) => s,
        Err(e) => {
            return Err(e);
        },
    };

    let mut measurements: Vec<Measurement> = Vec::new();
    let mut best = BestSizes::new();
    let mut byte_sum: u64 = 0;
    let mut buf_size: usize = range.start;
    proof {
        assert(range.sizes() =~= Seq::<nat>::empty() + sweep_sizes(buf_size as nat, range.end as nat));
    }
    while buf_size <= range.end
        invariant
            range.wf(),
            1 <= buf_size <= 2 * MAX_BUFFER_BYTES,
            range.sizes() == measurements@.map_values(|m: Measurement| m.buf_size as nat) + sweep_sizes(
                buf_size as nat,
                range.end as nat,
            ),
            forall|i: int|
                0 <= i < measurements@.len() ==> measured(
                    #[trigger] measurements@[i],
                    measurements@[i].buf_size as nat,
                    use_buffer,
                ),
            best == best_after(initial_best(), readings(measurements@)),
            best.wf(),
            byte_sum == sum_of_checksums(measurements@) as int % checksum_modulus(),
        decreases 2 * MAX_BUFFER_BYTES - buf_size,
    {
        let ghost prev = measurements@;
        let ghost prefix = prev.map_values(|m: Measurement| m.buf_size as nat);
        proof {
            assert(sweep_sizes(buf_size as nat, range.end as nat) == seq![buf_size as nat]
                + sweep_sizes(2 * buf_size as nat, range.end as nat)) by {
                if 2 * buf_size > range.end {
                    assert(sweep_sizes(2 * buf_size as nat, range.end as nat) =~= Seq::<nat>::empty());
                    assert(seq![buf_size as nat] + Seq::<nat>::empty() =~= seq![buf_size as nat]);
                }
            }
            assert(range.sizes()[prefix.len() as int] == buf_size as nat);
            assert(range.sizes().contains(buf_size as nat));
        }
        let mut buf: Vec<u8> = vec![1u8; buf_size];
        let estimate_target: u64 = TIMING_ESTIMATE_SYSCALLS * buf_size as u64;
        let estimate = match time_reads(f, buf.as_mut_slice(), estimate_target, use_buffer) {
            Ok(s) => s,
            Err(e) => {
                return Err(e);
            },
        };
        let target = measure_target(estimate.duration_nanos, buf_size);
        let stats = match time_reads(f, buf.as_mut_slice(), target, use_buffer) {
            Ok(s) => s,
            Err(e) => {
                return Err(e);
            },
        };
        let rate = throughput(stats.bytes_read, stats.duration_nanos);
        best.update(buf_size, rate);
        let m = Measurement { buf_size, estimate, stats, throughput: rate };
        proof {
            lemma_wrapping_step(sum_of_checksums(prev) as int, m.stats.byte_sum as int);
        }
        byte_sum = wrapping_sum(byte_sum, m.stats.byte_sum);
        measurements.push(m);
        proof {
            let ms = measurements@;
            assert(ms.drop_last() =~= prev);
            assert(readings(ms).drop_last() =~= readings(prev));
            assert(ms.map_values(|m: Measurement| m.buf_size as nat) =~= prefix.push(buf_size as nat));
            assert(prefix + sweep_sizes(buf_size as nat, range.end as nat) =~= ms.map_values(
                |m: Measurement| m.buf_size as nat,
            ) + sweep_sizes(2 * buf_size as nat, range.end as nat));
        }
        buf_size = buf_size * 2;
    }
    proof {
        assert(sweep_sizes(buf_size as nat, range.end as nat) =~= Seq::<nat>::empty());
        let ms = measurements@;
        let sizes = ms.map_values(|m: Measurement| m.buf_size as nat);
        assert(range.sizes() =~= sizes);
        assert forall|i: int| 0 <= i < ms.len() implies measured(#[trigger] ms[i], range.sizes()[i], use_buffer) by {
            assert(sizes[i] == ms[i].buf_size as nat);
        }
    }
    proof {
        let ms = measurements@;
        let steps = readings(ms);
        assert(range.sizes()[0] == range.start as nat);
        lemma_best_sizes_were_read(steps);
        let i = choose|i: int| 0 <= i < steps.len() && #[trigger] steps[i].0 == best.best_size;
        let j = choose|j: int| 0 <= j < steps.len() && #[trigger] steps[j].0 == best.first_peak_size;
        assert(range.sizes()[i] == best.best_size as nat);
        assert(range.sizes()[j] == best.first_peak_size as nat);
    }
    Ok(SweepReport { warmup, measurements, best, byte_sum })
}

/// Every measurement of a sweep reads at least the byte target scaled from
/// its estimate (it may overshoot, never undershoot), and both of its runs
/// make at least one read call, with no more short reads than read calls.
pub proof fn lemma_measurement_meets_target(m: Measurement, size: nat, use_buffer: bool)
    requires
        1 <= size <= MAX_BUFFER_BYTES,
        measured(m, size, use_buffer),
    ensures
        m.stats.total_bytes == scaled_target(m.estimate.duration_nanos as nat, size),
        m.stats.bytes_read >= scaled_target(m.estimate.duration_nanos as nat, size),
        m.stats.num_syscalls >= 1,
        m.stats.short_reads <= m.stats.num_syscalls,
        m.estimate.num_syscalls >= 1,
        m.estimate.short_reads <= m.estimate.num_syscalls,
{
    let d = m.estimate.duration_nanos as nat;
    let dd: nat = if d == 0 { 1 } else { d };
    let p: nat = TARGET_TIMING_NANOS as nat * (TIMING_ESTIMATE_SYSCALLS as nat * size);
    assert(p <= TARGET_TIMING_NANOS * (TIMING_ESTIMATE_SYSCALLS * MAX_BUFFER_BYTES)) by (nonlinear_arith)
        requires
            size <= MAX_BUFFER_BYTES,
            p == TARGET_TIMING_NANOS as nat * (TIMING_ESTIMATE_SYSCALLS as nat * size),
    ;
    assert(p / dd <= p) by (nonlinear_arith)
        requires
            dd >= 1,
    ;
    lemma_stats_counts(
        m.stats,
        scaled_target(d, size) as u64,
        size,
        use_buffer,
    );
    lemma_stats_counts(
        m.estimate,
        (TIMING_ESTIMATE_SYSCALLS * size) as u64,
        size,
        use_buffer,
    );
}

} // verus!
