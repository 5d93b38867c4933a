use buffersizebench::sweep::{
    is_power_of_two, measure_target, run_benchmark, throughput, BestSizes, RangeError, SweepRange,
    MAX_BUFFER_BYTES,
};

#[test]
fn powers_of_two() {
    assert!(is_power_of_two(1));
    assert!(is_power_of_two(4096));
    assert!(is_power_of_two(MAX_BUFFER_BYTES));
    assert!(!is_power_of_two(0));
    assert!(!is_power_of_two(3));
    assert!(!is_power_of_two(4097));
}

#[test]
fn range_checks() {
    assert_eq!(SweepRange::new(4096, 16384), Ok(SweepRange { start: 4096, end: 16384 }));
    assert_eq!(SweepRange::new(4096, 4096), Ok(SweepRange { start: 4096, end: 4096 }));
    assert_eq!(
        SweepRange::new(1, MAX_BUFFER_BYTES),
        Ok(SweepRange { start: 1, end: MAX_BUFFER_BYTES })
    );
    assert_eq!(SweepRange::new(8192, 4096), Err(RangeError::StartAfterEnd));
    assert_eq!(SweepRange::new(4096, 2 * MAX_BUFFER_BYTES), Err(RangeError::EndTooLarge));
    assert_eq!(SweepRange::new(3000, 4096), Err(RangeError::StartNotPowerOfTwo));
    assert_eq!(SweepRange::new(0, 4096), Err(RangeError::StartNotPowerOfTwo));
    assert_eq!(SweepRange::new(4096, 5000), Err(RangeError::EndNotPowerOfTwo));
}

#[test]
fn target_scales_to_two_seconds() {
    // 409600 bytes in one second: 819200 bytes fill two.
    assert_eq!(measure_target(1_000_000_000, 4096), 819_200);
    assert_eq!(measure_target(2_000_000_000, 4096), 409_600);
    assert_eq!(measure_target(3, 1), 66_666_666_666);
}

#[test]
fn target_has_a_floor_and_a_zero_estimate_counts_as_one_nanosecond() {
    assert_eq!(measure_target(u64::MAX, 1), 100);
    assert_eq!(measure_target(0, 4096), 819_200_000_000_000);
    assert_eq!(measure_target(0, MAX_BUFFER_BYTES), 3_355_443_200_000_000_000);
}

#[test]
fn throughput_in_bytes_per_second() {
    assert_eq!(throughput(1_048_576, 1_000_000_000), 1_048_576);
    assert_eq!(throughput(1000, 500_000_000), 2000);
    assert_eq!(throughput(3, 0), 3_000_000_000);
    assert_eq!(throughput(u64::MAX, 1), u64::MAX as u128 * 1_000_000_000);
}

#[test]
fn first_peak_freezes_after_a_drop() {
    let mut b = BestSizes::new();
    b.update(4096, 100);
    b.update(8192, 200);
    b.update(16384, 150);
    b.update(32768, 400);
    assert_eq!(b.first_peak_size, 8192);
    assert_eq!(b.first_peak_throughput, 200);
    assert!(!b.increasing);
    assert_eq!(b.best_size, 32768);
    assert_eq!(b.best_throughput, 400);
    assert!(b.best_throughput >= b.first_peak_throughput);
}

#[test]
fn first_reading_sets_both_trackers_even_at_zero() {
    let mut b = BestSizes::new();
    assert!(!b.seen);
    b.update(4096, 0);
    assert!(b.seen);
    assert_eq!(b.best_size, 4096);
    assert_eq!(b.first_peak_size, 4096);
    b.update(8192, 0);
    assert_eq!(b.best_size, 4096);
    assert_eq!(b.first_peak_size, 4096);
    assert!(b.increasing);
}

#[test]
fn equal_throughput_keeps_the_peak_open() {
    let mut b = BestSizes::new();
    b.update(4096, 100);
    b.update(8192, 100);
    assert!(b.increasing);
    assert_eq!(b.first_peak_size, 4096);
    b.update(16384, 300);
    assert_eq!(b.first_peak_size, 16384);
    assert_eq!(b.best_size, 16384);
}

#[test]
fn sweep_over_three_sizes() {
    let range = SweepRange::new(4096, 16384).unwrap();
    let mut src = std::io::repeat(0);
    let rep = run_benchmark(&mut src, &range, false).unwrap();
    assert_eq!(rep.warmup.total_bytes, 4096);
    assert_eq!(rep.warmup.bytes_read, 4096);
    assert_eq!(rep.warmup.num_syscalls, 4);
    let sizes: Vec<usize> = rep.measurements.iter().map(|m| m.buf_size).collect();
    assert_eq!(sizes, vec![4096, 8192, 16384]);
    for m in rep.measurements.iter() {
        assert_eq!(m.estimate.total_bytes, 100 * m.buf_size as u64);
        assert_eq!(m.stats.total_bytes, measure_target(m.estimate.duration_nanos, m.buf_size));
        assert!(m.stats.bytes_read >= m.stats.total_bytes);
        assert!(m.stats.num_syscalls >= 1);
        assert!(m.stats.short_reads <= m.stats.num_syscalls);
        assert_eq!(m.throughput, throughput(m.stats.bytes_read, m.stats.duration_nanos));
    }
    assert!(sizes.contains(&rep.best.best_size));
    assert!(sizes.contains(&rep.best.first_peak_size));
    assert!(rep.best.best_throughput >= rep.best.first_peak_throughput);
    assert_eq!(rep.byte_sum, 0);
}

/// Claims one byte more than the buffer holds.
struct Overclaim;

impl std::io::Read for Overclaim {
    fn read(&mut self, buf: &mut [u8]) -> std::io::Result<usize> {
        Ok(buf.len() + 1)
    }
}

#[test]
fn sweep_error_names_the_warmup_buffer() {
    let range = SweepRange::new(4096, 4096).unwrap();
    let r = run_benchmark(&mut Overclaim, &range, false);
    assert!(matches!(
        r,
        Err(buffersizebench::reader::ReadError::Overfull { returned: 1025, capacity: 1024 })
    ));
}

#[test]
fn non_decreasing_readings_make_the_peak_the_best() {
    let mut b = BestSizes::new();
    b.update(4096, 10);
    b.update(8192, 30);
    b.update(16384, 30);
    b.update(32768, 50);
    assert!(b.increasing);
    assert_eq!(b.first_peak_size, 32768);
    assert_eq!(b.first_peak_throughput, 50);
    assert_eq!(b.best_size, b.first_peak_size);
    assert_eq!(b.best_throughput, 50);
}
