use benchmark::stats::{Benchmark, Report, ReportError};

#[test]
fn new_benchmark_is_empty() {
    let b = Benchmark::new("std – mpsc – sleeping");
    assert_eq!(b.name(), "std – mpsc – sleeping");
    assert_eq!(b.len(), 0);
    assert!(b.samples_slice().is_empty());
}

#[test]
fn add_appends_in_order() {
    let mut b = Benchmark::new("x");
    b.add(5);
    b.add(2);
    b.add(9);
    assert_eq!(b.samples_slice(), &[5, 2, 9]);
    assert_eq!(b.len(), 3);
}

#[test]
fn report_of_empty_set_fails() {
    let mut b = Benchmark::new("x");
    assert_eq!(b.report(), Err(ReportError::NoSamples));
}

#[test]
fn report_odd_length() {
    let mut b = Benchmark::new("x");
    for d in [30, 10, 20] {
        b.add(d);
    }
    let r = b.report().unwrap();
    assert_eq!(r, Report { min: 10, median: 20, mean: 20, max: 30 });
    assert_eq!(b.samples_slice(), &[10, 20, 30]);
}

#[test]
fn report_even_length_takes_upper_middle() {
    let mut b = Benchmark::new("x");
    for d in [4, 1, 3, 2] {
        b.add(d);
    }
    let r = b.report().unwrap();
    assert_eq!(r, Report { min: 1, median: 3, mean: 2, max: 4 });
}

#[test]
fn report_single_sample() {
    let mut b = Benchmark::new("x");
    b.add(7);
    assert_eq!(b.report(), Ok(Report { min: 7, median: 7, mean: 7, max: 7 }));
}

#[test]
fn report_keeps_duplicates() {
    let mut b = Benchmark::new("x");
    for d in [2, 2, 1, 2, 1] {
        b.add(d);
    }
    let r = b.report().unwrap();
    assert_eq!(b.samples_slice(), &[1, 1, 2, 2, 2]);
    assert_eq!(r, Report { min: 1, median: 2, mean: 1, max: 2 });
}

#[test]
fn mean_of_largest_samples_does_not_overflow() {
    let mut b = Benchmark::new("x");
    for _ in 0..3 {
        b.add(u64::MAX);
    }
    let r = b.report().unwrap();
    assert_eq!(r.mean, u64::MAX);
    assert_eq!(r.min, u64::MAX);
}

#[test]
fn order_statistics_hold_on_a_larger_set() {
    let mut b = Benchmark::new("x");
    let mut x: u64 = 12345;
    for _ in 0..99 {
        x = x.wrapping_mul(6364136223846793005).wrapping_add(1442695040888963407);
        b.add(x >> 40);
    }
    let r = b.report().unwrap();
    let s = b.samples_slice();
    assert!(s.windows(2).all(|w| w[0] <= w[1]));
    assert!(r.min <= r.median && r.median <= r.max);
    assert!(r.min <= r.mean && r.mean <= r.max);
    assert_eq!(r.median, s[49]);
    assert_eq!(r.mean, s.iter().sum::<u64>() / 99);
}
