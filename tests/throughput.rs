use boundless_proving::request_id::RequestId;
use boundless_proving::throughput::{select_measurement, BenchmarkSample, Measurement, WorstCase};

fn sample(n: u128, cycles: u64, micros: u64) -> BenchmarkSample {
    BenchmarkSample::new(RequestId::from_halves(0, n), Measurement { cycles, elapsed_micros: micros })
        .unwrap()
}

#[test]
fn client_clock_rate() {
    let m = select_measurement(None, 2_000_000, 2_000_000);
    let s = BenchmarkSample::new(RequestId::from_halves(0, 1), m).unwrap();
    assert_eq!(s.khz(), 1000);
    assert_eq!(s.khz_hundredths(), 100_000);
}

#[test]
fn telemetry_wins_over_client_clock() {
    let telemetry = Measurement { cycles: 4_000_000, elapsed_micros: 1_000_000 };
    let m = select_measurement(Some(telemetry), 2_000_000, 2_000_000);
    assert_eq!(m, telemetry);
    let s = BenchmarkSample::new(RequestId::from_halves(0, 1), m).unwrap();
    assert_eq!(s.khz(), 4000);
}

#[test]
fn zero_cycles_or_time_has_no_rate() {
    let id = RequestId::from_halves(0, 1);
    assert!(BenchmarkSample::new(id, Measurement { cycles: 0, elapsed_micros: 10 }).is_none());
    assert!(BenchmarkSample::new(id, Measurement { cycles: 10, elapsed_micros: 0 }).is_none());
}

#[test]
fn worst_case_is_the_minimum() {
    let mut worst = WorstCase::new();
    assert!(worst.worst().is_none());
    // 500, 200 and 800 kHz
    worst.observe(sample(1, 5_000_000, 10_000_000));
    worst.observe(sample(2, 3_000_000, 15_000_000));
    worst.observe(sample(3, 8_000_000, 10_000_000));
    let w = worst.worst().unwrap();
    assert_eq!(w.khz(), 200);
    assert_eq!(w.request_id, RequestId::from_halves(0, 2));
    assert_eq!(w.cycles, 3_000_000);
    assert_eq!(w.elapsed_micros, 15_000_000);
}

#[test]
fn equal_rate_keeps_earlier_sample() {
    let mut worst = WorstCase::new();
    worst.observe(sample(1, 1_000_000, 1_000_000));
    worst.observe(sample(2, 2_000_000, 2_000_000));
    assert_eq!(worst.worst().unwrap().request_id, RequestId::from_halves(0, 1));
}

#[test]
fn small_worst_case_is_low_confidence() {
    let mut worst = WorstCase::new();
    assert!(!worst.low_confidence());
    worst.observe(sample(1, 999_999, 1_000_000));
    assert!(worst.low_confidence());
}

#[test]
fn large_worst_case_is_trusted() {
    let mut worst = WorstCase::new();
    worst.observe(sample(1, 1_000_000, 1_000_000));
    assert!(!worst.low_confidence());
}

#[test]
fn rate_rounding() {
    // 1234.5 kHz rounds up, 1234.4 kHz rounds down
    let up = sample(1, 2_469, 2_000);
    assert_eq!(up.khz(), 1234);
    assert_eq!(up.khz_rounded(), 1235);
    assert_eq!(up.khz_hundredths(), 123_450);
    let down = sample(2, 12_344, 10_000);
    assert_eq!(down.khz_rounded(), 1234);
}

#[test]
fn slower_comparison_is_by_rate() {
    let a = sample(1, 1_000, 2_000);
    let b = sample(2, 1_000, 1_000);
    assert!(a.is_slower_than(&b));
    assert!(!b.is_slower_than(&a));
    assert!(!a.is_slower_than(&a));
}
