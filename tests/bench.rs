use boundless_proving::bench::{
    input_source, BenchError, BenchmarkRun, InputKind, InputSource, JobStatus, PollStep,
    POLL_INTERVAL_MILLIS,
};
use boundless_proving::request_id::RequestId;
use boundless_proving::throughput::Measurement;

fn id(n: u128) -> RequestId {
    RequestId::from_halves(0, n)
}

#[test]
fn empty_run_is_refused() {
    assert!(matches!(BenchmarkRun::new(vec![], 10), Err(BenchError::NoRequests)));
}

#[test]
fn run_reports_slowest_request() {
    let mut run = BenchmarkRun::new(vec![id(1), id(2), id(3)], 10).unwrap();
    let figures = [(5_000_000u64, 10_000_000u64), (3_000_000, 15_000_000), (8_000_000, 10_000_000)];
    for (n, (cycles, micros)) in figures.iter().enumerate() {
        assert_eq!(run.current(), Some(id(n as u128 + 1)));
        assert_eq!(
            run.on_status(JobStatus::Running).unwrap(),
            PollStep::Wait { millis: POLL_INTERVAL_MILLIS }
        );
        let step = run.on_status(JobStatus::Succeeded { total_cycles: Some(*cycles) }).unwrap();
        assert_eq!(step, PollStep::Completed { reported_cycles: *cycles });
        run.record(Measurement { cycles: *cycles, elapsed_micros: *micros }).unwrap();
    }
    assert!(run.is_finished());
    assert_eq!(run.current(), None);
    let report = run.report().unwrap();
    assert_eq!(report.sample.request_id, id(2));
    assert_eq!(report.khz_hundredths, 20_000);
    assert_eq!(report.recommended_khz, 200);
    assert!(!report.low_confidence);
}

#[test]
fn small_job_report_is_low_confidence() {
    let mut run = BenchmarkRun::new(vec![id(1)], 10).unwrap();
    run.record(Measurement { cycles: 500_000, elapsed_micros: 250_000 }).unwrap();
    let report = run.report().unwrap();
    assert_eq!(report.recommended_khz, 2000);
    assert!(report.low_confidence);
}

#[test]
fn failed_job_stops_run() {
    let mut run = BenchmarkRun::new(vec![id(4), id(5)], 10).unwrap();
    assert_eq!(run.on_status(JobStatus::Failed), Err(BenchError::JobFailed { request_id: id(4) }));
}

#[test]
fn success_without_stats_stops_run() {
    let mut run = BenchmarkRun::new(vec![id(4)], 10).unwrap();
    assert_eq!(
        run.on_status(JobStatus::Succeeded { total_cycles: None }),
        Err(BenchError::MissingStats { request_id: id(4) })
    );
}

#[test]
fn polling_is_bounded() {
    let mut run = BenchmarkRun::new(vec![id(6)], 2).unwrap();
    assert!(run.on_status(JobStatus::Running).is_ok());
    assert!(run.on_status(JobStatus::Running).is_ok());
    assert_eq!(
        run.on_status(JobStatus::Running),
        Err(BenchError::PollTimeout { request_id: id(6) })
    );
}

#[test]
fn poll_budget_resets_per_request() {
    let mut run = BenchmarkRun::new(vec![id(1), id(2)], 1).unwrap();
    assert!(run.on_status(JobStatus::Running).is_ok());
    run.record(Measurement { cycles: 10, elapsed_micros: 10 }).unwrap();
    assert!(run.on_status(JobStatus::Running).is_ok());
}

#[test]
fn measurement_without_time_stops_run() {
    let mut run = BenchmarkRun::new(vec![id(7)], 1).unwrap();
    assert_eq!(
        run.record(Measurement { cycles: 10, elapsed_micros: 0 }),
        Err(BenchError::NoThroughput { request_id: id(7) })
    );
    assert!(run.report().is_none());
}

#[test]
fn input_kinds() {
    assert!(matches!(input_source(InputKind::Inline, vec![1, 2]), Some(InputSource::Inline(d)) if d == vec![1, 2]));
    assert!(matches!(input_source(InputKind::Url, b"http://x".to_vec()), Some(InputSource::Url(u)) if u == b"http://x".to_vec()));
    assert!(input_source(InputKind::Unsupported, vec![1]).is_none());
}
