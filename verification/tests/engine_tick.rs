use tempus::config::AppConfig;
use tempus::domain::{JobEntity, JobMetadataStatus, JobType};
use tempus::engine::{Resolution, TempusEngine, resolve};
use tempus::executor::ExecOutcome;
use tempus::metrics::MetricsSink;
use tempus::store::JobStore;

fn engine() -> TempusEngine {
    let mut config = AppConfig::default();
    config.database.url = "postgres://localhost/tempus".to_string();
    TempusEngine::new(config).unwrap()
}

fn job(id: u128, time: i64, retries: i32, job_type: JobType, target: &str) -> JobEntity {
    JobEntity {
        id,
        time,
        retries,
        target: target.to_string(),
        job_type,
        payload: "{}".to_string(),
    }
}

fn all_delivered(code: u16) -> Vec<ExecOutcome> {
    let mut v = Vec::new();
    for _ in 0..10 {
        v.push(ExecOutcome::HttpDelivered { status_code: code });
    }
    v
}

fn all_failed(message: &str) -> Vec<ExecOutcome> {
    let mut v = Vec::new();
    for _ in 0..10 {
        v.push(ExecOutcome::Failed { message: message.to_string() });
    }
    v
}

#[test]
fn empty_claim_spawns_no_workers() {
    let e = engine();
    let mut store = JobStore::new();
    let mut sink = MetricsSink::new();
    // one job, scheduled in the future: nothing is eligible
    store.insert(job(1, 10_000, 0, JobType::Http, "http://ok/")).unwrap();
    let batch = e.run_tick(&mut store, 500, &all_delivered(200), &mut sink).unwrap();
    assert_eq!(batch.len(), 0);
    assert_eq!(store.metadata_at(0).status, JobMetadataStatus::Scheduled);
    assert_eq!(sink.jobs_processed_count("success"), 0);
    assert_eq!(sink.jobs_processed_count("retry"), 0);
    assert_eq!(sink.jobs_processed_count("failure"), 0);
    assert_eq!(sink.http_requests_count(200), 0);
    assert_eq!(sink.kafka_messages_count(), 0);
}

#[test]
fn happy_path_http() {
    let e = engine();
    let mut store = JobStore::new();
    let mut sink = MetricsSink::new();
    store.insert(job(0xA, 100, 0, JobType::Http, "http://ok/")).unwrap();
    let batch = e.run_tick(&mut store, 100, &all_delivered(200), &mut sink).unwrap();
    assert_eq!(batch.len(), 1);
    let md = store.metadata_at(0);
    assert_eq!(md.status, JobMetadataStatus::Completed);
    assert!(md.processed_at.is_some());
    assert_eq!(sink.jobs_processed_count("success"), 1);
    assert_eq!(sink.http_requests_count(200), 1);
}

#[test]
fn non_2xx_response_still_completes_the_job() {
    let e = engine();
    let mut store = JobStore::new();
    let mut sink = MetricsSink::new();
    store.insert(job(1, 100, 0, JobType::Http, "http://ok/")).unwrap();
    e.run_tick(&mut store, 100, &all_delivered(503), &mut sink).unwrap();
    assert_eq!(store.metadata_at(0).status, JobMetadataStatus::Completed);
    assert_eq!(sink.jobs_processed_count("success"), 1);
    assert_eq!(sink.http_requests_count(503), 1);
}

#[test]
fn kafka_delivery_counts_messages() {
    let e = engine();
    let mut store = JobStore::new();
    let mut sink = MetricsSink::new();
    store.insert(job(1, 100, 0, JobType::Kafka, "orders")).unwrap();
    let mut outcomes = Vec::new();
    for _ in 0..10 {
        outcomes.push(ExecOutcome::KafkaDelivered);
    }
    e.run_tick(&mut store, 100, &outcomes, &mut sink).unwrap();
    assert_eq!(store.metadata_at(0).status, JobMetadataStatus::Completed);
    assert_eq!(sink.kafka_messages_count(), 1);
    assert_eq!(sink.jobs_processed_count("success"), 1);
}

#[test]
fn one_retry_then_success() {
    let e = engine();
    let mut store = JobStore::new();
    let mut sink = MetricsSink::new();
    let start: i64 = 600;
    store.insert(job(1, start, 0, JobType::Http, "http://flaky/")).unwrap();

    // attempt 1: transport error; the job goes back to Scheduled with one
    // attempt recorded and a backed-off time anchored at its own time
    let batch1 = e.run_tick(&mut store, start, &all_failed("connect timeout"), &mut sink).unwrap();
    assert_eq!(batch1.len(), 1);
    let expected_retry_time = start + 2 * 2 * 60; // base 2 min, exponent retries+1 = 1
    assert_eq!(store.metadata_at(0).status, JobMetadataStatus::Scheduled);
    assert_eq!(store.job_at(0).retries, 1);
    assert_eq!(store.job_at(0).time, expected_retry_time);
    assert_eq!(sink.jobs_processed_count("retry"), 1);

    // before the backed-off time nothing is eligible
    let idle = e.run_tick(&mut store, expected_retry_time - 1, &all_delivered(200), &mut sink)
        .unwrap();
    assert_eq!(idle.len(), 0);

    // attempt 2 succeeds
    let batch2 = e.run_tick(&mut store, expected_retry_time, &all_delivered(200), &mut sink)
        .unwrap();
    assert_eq!(batch2.len(), 1);
    assert_eq!(store.metadata_at(0).status, JobMetadataStatus::Completed);
    assert_eq!(sink.jobs_processed_count("success"), 1);
    assert_eq!(sink.jobs_processed_count("retry"), 1);
}

#[test]
fn persistent_failure_exhausts_attempts() {
    let e = engine();
    let mut store = JobStore::new();
    let mut sink = MetricsSink::new();
    store.insert(job(1, 0, 0, JobType::Http, "http://down/")).unwrap();
    let mut now: i64 = 0;
    // attempts at retries 0, 1, 2 each reschedule with doubled backoff
    for expected_retries in 1..=3i32 {
        let due = store.job_at(0).time;
        if due > now {
            now = due;
        }
        let batch = e.run_tick(&mut store, now, &all_failed("refused"), &mut sink).unwrap();
        assert_eq!(batch.len(), 1);
        assert_eq!(store.job_at(0).retries, expected_retries);
        assert_eq!(store.metadata_at(0).status, JobMetadataStatus::Scheduled);
    }
    now = store.job_at(0).time;
    assert_eq!(sink.jobs_processed_count("retry"), 3);
    // at retries = retry_attempts the job is no longer eligible for a claim
    let batch = e.run_tick(&mut store, now + 1_000_000, &all_failed("refused"), &mut sink).unwrap();
    assert_eq!(batch.len(), 0);
    // a failure at the bound is permanent: the decision and the terminal row
    let r = resolve(store.job_at(0), ExecOutcome::Failed { message: "refused".to_string() }, 3, 2);
    match r {
        Resolution::Fail { message } => {
            let msg = message.clone();
            store.mark_failed(1, message, 999).unwrap();
            assert_eq!(store.metadata_at(0).status, JobMetadataStatus::Failed);
            assert_eq!(store.metadata_at(0).failure, Some(msg));
            assert_eq!(store.metadata_at(0).processed_at, Some(999));
        },
        _ => panic!("a failure at the retry bound must be permanent"),
    }
}

#[test]
fn retries_never_exceed_the_bound() {
    let e = engine();
    let mut store = JobStore::new();
    let mut sink = MetricsSink::new();
    for id in 0..4u128 {
        store.insert(job(id, 0, 0, JobType::Http, "http://down/")).unwrap();
    }
    let mut now: i64 = 0;
    for _ in 0..6 {
        e.run_tick(&mut store, now, &all_failed("refused"), &mut sink).unwrap();
        now += 100_000_000;
        for i in 0..store.num_jobs() {
            assert!(store.job_at(i).retries <= 3);
        }
    }
}

#[test]
fn resolve_decides_from_outcome_and_policy() {
    let j = job(1, 1000, 0, JobType::Http, "http://ok/");
    match resolve(&j, ExecOutcome::HttpDelivered { status_code: 200 }, 3, 2) {
        Resolution::Complete => {},
        _ => panic!("a delivery must complete the job"),
    }
    match resolve(&j, ExecOutcome::Failed { message: "x".to_string() }, 3, 2) {
        Resolution::Retry { new_time, new_retries } => {
            assert_eq!(new_retries, 1);
            assert_eq!(new_time, 1000 + 2 * 2 * 60);
        },
        _ => panic!("a failure below the bound must retry"),
    }
}

#[test]
fn engine_rejects_invalid_configuration() {
    let config = AppConfig::default(); // no database URL
    assert!(TempusEngine::new(config).is_err());
    let mut c2 = AppConfig::default();
    c2.database.url = "postgres://localhost/tempus".to_string();
    c2.engine.max_concurrent_jobs = 0;
    assert!(TempusEngine::new(c2).is_err());
}
