use tempus::metrics::{
    MetricsSink, decrement_current_processing_jobs, increment_current_processing_jobs,
    increment_http_requests, increment_jobs_processed, increment_kafka_messages,
    set_current_processing_jobs,
};

#[test]
fn test_metrics_functions_do_not_panic() {
    let mut sink = MetricsSink::new();
    increment_jobs_processed(&mut sink, "success");
    increment_http_requests(&mut sink, 200);
    increment_kafka_messages(&mut sink);
    set_current_processing_jobs(&mut sink, 5);
    increment_current_processing_jobs(&mut sink);
    decrement_current_processing_jobs(&mut sink);

    assert!(true);
}

#[test]
fn counters_start_at_zero() {
    let sink = MetricsSink::new();
    assert_eq!(sink.jobs_processed_count("success"), 0);
    assert_eq!(sink.jobs_processed_count("failure"), 0);
    assert_eq!(sink.jobs_processed_count("retry"), 0);
    assert_eq!(sink.http_requests_count(200), 0);
    assert_eq!(sink.kafka_messages_count(), 0);
    assert_eq!(sink.current_processing_jobs(), 0);
}

#[test]
fn labelled_counters_count_independently() {
    let mut sink = MetricsSink::new();
    increment_jobs_processed(&mut sink, "success");
    increment_jobs_processed(&mut sink, "success");
    increment_jobs_processed(&mut sink, "retry");
    assert_eq!(sink.jobs_processed_count("success"), 2);
    assert_eq!(sink.jobs_processed_count("retry"), 1);
    assert_eq!(sink.jobs_processed_count("failure"), 0);
}

#[test]
fn http_counters_count_by_status_code() {
    let mut sink = MetricsSink::new();
    increment_http_requests(&mut sink, 200);
    increment_http_requests(&mut sink, 200);
    increment_http_requests(&mut sink, 503);
    assert_eq!(sink.http_requests_count(200), 2);
    assert_eq!(sink.http_requests_count(503), 1);
    assert_eq!(sink.http_requests_count(404), 0);
}

#[test]
fn gauge_moves_both_ways() {
    let mut sink = MetricsSink::new();
    set_current_processing_jobs(&mut sink, 5);
    assert_eq!(sink.current_processing_jobs(), 5);
    increment_current_processing_jobs(&mut sink);
    increment_current_processing_jobs(&mut sink);
    assert_eq!(sink.current_processing_jobs(), 7);
    decrement_current_processing_jobs(&mut sink);
    assert_eq!(sink.current_processing_jobs(), 6);
}
