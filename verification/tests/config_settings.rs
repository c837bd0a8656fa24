use tempus::config::AppConfig;
use tempus::error::TempusError;

fn valid_config() -> AppConfig {
    let mut c = AppConfig::default();
    c.database.url = "postgres://localhost/tempus".to_string();
    c
}

#[test]
fn defaults_match_the_documented_values() {
    let c = AppConfig::default();
    assert_eq!(c.database.max_connections, 100);
    assert_eq!(c.database.min_connections, 30);
    assert_eq!(c.database.connect_timeout_secs, 8);
    assert_eq!(c.database.acquire_timeout_secs, 8);
    assert_eq!(c.database.idle_timeout_secs, 60);
    assert_eq!(c.database.max_lifetime_secs, 60);
    assert_eq!(c.engine.max_concurrent_jobs, 10);
    assert_eq!(c.engine.retry_attempts, 3);
    assert_eq!(c.engine.base_delay_minutes, 2);
    assert_eq!(c.http.port, 3000);
    assert_eq!(c.http.pool_idle_timeout_secs, 30);
    assert_eq!(c.http.request_timeout_secs, 30);
    assert_eq!(c.kafka.bootstrap_servers, "localhost:9092");
    assert_eq!(c.kafka.default_topic, "tempus-events");
    assert_eq!(c.kafka.producer_timeout_secs, 30);
    assert_eq!(c.kafka.producer_retries, 5);
    assert_eq!(c.kafka.batch_size, 16384);
    assert_eq!(c.kafka.compression_type, "snappy");
}

#[test]
fn validate_accepts_a_complete_configuration() {
    assert!(valid_config().validate().is_ok());
}

#[test]
fn validate_requires_a_database_url() {
    let c = AppConfig::default();
    match c.validate() {
        Err(TempusError::Validation(m)) => assert_eq!(m, "Database URL cannot be empty"),
        _ => panic!("an empty database URL must be rejected"),
    }
}

#[test]
fn validate_requires_pool_bounds_in_order() {
    let mut c = valid_config();
    c.database.max_connections = 10;
    c.database.min_connections = 20;
    match c.validate() {
        Err(TempusError::Validation(m)) => {
            assert_eq!(m, "Max connections cannot be less than min connections")
        },
        _ => panic!("an inverted pool bound must be rejected"),
    }
}

#[test]
fn validate_requires_a_worker_slot() {
    let mut c = valid_config();
    c.engine.max_concurrent_jobs = 0;
    match c.validate() {
        Err(TempusError::Validation(m)) => {
            assert_eq!(m, "Max concurrent jobs must be greater than 0")
        },
        _ => panic!("zero worker slots must be rejected"),
    }
}

#[test]
fn validate_requires_kafka_settings() {
    let mut c = valid_config();
    c.kafka.bootstrap_servers = String::new();
    match c.validate() {
        Err(TempusError::Validation(m)) => {
            assert_eq!(m, "Kafka bootstrap servers cannot be empty")
        },
        _ => panic!("empty bootstrap servers must be rejected"),
    }
    let mut c = valid_config();
    c.kafka.default_topic = String::new();
    match c.validate() {
        Err(TempusError::Validation(m)) => assert_eq!(m, "Kafka default topic cannot be empty"),
        _ => panic!("an empty default topic must be rejected"),
    }
}

#[test]
fn timeout_getters_carry_the_configured_seconds() {
    let c = valid_config();
    assert_eq!(c.database.connect_timeout(), std::time::Duration::from_secs(8));
    assert_eq!(c.database.acquire_timeout(), std::time::Duration::from_secs(8));
    assert_eq!(c.database.idle_timeout(), std::time::Duration::from_secs(60));
    assert_eq!(c.database.max_lifetime(), std::time::Duration::from_secs(60));
    assert_eq!(c.http.pool_idle_timeout(), std::time::Duration::from_secs(30));
    assert_eq!(c.http.request_timeout(), std::time::Duration::from_secs(30));
    assert_eq!(c.kafka.producer_timeout(), std::time::Duration::from_secs(30));
}
