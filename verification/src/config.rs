//! Configuration: the settings the engine, the store pool, the HTTP client
//! and the Kafka producer run with, the documented defaults, and the bounds
//! a configuration must satisfy before the engine accepts it.
//!
//! Reading the environment is left to the program around the library; the
//! library receives a filled-in `AppConfig` and validates it.

use vstd::prelude::*;

verus! {

use crate::error::TempusError;

/// The number of whole seconds a `Duration` holds. `Duration` is opaque to
/// the verifier; this name ties the timeout getters to their second counts.
pub uninterp spec fn duration_secs(d: core::time::Duration) -> int;

/// Relies on `core::time::Duration::from_secs`: the result holds exactly
/// the given number of whole seconds.
pub assume_specification[ core::time::Duration::from_secs ](secs: u64) -> (d: core::time::Duration)
    ensures
        duration_secs(d) == secs as int,
;

#[derive(Debug, Clone)]
pub struct DatabaseConfig {
    pub url: String,
    pub max_connections: u32,
    pub min_connections: u32,
    pub connect_timeout_secs: u64,
    pub acquire_timeout_secs: u64,
    pub idle_timeout_secs: u64,
    pub max_lifetime_secs: u64,
}

#[derive(Debug, Clone)]
pub struct EngineConfig {
    pub max_concurrent_jobs: usize,
    pub retry_attempts: i32,
    pub base_delay_minutes: u32,
}

#[derive(Debug, Clone)]
pub struct HttpConfig {
    pub port: u16,
    pub pool_idle_timeout_secs: u64,
    pub request_timeout_secs: u64,
}

#[derive(Debug, Clone)]
pub struct KafkaConfig {
    pub bootstrap_servers: String,
    pub default_topic: String,
    pub producer_timeout_secs: u64,
    pub producer_retries: u32,
    pub batch_size: u32,
    pub compression_type: String,
}

#[derive(Debug, Clone)]
pub struct AppConfig {
    pub database: DatabaseConfig,
    pub engine: EngineConfig,
    pub http: HttpConfig,
    pub kafka: KafkaConfig,
}

impl DatabaseConfig {
    pub fn connect_timeout(&self) -> (r: core::time::Duration)
        ensures
            duration_secs(r) == self.connect_timeout_secs as int,
    {
        core::time::Duration::from_secs(self.connect_timeout_secs)
    }

    pub fn acquire_timeout(&self) -> (r: core::time::Duration)
        ensures
            duration_secs(r) == self.acquire_timeout_secs as int,
    {
        core::time::Duration::from_secs(self.acquire_timeout_secs)
    }

    pub fn idle_timeout(&self) -> (r: core::time::Duration)
        ensures
            duration_secs(r) == self.idle_timeout_secs as int,
    {
        core::time::Duration::from_secs(self.idle_timeout_secs)
    }

    pub fn max_lifetime(&self) -> (r: core::time::Duration)
        ensures
            duration_secs(r) == self.max_lifetime_secs as int,
    {
        core::time::Duration::from_secs(self.max_lifetime_secs)
    }
}

impl HttpConfig {
    pub fn pool_idle_timeout(&self) -> (r: core::time::Duration)
        ensures
            duration_secs(r) == self.pool_idle_timeout_secs as int,
    {
        core::time::Duration::from_secs(self.pool_idle_timeout_secs)
    }

    pub fn request_timeout(&self) -> (r: core::time::Duration)
        ensures
            duration_secs(r) == self.request_timeout_secs as int,
    {
        core::time::Duration::from_secs(self.request_timeout_secs)
    }
}

impl KafkaConfig {
    pub fn producer_timeout(&self) -> (r: core::time::Duration)
        ensures
            duration_secs(r) == self.producer_timeout_secs as int,
    {
        core::time::Duration::from_secs(self.producer_timeout_secs)
    }
}

impl AppConfig {
    /// The bounds a usable configuration satisfies: a store URL, a pool
    /// whose maximum is no smaller than its minimum, at least one worker
    /// slot, and a reachable Kafka setup.
    pub open spec fn spec_valid(&self) -> bool {
        &&& self.database.url@.len() > 0
        &&& self.database.min_connections <= self.database.max_connections
        &&& self.engine.max_concurrent_jobs > 0
        &&& self.kafka.bootstrap_servers@.len() > 0
        &&& self.kafka.default_topic@.len() > 0
    }

    /// Accepts exactly the configurations that `spec_valid` allows, naming
    /// the first bound that fails.
    pub fn validate(&self) -> (r: Result<(), TempusError>)
        ensures
            r is Ok <==> self.spec_valid(),
            r is Err ==> r matches Err(TempusError::Validation(_)),
            self.database.url@.len() == 0 ==> (r matches Err(TempusError::Validation(m)) && m@
                == "Database URL cannot be empty"@),
    {
        if self.database.url.as_str().unicode_len() == 0 {
            return Err(TempusError::Validation("Database URL cannot be empty".to_owned()));
        }
        if self.database.max_connections < self.database.min_connections {
            return Err(TempusError::Validation(
                "Max connections cannot be less than min connections".to_owned(),
            ));
        }
        if self.engine.max_concurrent_jobs == 0 {
            return Err(TempusError::Validation(
                "Max concurrent jobs must be greater than 0".to_owned(),
            ));
        }
        if self.kafka.bootstrap_servers.as_str().unicode_len() == 0 {
            return Err(TempusError::Validation(
                "Kafka bootstrap servers cannot be empty".to_owned(),
            ));
        }
        if self.kafka.default_topic.as_str().unicode_len() == 0 {
            return Err(TempusError::Validation(
                "Kafka default topic cannot be empty".to_owned(),
            ));
        }
        Ok(())
    }
}

impl Default for AppConfig {
    /// The documented defaults. The store URL is left empty — it has no
    /// default and must be supplied — so the default configuration is not
    /// yet valid.
    fn default() -> (r: AppConfig)
        ensures
            r.database.url@.len() == 0,
            r.database.max_connections == 100,
            r.database.min_connections == 30,
            r.database.connect_timeout_secs == 8,
            r.database.acquire_timeout_secs == 8,
            r.database.idle_timeout_secs == 60,
            r.database.max_lifetime_secs == 60,
            r.engine.max_concurrent_jobs == 10,
            r.engine.retry_attempts == 3,
            r.engine.base_delay_minutes == 2,
            r.http.port == 3000,
            r.http.pool_idle_timeout_secs == 30,
            r.http.request_timeout_secs == 30,
            r.kafka.bootstrap_servers@ == "localhost:9092"@,
            r.kafka.default_topic@ == "tempus-events"@,
            r.kafka.producer_timeout_secs == 30,
            r.kafka.producer_retries == 5,
            r.kafka.batch_size == 16384,
            r.kafka.compression_type@ == "snappy"@,
    {
        AppConfig {
            database: DatabaseConfig {
                url: String::new(),
                max_connections: 100,
                min_connections: 30,
                connect_timeout_secs: 8,
                acquire_timeout_secs: 8,
                idle_timeout_secs: 60,
                max_lifetime_secs: 60,
            },
            engine: EngineConfig { max_concurrent_jobs: 10, retry_attempts: 3, base_delay_minutes: 2 },
            http: HttpConfig { port: 3000, pool_idle_timeout_secs: 30, request_timeout_secs: 30 },
            kafka: KafkaConfig {
                bootstrap_servers: "localhost:9092".to_owned(),
                default_topic: "tempus-events".to_owned(),
                producer_timeout_secs: 30,
                producer_retries: 5,
                batch_size: 16384,
                compression_type: "snappy".to_owned(),
            },
        }
    }
}

} // verus!
