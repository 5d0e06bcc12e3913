//! Settings of the analytics service.
use vstd::prelude::*;

verus! {

#[derive(Clone, Debug)]
pub struct AppConfig {
    pub app: AppSettings,
    pub kafka: KafkaSettings,
    pub storage: StorageSettings,
    pub processor: ProcessingSettings,
}

/// Who and what the service is.
#[derive(Clone, Debug)]
pub struct AppSettings {
    pub name: String,
    pub version: String,
    pub description: String,
    pub author: String,
    pub author_email: String,
}

/// Where events are consumed from and how connecting is retried.
#[derive(Clone, Debug)]
pub struct KafkaSettings {
    pub brokers: Vec<String>,
    pub group_id: String,
    pub topic: String,
    pub max_retries: usize,
    pub retry_backoff_ms: u64,
}

#[derive(Clone, Debug)]
pub struct StorageSettings {
    pub clickhouse: ClickHouseSettings,
    pub redis: RedisSettings,
    pub sqlite: SqliteSettings,
}

#[derive(Clone, Debug)]
pub struct ClickHouseSettings {
    pub url: String,
    pub database: String,
    pub username: String,
    pub password: String,
    pub connection_pool_size: u32,
    pub compression: String,
    pub connection_timeout_secs: u64,
}

#[derive(Clone, Debug)]
pub struct RedisSettings {
    pub url: String,
    pub password: Option<String>,
}

#[derive(Clone, Debug)]
pub struct SqliteSettings {
    pub url: String,
    pub max_connections: u32,
}

/// Sessionizing and batching settings.
#[derive(Clone, Debug)]
pub struct ProcessingSettings {
    pub session_timeout_secs: u64,
    pub batch_interval_secs: u64,
    pub events_max_size: u64,
}

impl AppConfig {
    pub fn get_kafka_config(&self) -> (k: &KafkaSettings)
        ensures
            *k == self.kafka,
    {
        &self.kafka
    }
}

} // verus!
