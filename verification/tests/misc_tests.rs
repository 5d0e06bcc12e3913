use point_monitor::config::{AppConfig, AppSettings, ClickHouseSettings, KafkaSettings, ProcessingSettings, RedisSettings, SqliteSettings, StorageSettings};
use point_monitor::errors::AppError;
use point_monitor::external::{unix_now_ms, url_components};
use point_monitor::paging::{page_window, try_page_window, DefaultResponseObj, PaginationParams};

#[test]
fn pagination_defaults_to_first_page() {
    let p = PaginationParams { page_no: None, page_size: None };
    assert_eq!(p.resolve(20), (1, 20));
    let p = PaginationParams { page_no: Some(3), page_size: Some(5) };
    assert_eq!(p.resolve(20), (3, 5));
}

#[test]
fn page_window_is_limit_and_offset() {
    assert_eq!(page_window(1, 10), (10, 0));
    assert_eq!(page_window(3, 10), (10, 20));
    assert_eq!(page_window(0, 0), (1, 0));
    assert_eq!(page_window(-5, 7), (7, 0));
    assert_eq!(page_window(4, -1), (1, 3));
}

#[test]
fn ok_responses_carry_data() {
    let r = DefaultResponseObj::ok(vec![1, 2]);
    assert_eq!(r.code, 200);
    assert_eq!(r.message, "OK");
    assert_eq!(r.data, vec![1, 2]);
}

#[test]
fn retryable_errors() {
    assert!(AppError::KafkaError("k".to_string()).is_retryable());
    assert!(AppError::ClickHouseError("c".to_string()).is_retryable());
    assert!(AppError::RedisError("r".to_string()).is_retryable());
    assert!(AppError::IoError("i".to_string()).is_retryable());
    assert!(AppError::ProcessingError("p".to_string()).is_retryable());
    assert!(!AppError::ConfigError("c".to_string()).is_retryable());
    assert!(!AppError::SerdeError("s".to_string()).is_retryable());
    assert!(!AppError::InvalidDataError("d".to_string()).is_retryable());
    assert!(!AppError::ArcError("a".to_string()).is_retryable());
    assert!(!AppError::StorageError("s".to_string()).is_retryable());
    assert!(!AppError::ClickHouseStorageError("s".to_string()).is_retryable());
    assert!(!AppError::DatabaseError("d".to_string()).is_retryable());
    assert!(!AppError::UnknownError("u".to_string()).is_retryable());
}

#[test]
fn kafka_settings_are_read_from_the_config() {
    let cfg = AppConfig {
        app: AppSettings {
            name: "a".to_string(),
            version: "1".to_string(),
            description: String::new(),
            author: String::new(),
            author_email: String::new(),
        },
        kafka: KafkaSettings {
            brokers: vec!["localhost:9092".to_string()],
            group_id: "g".to_string(),
            topic: "t".to_string(),
            max_retries: 3,
            retry_backoff_ms: 100,
        },
        storage: StorageSettings {
            clickhouse: ClickHouseSettings {
                url: String::new(),
                database: String::new(),
                username: String::new(),
                password: String::new(),
                connection_pool_size: 1,
                compression: String::new(),
                connection_timeout_secs: 1,
            },
            redis: RedisSettings { url: String::new(), password: None },
            sqlite: SqliteSettings { url: String::new(), max_connections: 1 },
        },
        processor: ProcessingSettings { session_timeout_secs: 1800, batch_interval_secs: 5, events_max_size: 100 },
    };
    let k = cfg.get_kafka_config();
    assert_eq!(k.topic, "t");
    assert_eq!(k.brokers, vec!["localhost:9092".to_string()]);
    assert_eq!(k.max_retries, 3);
}

#[test]
fn clock_reads_after_the_epoch() {
    let a = unix_now_ms();
    let b = unix_now_ms();
    assert!(a > 1_600_000_000_000);
    assert!(b >= a);
}

#[test]
fn urls_are_parsed() {
    assert_eq!(
        url_components("https://example.com/path?q=1"),
        Some((Some("example.com".to_string()), Some(443), "https".to_string()))
    );
    assert!(url_components("example.com").is_none());
    assert!(url_components("").is_none());
}

#[test]
fn page_window_refuses_an_overflowing_offset() {
    assert_eq!(try_page_window(3, 10), Some((10, 20)));
    assert_eq!(try_page_window(i64::MAX, 2), None);
    assert_eq!(try_page_window(i64::MAX, 1), Some((1, i64::MAX - 1)));
}
