//! Errors of the analytics service. Errors raised by the storage and
//! messaging clients are carried as their message text.
use vstd::prelude::*;

verus! {

#[derive(Debug)]
pub enum AppError {
    ConfigError(String),
    KafkaError(String),
    ClickHouseError(String),
    RedisError(String),
    IoError(String),
    SerdeError(String),
    ProcessingError(String),
    ArcError(String),
    InvalidDataError(String),
    StorageError(String),
    ClickHouseStorageError(String),
    DatabaseError(String),
    UnknownError(String),
}

/// Failures of the broker, the stores, I/O and processing are worth
/// retrying; configuration, data and pool errors are not.
pub open spec fn retryable(e: AppError) -> bool {
    match e {
        AppError::KafkaError(_) | AppError::ClickHouseError(_) | AppError::RedisError(_) | AppError::IoError(_)
        | AppError::ProcessingError(_) => true,
        _ => false,
    }
}

impl AppError {
    pub fn is_retryable(&self) -> (r: bool)
        ensures
            r == retryable(*self),
    {
        match self {
            AppError::KafkaError(_) | AppError::ClickHouseError(_) | AppError::RedisError(_) | AppError::IoError(_)
            | AppError::ProcessingError(_) => true,
            _ => false,
        }
    }
}

} // verus!
