//! Event-stream analytics and service monitoring: the decision logic of a
//! click-stream sessionizer and aggregator, and of an HTTP/host monitor with
//! its alert rules.
pub mod aggregator;
pub mod alerts;
pub mod config;
pub mod connection;
pub mod db_models;
pub mod errors;
pub mod external;
pub mod help_utils;
pub mod http_monitor;
pub mod model;
pub mod monitor_types;
pub mod monitors;
pub mod paging;
pub mod sessions;
pub mod tally;
pub mod text;
pub mod tools_types;
