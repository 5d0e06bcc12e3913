//! Stored records of monitors and of their check results.
use vstd::prelude::*;
use vstd::string::*;
use crate::monitor_types::CheckResult;
use crate::tools_types::monitor_type_name;

verus! {

/// A stored monitor definition.
#[derive(Clone, Debug)]
pub struct MonitorConfigModel {
    pub id: i32,
    pub name: Option<String>,
    pub target: String,
    pub method: Option<String>,
    pub monitor_type: String,
    pub interval_ms: Option<i32>,
    pub timeout_ms: i32,
    pub config_json: Option<String>,
    pub enabled: i32,
    pub tag: Option<String>,
    pub created_at: Option<chrono::NaiveDateTime>,
    pub updated_at: Option<chrono::NaiveDateTime>,
}

/// A check result to store.
#[derive(Clone, Debug)]
pub struct CheckResultModelInsert {
    pub monitor_id: i32,
    pub monitor_type: String,
    pub status: i32,
    pub response_time: i32,
    pub metadata_json: Option<String>,
}

/// The record stored for a check result of monitor `monitor_id`, with its
/// findings serialised as `metadata_json`.
pub fn check_result_record(monitor_id: i32, result: &CheckResult, metadata_json: String) -> (r: CheckResultModelInsert)
    ensures
        r.monitor_id == monitor_id,
        r.monitor_type@ == monitor_type_name(result.monitor_type),
        r.status == if result.status { 1i32 } else { 0i32 },
        r.response_time == 0,
        r.metadata_json matches Some(m) && m@ == metadata_json@,
{
    CheckResultModelInsert {
        monitor_id,
        monitor_type: result.monitor_type.to_string(),
        status: if result.status { 1 } else { 0 },
        response_time: 0,
        metadata_json: Some(metadata_json),
    }
}

} // verus!
