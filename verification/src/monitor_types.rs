//! What a monitor is asked to check and what a check reports.
use vstd::prelude::*;
use vstd::string::*;
use crate::tools_types::{AlertVerificationRules, ContentVerificationRulesSingle, HttpBody, HttpMethodTypes, HttpMonitorResult, MonitorType};

verus! {

/// What to check, how often, and the kind-specific settings.
#[derive(Debug)]
pub struct MonitorConfig {
    pub target: Option<String>,
    pub interval: Option<u64>,
    pub monitor_type: MonitorType,
    pub details: MonitorConfigDetail,
}

/// Kind-specific monitor settings.
#[derive(Debug)]
pub enum MonitorConfigDetail {
    Http(HttpMonitorConfig),
    Https(HttpsMonitorConfig),
    Ftp(FtpMonitorConfig),
    Traceroute(TracerouteMonitorConfig),
    Cpu(CpuMonitorConfig),
    Memory(MemoryMonitorConfig),
    Disk(DiskMonitorConfig),
    Process(ProcessMonitorConfig),
    Unknown(UnknownQueryConfig),
}

/// Settings of a monitor whose kind is not supported.
#[derive(Clone, Debug)]
pub struct UnknownQueryConfig {
    pub description: String,
}

#[derive(Clone, Debug)]
pub struct IcmpMonitorConfig {}

#[derive(Clone, Debug)]
pub struct TcpMonitorConfig {}

#[derive(Clone, Debug)]
pub struct UdpMonitorConfig {}

#[derive(Clone, Debug)]
pub struct DnsMonitorConfig {}

#[derive(Clone, Debug)]
pub struct FtpMonitorConfig {}

#[derive(Clone, Debug)]
pub struct HttpsMonitorConfig {}

/// Settings of an HTTP monitor. The timeout is in seconds; request headers
/// are (name, value) pairs, one per stored name, sent in order.
#[derive(Debug)]
pub struct HttpMonitorConfig {
    pub url: String,
    pub method: HttpMethodTypes,
    pub timeout: u64,
    pub headers: Option<Vec<(String, String)>>,
    pub body: Option<HttpBody>,
    pub rules: Option<Vec<ContentVerificationRulesSingle>>,
    pub alert_config: Option<AlertVerificationRules>,
}

#[derive(Clone, Debug)]
pub struct CpuMonitorConfig {}

#[derive(Clone, Debug)]
pub struct MemoryMonitorConfig {}

#[derive(Clone, Debug)]
pub struct DiskMonitorConfig {}

#[derive(Clone, Debug)]
pub struct ProcessMonitorConfig {}

#[derive(Clone, Debug)]
pub struct TracerouteMonitorConfig {}

/// The outcome of one check.
#[derive(Clone, Debug)]
pub struct CheckResult {
    pub id: u128,
    pub monitor_type: MonitorType,
    pub target: Option<String>,
    pub status: bool,
    pub details: CheckResultDetail,
}

/// Kind-specific findings of a check.
#[derive(Clone, Debug)]
pub enum CheckResultDetail {
    Http(HttpMonitorResult),
    Https(HttpsMonitorResult),
    Ftp(FtpMonitorResult),
    Traceroute(TracerouteMonitorResult),
    Cpu(CpuMonitorResult),
    Memory(MemoryMonitorResult),
    Disk(DiskMonitorResult),
    Process(ProcessMonitorResult),
    Icmp(IcmpMonitorResult),
    Tcp(TcpMonitorResult),
    Udp(UdpMonitorResult),
    Dns(DnsMonitorResult),
    Unknown(UnknownQueryResult),
}

#[derive(Clone, Debug)]
pub struct HttpsMonitorResult {}

#[derive(Clone, Debug)]
pub struct CpuMonitorResult {}

#[derive(Clone, Debug)]
pub struct MemoryMonitorResult {}

#[derive(Clone, Debug)]
pub struct DiskMonitorResult {}

#[derive(Clone, Debug)]
pub struct DnsMonitorResult {}

/// Findings of a check whose kind is not supported.
#[derive(Clone, Debug)]
pub struct UnknownQueryResult {
    pub description: String,
    pub query_type: MonitorType,
}

impl Default for UnknownQueryResult {
    fn default() -> (r: Self)
        ensures
            r.description@ == "No description"@,
            r.query_type == MonitorType::Unknown,
    {
        UnknownQueryResult { description: String::from_str("No description"), query_type: MonitorType::Unknown }
    }
}

#[derive(Clone, Debug)]
pub struct TcpMonitorResult {}

#[derive(Clone, Debug)]
pub struct UdpMonitorResult {}

#[derive(Clone, Debug)]
pub struct IcmpMonitorResult {}

#[derive(Clone, Debug)]
pub struct FtpMonitorResult {}

#[derive(Clone, Debug)]
pub struct TracerouteMonitorResult {}

#[derive(Clone, Debug)]
pub struct ProcessMonitorResult {}

/// A copy of an optional text.
pub fn copy_opt_text(s: &Option<String>) -> (r: Option<String>)
    ensures
        r is Some <==> s is Some,
        r matches Some(t) ==> t@ == s->0@,
{
    match s {
        Some(t) => Some(t.clone()),
        None => None,
    }
}

} // verus!
