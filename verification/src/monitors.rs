//! The host and network monitors that do not probe yet: each check reports
//! success for its target with empty findings.
use vstd::prelude::*;
use crate::external::random_uuid_u128;
use crate::monitor_types::{copy_opt_text, CheckResult, CheckResultDetail, CpuMonitorResult, DiskMonitorResult, DnsMonitorResult, FtpMonitorResult, IcmpMonitorResult, MemoryMonitorResult, MonitorConfig, ProcessMonitorResult, TcpMonitorResult, TracerouteMonitorResult, UdpMonitorResult, UnknownQueryResult};
use crate::tools_types::MonitorType;

verus! {

/// `r` reports success of a `kind` check on the configured target.
pub open spec fn reports_success(r: CheckResult, kind: MonitorType, config: MonitorConfig) -> bool {
    &&& r.monitor_type == kind
    &&& r.status
    &&& (r.target is Some <==> config.target is Some)
    &&& (r.target matches Some(t) ==> t@ == config.target->0@)
}

pub struct CpuMonitor {}

impl CpuMonitor {
    pub fn new() -> Self {
        CpuMonitor {}
    }

    /// Reports success for the configured target, with empty findings.
    pub fn check(&self, config: &MonitorConfig) -> (r: CheckResult)
        ensures
            reports_success(r, MonitorType::Cpu, *config),
            r.details matches CheckResultDetail::Cpu(_),
    {
        CheckResult {
            id: random_uuid_u128(),
            monitor_type: MonitorType::Cpu,
            target: copy_opt_text(&config.target),
            status: true,
            details: CheckResultDetail::Cpu(CpuMonitorResult {}),
        }
    }

    pub fn get_type(&self) -> (t: MonitorType)
        ensures
            t == MonitorType::Cpu,
    {
        MonitorType::Cpu
    }
}

pub struct DiskMonitor {}

impl DiskMonitor {
    pub fn new() -> Self {
        DiskMonitor {}
    }

    /// Reports success for the configured target, with empty findings.
    pub fn check(&self, config: &MonitorConfig) -> (r: CheckResult)
        ensures
            reports_success(r, MonitorType::Disk, *config),
            r.details matches CheckResultDetail::Disk(_),
    {
        CheckResult {
            id: random_uuid_u128(),
            monitor_type: MonitorType::Disk,
            target: copy_opt_text(&config.target),
            status: true,
            details: CheckResultDetail::Disk(DiskMonitorResult {}),
        }
    }

    pub fn get_type(&self) -> (t: MonitorType)
        ensures
            t == MonitorType::Disk,
    {
        MonitorType::Disk
    }
}

pub struct DnsMonitor {}

impl DnsMonitor {
    pub fn new() -> Self {
        DnsMonitor {}
    }

    /// Reports success for the configured target, with empty findings.
    pub fn check(&self, config: &MonitorConfig) -> (r: CheckResult)
        ensures
            reports_success(r, MonitorType::Dns, *config),
            r.details matches CheckResultDetail::Dns(_),
    {
        CheckResult {
            id: random_uuid_u128(),
            monitor_type: MonitorType::Dns,
            target: copy_opt_text(&config.target),
            status: true,
            details: CheckResultDetail::Dns(DnsMonitorResult {}),
        }
    }

    pub fn get_type(&self) -> (t: MonitorType)
        ensures
            t == MonitorType::Dns,
    {
        MonitorType::Dns
    }
}

pub struct FtpMonitor {}

impl FtpMonitor {
    pub fn new() -> Self {
        FtpMonitor {}
    }

    /// Reports success for the configured target, with empty findings.
    pub fn check(&self, config: &MonitorConfig) -> (r: CheckResult)
        ensures
            reports_success(r, MonitorType::Ftp, *config),
            r.details matches CheckResultDetail::Ftp(_),
    {
        CheckResult {
            id: random_uuid_u128(),
            monitor_type: MonitorType::Ftp,
            target: copy_opt_text(&config.target),
            status: true,
            details: CheckResultDetail::Ftp(FtpMonitorResult {}),
        }
    }

    pub fn get_type(&self) -> (t: MonitorType)
        ensures
            t == MonitorType::Ftp,
    {
        MonitorType::Ftp
    }
}

pub struct IcmpMonitor {}

impl IcmpMonitor {
    pub fn new() -> Self {
        IcmpMonitor {}
    }

    /// Reports success for the configured target, with empty findings.
    pub fn check(&self, config: &MonitorConfig) -> (r: CheckResult)
        ensures
            reports_success(r, MonitorType::Icmp, *config),
            r.details matches CheckResultDetail::Icmp(_),
    {
        CheckResult {
            id: random_uuid_u128(),
            monitor_type: MonitorType::Icmp,
            target: copy_opt_text(&config.target),
            status: true,
            details: CheckResultDetail::Icmp(IcmpMonitorResult {}),
        }
    }

    pub fn get_type(&self) -> (t: MonitorType)
        ensures
            t == MonitorType::Icmp,
    {
        MonitorType::Icmp
    }
}

pub struct MemoryMonitor {}

impl MemoryMonitor {
    pub fn new() -> Self {
        MemoryMonitor {}
    }

    /// Reports success for the configured target, with empty findings.
    pub fn check(&self, config: &MonitorConfig) -> (r: CheckResult)
        ensures
            reports_success(r, MonitorType::Memory, *config),
            r.details matches CheckResultDetail::Memory(_),
    {
        CheckResult {
            id: random_uuid_u128(),
            monitor_type: MonitorType::Memory,
            target: copy_opt_text(&config.target),
            status: true,
            details: CheckResultDetail::Memory(MemoryMonitorResult {}),
        }
    }

    pub fn get_type(&self) -> (t: MonitorType)
        ensures
            t == MonitorType::Memory,
    {
        MonitorType::Memory
    }
}

pub struct ProcessMonitor {}

impl ProcessMonitor {
    pub fn new() -> Self {
        ProcessMonitor {}
    }

    /// Reports success for the configured target, with empty findings.
    pub fn check(&self, config: &MonitorConfig) -> (r: CheckResult)
        ensures
            reports_success(r, MonitorType::Process, *config),
            r.details matches CheckResultDetail::Process(_),
    {
        CheckResult {
            id: random_uuid_u128(),
            monitor_type: MonitorType::Process,
            target: copy_opt_text(&config.target),
            status: true,
            details: CheckResultDetail::Process(ProcessMonitorResult {}),
        }
    }

    pub fn get_type(&self) -> (t: MonitorType)
        ensures
            t == MonitorType::Process,
    {
        MonitorType::Process
    }
}

pub struct TcpMonitor {}

impl TcpMonitor {
    pub fn new() -> Self {
        TcpMonitor {}
    }

    /// Reports success for the configured target, with empty findings.
    pub fn check(&self, config: &MonitorConfig) -> (r: CheckResult)
        ensures
            reports_success(r, MonitorType::Tcp, *config),
            r.details matches CheckResultDetail::Tcp(_),
    {
        CheckResult {
            id: random_uuid_u128(),
            monitor_type: MonitorType::Tcp,
            target: copy_opt_text(&config.target),
            status: true,
            details: CheckResultDetail::Tcp(TcpMonitorResult {}),
        }
    }

    pub fn get_type(&self) -> (t: MonitorType)
        ensures
            t == MonitorType::Tcp,
    {
        MonitorType::Tcp
    }
}

pub struct TracerouteMonitor {}

impl TracerouteMonitor {
    pub fn new() -> Self {
        TracerouteMonitor {}
    }

    /// Reports success for the configured target, with empty findings.
    pub fn check(&self, config: &MonitorConfig) -> (r: CheckResult)
        ensures
            reports_success(r, MonitorType::Traceroute, *config),
            r.details matches CheckResultDetail::Traceroute(_),
    {
        CheckResult {
            id: random_uuid_u128(),
            monitor_type: MonitorType::Traceroute,
            target: copy_opt_text(&config.target),
            status: true,
            details: CheckResultDetail::Traceroute(TracerouteMonitorResult {}),
        }
    }

    pub fn get_type(&self) -> (t: MonitorType)
        ensures
            t == MonitorType::Traceroute,
    {
        MonitorType::Traceroute
    }
}

pub struct UdpMonitor {}

impl UdpMonitor {
    pub fn new() -> Self {
        UdpMonitor {}
    }

    /// Reports success for the configured target, with empty findings.
    pub fn check(&self, config: &MonitorConfig) -> (r: CheckResult)
        ensures
            reports_success(r, MonitorType::Udp, *config),
            r.details matches CheckResultDetail::Udp(_),
    {
        CheckResult {
            id: random_uuid_u128(),
            monitor_type: MonitorType::Udp,
            target: copy_opt_text(&config.target),
            status: true,
            details: CheckResultDetail::Udp(UdpMonitorResult {}),
        }
    }

    pub fn get_type(&self) -> (t: MonitorType)
        ensures
            t == MonitorType::Udp,
    {
        MonitorType::Udp
    }
}

pub struct UnknowMonitor {}

impl UnknowMonitor {
    pub fn new() -> Self {
        UnknowMonitor {}
    }

    /// Reports success for the configured target, noting that the kind is
    /// not supported.
    pub fn check(&self, config: &MonitorConfig) -> (r: CheckResult)
        ensures
            reports_success(r, MonitorType::Unknown, *config),
            r.details matches CheckResultDetail::Unknown(u) && u.description@ == "No description"@
                && u.query_type == MonitorType::Unknown,
    {
        CheckResult {
            id: random_uuid_u128(),
            monitor_type: MonitorType::Unknown,
            target: copy_opt_text(&config.target),
            status: true,
            details: CheckResultDetail::Unknown(UnknownQueryResult::default()),
        }
    }

    pub fn get_type(&self) -> (t: MonitorType)
        ensures
            t == MonitorType::Unknown,
    {
        MonitorType::Unknown
    }
}

} // verus!
