//! The records the application keeps: DNS servers, per-application rules,
//! query log entries, processes, settings and interception events.

use vstd::prelude::*;

verus! {

/// An upstream DNS server.
#[derive(Debug, Clone, Default)]
pub struct DnsServer {
    pub id: Option<i64>,
    pub name: String,
    pub address: String,
    pub secondary_address: Option<String>,
    pub protocol: String,
    pub is_default: bool,
}

/// A rule that routes the DNS queries of one application to a server.
#[derive(Debug, Clone, Default)]
pub struct AppRule {
    pub id: Option<i64>,
    pub app_name: String,
    pub app_path: Option<String>,
    pub dns_server_id: i64,
    pub enabled: bool,
    pub use_ld_preload: bool,
}

/// One answered query, as recorded in the query log.
#[derive(Debug, Clone, Default)]
pub struct DnsQueryLog {
    pub id: Option<i64>,
    pub domain: String,
    pub pid: Option<i64>,
    pub app_name: Option<String>,
    pub dns_server_id: Option<i64>,
    pub resolved_ip: Option<String>,
    pub latency_ms: Option<i64>,
    pub timestamp: String,
}

/// A running process.
#[derive(Debug, Clone, Default)]
pub struct ProcessInfo {
    pub pid: i64,
    pub ppid: Option<i64>,
    pub name: String,
    pub exe_path: Option<String>,
    pub cmdline: Option<String>,
    /// The rule a launched application was started under, if any.
    pub rule_id: Option<i64>,
}

/// Application settings.
#[derive(Debug, Clone, Copy, Default)]
pub struct AppConfig {
    pub proxy_port: u16,
    pub log_enabled: bool,
    pub auto_start: bool,
    pub debug: bool,
}

/// A DNS send observed by the interceptor, in the form the interface shows it.
#[derive(Debug, Clone)]
pub struct DnsEvent {
    pub pid: i64,
    pub tgid: i64,
    pub uid: i64,
    pub gid: i64,
    pub comm: String,
    pub daddr: String,
    pub dport: i64,
    pub is_dns: bool,
}

/// A copy of an optional string.
pub fn copy_opt_string(s: &Option<String>) -> (r: Option<String>)
    ensures
        r == *s,
{
    match s {
        Some(v) => Some(v.clone()),
        None => None,
    }
}

impl DnsServer {
    /// A field-by-field copy.
    pub fn duplicate(&self) -> (r: DnsServer)
        ensures
            r == *self,
    {
        DnsServer {
            id: self.id,
            name: self.name.clone(),
            address: self.address.clone(),
            secondary_address: copy_opt_string(&self.secondary_address),
            protocol: self.protocol.clone(),
            is_default: self.is_default,
        }
    }
}

impl AppRule {
    /// A field-by-field copy.
    pub fn duplicate(&self) -> (r: AppRule)
        ensures
            r == *self,
    {
        AppRule {
            id: self.id,
            app_name: self.app_name.clone(),
            app_path: copy_opt_string(&self.app_path),
            dns_server_id: self.dns_server_id,
            enabled: self.enabled,
            use_ld_preload: self.use_ld_preload,
        }
    }
}

impl ProcessInfo {
    /// A field-by-field copy.
    pub fn duplicate(&self) -> (r: ProcessInfo)
        ensures
            r == *self,
    {
        ProcessInfo {
            pid: self.pid,
            ppid: self.ppid,
            name: self.name.clone(),
            exe_path: copy_opt_string(&self.exe_path),
            cmdline: copy_opt_string(&self.cmdline),
            rule_id: self.rule_id,
        }
    }
}

} // verus!
