//! The collection agent's configuration blocks, with their documented
//! defaults, and the pure part of environment-variable expansion: deciding
//! whether a value is an `${NAME}` reference and extracting the name.
//! Reading the configuration file and the environment stays with the
//! embedding program.

use vstd::prelude::*;
use vstd::string::StrSliceExecFns;

verus! {

/// Where the agent reports to, and as whom.
#[derive(Debug, PartialEq)]
pub struct ManagerConfig {
    pub url: String,
    pub tenant_id: String,
    pub agent_key: String,
}

/// How the agent verifies and presents itself over TLS.
#[derive(Debug, PartialEq)]
pub struct TlsConfig {
    pub verify_server: bool,
    pub ca_cert: Option<String>,
    pub client_cert: Option<String>,
    pub client_key: Option<String>,
}

/// One monitored path of the file-integrity monitor.
#[derive(Debug, PartialEq)]
pub struct FimPath {
    pub path: String,
    pub recursive: bool,
    pub exclude: Vec<String>,
}

/// The file-integrity monitor's settings.
#[derive(Debug, PartialEq)]
pub struct FimConfig {
    pub enabled: bool,
    pub paths: Vec<FimPath>,
    pub scan_interval: u64,
    pub hash_algorithm: String,
}

/// The process monitor's settings.
#[derive(Debug, PartialEq, Eq, Structural, Clone, Copy)]
pub struct ProcmonConfig {
    pub enabled: bool,
    pub track_network: bool,
    pub track_file_access: bool,
}

/// The network monitor's settings.
#[derive(Debug, PartialEq, Eq, Structural, Clone, Copy)]
pub struct NetmonConfig {
    pub enabled: bool,
    pub track_connections: bool,
    pub track_dns: bool,
}

/// The telemetry sampler's settings.
#[derive(Debug, PartialEq)]
pub struct TelemetryConfig {
    pub enabled: bool,
    pub interval: u64,
    pub metrics: Vec<String>,
}

/// Where and how the agent logs.
#[derive(Debug, PartialEq)]
pub struct LoggingConfig {
    pub level: String,
    pub format: String,
    pub output: String,
}

impl Default for ManagerConfig {
    /// The documented defaults: the hosted manager, the default tenant, and
    /// no key.
    fn default() -> (r: ManagerConfig)
        ensures
            r.url@ == "https://manager.siem-plus.io"@,
            r.tenant_id@ == "default"@,
            r.agent_key@ == ""@,
    {
        ManagerConfig {
            url: String::from_str("https://manager.siem-plus.io"),
            tenant_id: String::from_str("default"),
            agent_key: String::from_str(""),
        }
    }
}

impl Default for TlsConfig {
    /// By default the server certificate is verified and no client material
    /// is configured.
    fn default() -> (r: TlsConfig)
        ensures
            r.verify_server,
            r.ca_cert is None,
            r.client_cert is None,
            r.client_key is None,
    {
        TlsConfig { verify_server: true, ca_cert: None, client_cert: None, client_key: None }
    }
}

impl Default for FimConfig {
    /// On by default: no paths yet, a five-minute rescan, blake3 hashing.
    fn default() -> (r: FimConfig)
        ensures
            r.enabled,
            r.paths@.len() == 0,
            r.scan_interval == 300u64,
            r.hash_algorithm@ == "blake3"@,
    {
        FimConfig {
            enabled: true,
            paths: Vec::new(),
            scan_interval: 300,
            hash_algorithm: String::from_str("blake3"),
        }
    }
}

impl Default for ProcmonConfig {
    /// On by default, tracking network and file access.
    fn default() -> (r: ProcmonConfig)
        ensures
            r == (ProcmonConfig { enabled: true, track_network: true, track_file_access: true }),
    {
        ProcmonConfig { enabled: true, track_network: true, track_file_access: true }
    }
}

impl Default for NetmonConfig {
    /// On by default, tracking connections and DNS.
    fn default() -> (r: NetmonConfig)
        ensures
            r == (NetmonConfig { enabled: true, track_connections: true, track_dns: true }),
    {
        NetmonConfig { enabled: true, track_connections: true, track_dns: true }
    }
}

impl Default for TelemetryConfig {
    /// On by default: a sample a minute, of processor, memory and disk.
    fn default() -> (r: TelemetryConfig)
        ensures
            r.enabled,
            r.interval == 60u64,
            r.metrics@.len() == 3,
            r.metrics@[0]@ == "cpu"@,
            r.metrics@[1]@ == "memory"@,
            r.metrics@[2]@ == "disk"@,
    {
        let mut metrics: Vec<String> = Vec::new();
        metrics.push(String::from_str("cpu"));
        metrics.push(String::from_str("memory"));
        metrics.push(String::from_str("disk"));
        TelemetryConfig { enabled: true, interval: 60, metrics }
    }
}

impl Default for LoggingConfig {
    /// By default: info level, JSON lines, the agent's log file.
    fn default() -> (r: LoggingConfig)
        ensures
            r.level@ == "info"@,
            r.format@ == "json"@,
            r.output@ == "/var/log/siem-agent/agent.log"@,
    {
        LoggingConfig {
            level: String::from_str("info"),
            format: String::from_str("json"),
            output: String::from_str("/var/log/siem-agent/agent.log"),
        }
    }
}

/// The name inside an `${NAME}` environment reference, if the value is one.
pub open spec fn env_ref(s: Seq<char>) -> Option<Seq<char>> {
    if s.len() >= 3 && s[0] == '$' && s[1] == '{' && s.last() == '}' {
        Some(s.subrange(2, s.len() - 1))
    } else {
        None
    }
}

/// Whether a configuration value is an `${NAME}` reference, and its name:
/// the embedding program looks the name up in the environment and keeps the
/// value as written where the lookup fails.
pub fn env_var_name(value: &str) -> (r: Option<String>)
    ensures
        match r {
            Some(name) => env_ref(value@) == Some(name@),
            None => env_ref(value@) is None,
        },
{
    let n = value.unicode_len();
    if n < 3 {
        return None;
    }
    if value.get_char(0) == '$' && value.get_char(1) == '{' && value.get_char(n - 1) == '}' {
        let inner = value.substring_char(2, n - 1);
        Some(String::from_str(inner))
    } else {
        None
    }
}

} // verus!
