//! The fleet data model: timestamps, host metrics, application inventory and
//! per-agent state, together with their mathematical views.
use vstd::prelude::*;

verus! {

/// Seconds-and-nanoseconds wall-clock timestamp, as carried on the wire.
#[derive(Clone, Copy, Debug, PartialEq, Eq, Structural)]
pub struct Timestamp {
    pub secs: u64,
    pub nanos: u32,
}

/// A timestamp as a single nanosecond count.
pub open spec fn ts_total(t: Timestamp) -> int {
    t.secs * 1_000_000_000 + t.nanos
}

/// Strict order on timestamps.
pub open spec fn ts_lt(a: Timestamp, b: Timestamp) -> bool {
    ts_total(a) < ts_total(b)
}

/// More than `secs` seconds lie between `last` and `now`.
pub open spec fn elapsed_gt(last: Timestamp, now: Timestamp, secs: u64) -> bool {
    ts_total(now) - ts_total(last) > secs * 1_000_000_000
}

/// At most `secs` seconds lie between `last` and `now`.
pub open spec fn elapsed_le(last: Timestamp, now: Timestamp, secs: u64) -> bool {
    !elapsed_gt(last, now, secs)
}

impl Timestamp {
    /// The nanosecond part stays below one second.
    pub open spec fn wf(self) -> bool {
        self.nanos < 1_000_000_000
    }

    pub fn new(secs: u64, nanos: u32) -> (r: Timestamp)
        requires
            nanos < 1_000_000_000,
        ensures
            r == (Timestamp { secs, nanos }),
            r.wf(),
    {
        Timestamp { secs, nanos }
    }

    /// A timestamp holding whole seconds only.
    pub fn from_secs(secs: u64) -> (r: Timestamp)
        ensures
            r == (Timestamp { secs, nanos: 0u32 }),
            r.wf(),
    {
        Timestamp { secs, nanos: 0 }
    }

    pub fn before(&self, other: &Timestamp) -> (r: bool)
        requires
            self.wf(),
            other.wf(),
        ensures
            r == ts_lt(*self, *other),
    {
        self.secs < other.secs || (self.secs == other.secs && self.nanos < other.nanos)
    }

    /// Whether more than `secs` seconds have passed between `self` and `now`.
    pub fn elapsed_more_than(&self, now: &Timestamp, secs: u64) -> (r: bool)
        requires
            self.wf(),
            now.wf(),
        ensures
            r == elapsed_gt(*self, *now, secs),
    {
        let a: u128 = (self.secs as u128) * 1_000_000_000 + (self.nanos as u128);
        let b: u128 = (now.secs as u128) * 1_000_000_000 + (now.nanos as u128);
        let bound: u128 = (secs as u128) * 1_000_000_000;
        b > a && b - a > bound
    }
}

/// Whether a managed application's service is running.
#[derive(Debug)]
pub enum ServiceStatus {
    /// Carries the process id as recorded in the pid file.
    Running(String),
    Stopped,
    Unknown,
}

pub ghost enum ServiceStatusV {
    Running(Seq<char>),
    Stopped,
    Unknown,
}

impl View for ServiceStatus {
    type V = ServiceStatusV;

    open spec fn view(&self) -> ServiceStatusV {
        match self {
            ServiceStatus::Running(pid) => ServiceStatusV::Running(pid@),
            ServiceStatus::Stopped => ServiceStatusV::Stopped,
            ServiceStatus::Unknown => ServiceStatusV::Unknown,
        }
    }
}

impl Clone for ServiceStatus {
    fn clone(&self) -> (r: Self)
        ensures
            r@ == self@,
    {
        match self {
            ServiceStatus::Running(pid) => ServiceStatus::Running(pid.clone()),
            ServiceStatus::Stopped => ServiceStatus::Stopped,
            ServiceStatus::Unknown => ServiceStatus::Unknown,
        }
    }
}

/// One deployed application version, as read from its version file.
#[derive(Debug)]
pub struct VersionInfo {
    pub app: String,
    pub created_time: String,
}

pub ghost struct VersionInfoV {
    pub app: Seq<char>,
    pub created_time: Seq<char>,
}

impl View for VersionInfo {
    type V = VersionInfoV;

    open spec fn view(&self) -> VersionInfoV {
        VersionInfoV { app: self.app@, created_time: self.created_time@ }
    }
}

impl Clone for VersionInfo {
    fn clone(&self) -> (r: Self)
        ensures
            r@ == self@,
    {
        VersionInfo { app: self.app.clone(), created_time: self.created_time.clone() }
    }
}

/// One managed application: identity, deployment metadata, service state.
#[derive(Debug)]
pub struct AppInfo {
    pub name: String,
    pub version: String,
    pub deploy_time: String,
    pub branch: Option<String>,
    pub commit: Option<String>,
    pub service_status: ServiceStatus,
}

pub ghost struct AppInfoV {
    pub name: Seq<char>,
    pub version: Seq<char>,
    pub deploy_time: Seq<char>,
    pub branch: Option<Seq<char>>,
    pub commit: Option<Seq<char>>,
    pub service_status: ServiceStatusV,
}

/// The view of an optional string.
pub open spec fn opt_view(o: Option<String>) -> Option<Seq<char>> {
    match o {
        Some(s) => Some(s@),
        None => None,
    }
}

impl View for AppInfo {
    type V = AppInfoV;

    open spec fn view(&self) -> AppInfoV {
        AppInfoV {
            name: self.name@,
            version: self.version@,
            deploy_time: self.deploy_time@,
            branch: opt_view(self.branch),
            commit: opt_view(self.commit),
            service_status: self.service_status@,
        }
    }
}

fn clone_opt_string(o: &Option<String>) -> (r: Option<String>)
    ensures
        opt_view(r) == opt_view(*o),
{
    match o {
        Some(s) => Some(s.clone()),
        None => None,
    }
}

impl Clone for AppInfo {
    fn clone(&self) -> (r: Self)
        ensures
            r@ == self@,
    {
        AppInfo {
            name: self.name.clone(),
            version: self.version.clone(),
            deploy_time: self.deploy_time.clone(),
            branch: clone_opt_string(&self.branch),
            commit: clone_opt_string(&self.commit),
            service_status: self.service_status.clone(),
        }
    }
}

/// Snapshot of one host's metrics. CPU usage is carried in hundredths of a
/// percent, so the model stays in integers.
#[derive(Debug)]
pub struct HostInfo {
    pub hostname: String,
    pub cpu_model: String,
    pub cpu_usage_centi: u64,
    pub total_memory: u64,
    pub free_memory: u64,
    pub used_memory: u64,
    pub ip_addresses: Vec<String>,
}

pub ghost struct HostInfoV {
    pub hostname: Seq<char>,
    pub cpu_model: Seq<char>,
    pub cpu_usage_centi: u64,
    pub total_memory: u64,
    pub free_memory: u64,
    pub used_memory: u64,
    pub ip_addresses: Seq<Seq<char>>,
}

impl View for HostInfo {
    type V = HostInfoV;

    open spec fn view(&self) -> HostInfoV {
        HostInfoV {
            hostname: self.hostname@,
            cpu_model: self.cpu_model@,
            cpu_usage_centi: self.cpu_usage_centi,
            total_memory: self.total_memory,
            free_memory: self.free_memory,
            used_memory: self.used_memory,
            ip_addresses: self.ip_addresses@.map_values(|s: String| s@),
        }
    }
}

/// A copy of a string vector, element views preserved.
pub fn clone_string_vec(v: &Vec<String>) -> (r: Vec<String>)
    ensures
        r@.map_values(|s: String| s@) == v@.map_values(|s: String| s@),
{
    let mut r: Vec<String> = Vec::new();
    let mut i: usize = 0;
    while i < v.len()
        invariant
            i <= v@.len(),
            r@.len() == i,
            forall|k: int| 0 <= k < i ==> (#[trigger] r@[k])@ == v@[k]@,
        decreases v@.len() - i,
    {
        r.push(v[i].clone());
        i = i + 1;
    }
    proof {
        assert(r@.map_values(|s: String| s@) =~= v@.map_values(|s: String| s@));
    }
    r
}

impl Clone for HostInfo {
    fn clone(&self) -> (r: Self)
        ensures
            r@ == self@,
    {
        HostInfo {
            hostname: self.hostname.clone(),
            cpu_model: self.cpu_model.clone(),
            cpu_usage_centi: self.cpu_usage_centi,
            total_memory: self.total_memory,
            free_memory: self.free_memory,
            used_memory: self.used_memory,
            ip_addresses: clone_string_vec(&self.ip_addresses),
        }
    }
}

/// The unit of fleet state: everything last reported by one agent.
#[derive(Debug)]
pub struct ClientInfo {
    pub client_id: String,
    pub system_info: HostInfo,
    pub version_info: Vec<VersionInfo>,
    pub app_info: Vec<AppInfo>,
    pub last_seen: Timestamp,
}

pub ghost struct ClientInfoV {
    pub client_id: Seq<char>,
    pub system_info: HostInfoV,
    pub version_info: Seq<VersionInfoV>,
    pub app_info: Seq<AppInfoV>,
    pub last_seen: Timestamp,
}

impl View for ClientInfo {
    type V = ClientInfoV;

    open spec fn view(&self) -> ClientInfoV {
        ClientInfoV {
            client_id: self.client_id@,
            system_info: self.system_info@,
            version_info: self.version_info@.map_values(|v: VersionInfo| v@),
            app_info: self.app_info@.map_values(|a: AppInfo| a@),
            last_seen: self.last_seen,
        }
    }
}

fn clone_version_vec(v: &Vec<VersionInfo>) -> (r: Vec<VersionInfo>)
    ensures
        r@.map_values(|x: VersionInfo| x@) == v@.map_values(|x: VersionInfo| x@),
{
    let mut r: Vec<VersionInfo> = Vec::new();
    let mut i: usize = 0;
    while i < v.len()
        invariant
            i <= v@.len(),
            r@.len() == i,
            forall|k: int| 0 <= k < i ==> (#[trigger] r@[k])@ == v@[k]@,
        decreases v@.len() - i,
    {
        r.push(v[i].clone());
        i = i + 1;
    }
    proof {
        assert(r@.map_values(|x: VersionInfo| x@) =~= v@.map_values(|x: VersionInfo| x@));
    }
    r
}

fn clone_app_vec(v: &Vec<AppInfo>) -> (r: Vec<AppInfo>)
    ensures
        r@.map_values(|x: AppInfo| x@) == v@.map_values(|x: AppInfo| x@),
{
    let mut r: Vec<AppInfo> = Vec::new();
    let mut i: usize = 0;
    while i < v.len()
        invariant
            i <= v@.len(),
            r@.len() == i,
            forall|k: int| 0 <= k < i ==> (#[trigger] r@[k])@ == v@[k]@,
        decreases v@.len() - i,
    {
        r.push(v[i].clone());
        i = i + 1;
    }
    proof {
        assert(r@.map_values(|x: AppInfo| x@) =~= v@.map_values(|x: AppInfo| x@));
    }
    r
}

impl Clone for ClientInfo {
    fn clone(&self) -> (r: Self)
        ensures
            r@ == self@,
    {
        ClientInfo {
            client_id: self.client_id.clone(),
            system_info: self.system_info.clone(),
            version_info: clone_version_vec(&self.version_info),
            app_info: clone_app_vec(&self.app_info),
            last_seen: self.last_seen,
        }
    }
}

} // verus!
