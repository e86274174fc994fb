//! Shared data types of the client.
use vstd::prelude::*;
use crate::external::opt_view;

verus! {

/// Format of a subscription's content.
#[derive(Debug, Clone, Copy, PartialEq, Eq, Structural)]
pub enum SubType {
    Clash,
    V2ray,
    Sip008,
    Unknown,
}

/// Routing mode of the core.
#[derive(Debug, Clone, Copy, PartialEq, Eq, Structural)]
pub enum ProxyMode {
    Rule,
    Global,
    Direct,
    Tun,
}

/// A UTC instant: whole seconds since the Unix epoch plus nanoseconds.
#[derive(Debug, Clone, Copy, PartialEq, Eq, Structural)]
pub struct UtcTime {
    pub secs: i64,
    pub nanos: u32,
}

/// A subscription (an airport's node list fetched from a URL).
#[derive(Debug)]
pub struct Subscription {
    pub id: String,
    pub name: String,
    pub url: String,
    pub sub_type: SubType,
    pub node_count: usize,
    pub last_update: Option<UtcTime>,
    pub auto_update: bool,
    /// Hours between automatic refreshes.
    pub update_interval: u32,
}

/// The model of a [`Subscription`].
pub struct SubscriptionView {
    pub id: Seq<char>,
    pub name: Seq<char>,
    pub url: Seq<char>,
    pub sub_type: SubType,
    pub node_count: usize,
    pub last_update: Option<UtcTime>,
    pub auto_update: bool,
    pub update_interval: u32,
}

impl View for Subscription {
    type V = SubscriptionView;

    open spec fn view(&self) -> SubscriptionView {
        SubscriptionView {
            id: self.id@,
            name: self.name@,
            url: self.url@,
            sub_type: self.sub_type,
            node_count: self.node_count,
            last_update: self.last_update,
            auto_update: self.auto_update,
            update_interval: self.update_interval,
        }
    }
}

/// The models of a list of subscriptions.
pub open spec fn subs_view(v: Seq<Subscription>) -> Seq<SubscriptionView> {
    v.map_values(|s: Subscription| s@)
}

impl Subscription {
    pub fn copy(&self) -> (r: Subscription)
        ensures
            r@ == self@,
    {
        Subscription {
            id: self.id.clone(),
            name: self.name.clone(),
            url: self.url.clone(),
            sub_type: self.sub_type,
            node_count: self.node_count,
            last_update: self.last_update,
            auto_update: self.auto_update,
            update_interval: self.update_interval,
        }
    }
}

/// A proxy node as listed to the user.
#[derive(Debug)]
pub struct ProxyNode {
    pub id: String,
    pub name: String,
    pub group: String,
    pub protocol: String,
    pub server: String,
    pub port: u16,
    /// Milliseconds.
    pub latency: Option<u32>,
    /// KB/s.
    pub download_speed: Option<u32>,
    pub is_active: bool,
    pub subscription_id: Option<String>,
}

/// The model of a [`ProxyNode`].
pub struct NodeView {
    pub id: Seq<char>,
    pub name: Seq<char>,
    pub group: Seq<char>,
    pub protocol: Seq<char>,
    pub server: Seq<char>,
    pub port: u16,
    pub latency: Option<u32>,
    pub download_speed: Option<u32>,
    pub is_active: bool,
    pub subscription_id: Option<Seq<char>>,
}

impl View for ProxyNode {
    type V = NodeView;

    open spec fn view(&self) -> NodeView {
        NodeView {
            id: self.id@,
            name: self.name@,
            group: self.group@,
            protocol: self.protocol@,
            server: self.server@,
            port: self.port,
            latency: self.latency,
            download_speed: self.download_speed,
            is_active: self.is_active,
            subscription_id: opt_view(self.subscription_id),
        }
    }
}

impl NodeView {
    /// Equal in every field but the random id.
    pub open spec fn same_but_id(self, other: NodeView) -> bool {
        NodeView { id: other.id, ..self } == other
    }
}

impl ProxyNode {
    pub fn copy(&self) -> (r: ProxyNode)
        ensures
            r@ == self@,
    {
        ProxyNode {
            id: self.id.clone(),
            name: self.name.clone(),
            group: self.group.clone(),
            protocol: self.protocol.clone(),
            server: self.server.clone(),
            port: self.port,
            latency: self.latency,
            download_speed: self.download_speed,
            is_active: self.is_active,
            subscription_id: match &self.subscription_id {
                Some(s) => Some(s.clone()),
                None => None,
            },
        }
    }
}

pub open spec fn nodes_view(v: Seq<ProxyNode>) -> Seq<NodeView> {
    v.map_values(|n: ProxyNode| n@)
}

/// Replacing one node replaces its model.
pub proof fn lemma_nodes_view_update(v: Seq<ProxyNode>, i: int, n: ProxyNode)
    requires
        0 <= i < v.len(),
    ensures
        nodes_view(v.update(i, n)) == nodes_view(v).update(i, n@),
{
    assert(nodes_view(v.update(i, n)) =~= nodes_view(v).update(i, n@));
}

/// Outcome of a node speed test.
#[derive(Debug, Clone, Copy)]
pub struct SpeedResult {
    pub latency_ms: Option<u32>,
    pub download_kbps: Option<u32>,
}

/// A proxy group (Selector, URLTest, Fallback).
#[derive(Debug)]
pub struct ProxyGroup {
    pub name: String,
    pub group_type: String,
    pub current: String,
    pub nodes: Vec<String>,
}

/// Traffic counters and speeds.
#[derive(Debug, Clone, Copy)]
pub struct TrafficStats {
    pub upload_bytes: u64,
    pub download_bytes: u64,
    /// Bytes per second.
    pub upload_speed: u64,
    /// Bytes per second.
    pub download_speed: u64,
    pub connections: u32,
}

/// An active connection as reported by the Clash API.
#[derive(Debug)]
pub struct ConnectionInfo {
    pub id: String,
    pub network: String,
    pub conn_type: String,
    pub source: String,
    pub destination: String,
    pub host: String,
    pub rule: String,
    pub rule_payload: String,
    pub chains: Vec<String>,
    pub upload: u64,
    pub download: u64,
    pub start: String,
}

/// A log line.
#[derive(Debug)]
pub struct LogEntry {
    pub level: String,
    pub message: String,
    pub time: String,
}

/// Cumulative traffic since the core started, in bytes.
#[derive(Debug, Clone, Copy, PartialEq, Eq, Structural)]
pub struct TrafficTotal {
    pub upload: u64,
    pub download: u64,
}

impl Default for TrafficTotal {
    fn default() -> (r: TrafficTotal)
        ensures
            r.upload == 0 && r.download == 0,
    {
        TrafficTotal { upload: 0, download: 0 }
    }
}

/// The status of the core as shown to the user.
#[derive(Debug)]
pub struct SingboxStatus {
    pub running: bool,
    /// Seconds.
    pub uptime: Option<u64>,
    pub pid: Option<u32>,
    pub version: Option<String>,
}

/// The persisted application settings.
#[derive(Debug)]
pub struct AppConfig {
    pub proxy_mode: ProxyMode,
    pub startup_with_system: bool,
    pub startup_minimized: bool,
    pub allow_lan: bool,
    pub http_port: u16,
    pub socks_port: u16,
    pub mixed_port: u16,
    pub api_port: u16,
    pub tun_enabled: bool,
    pub log_level: String,
    pub theme: String,
    pub language: String,
    pub selected_subscription: Option<String>,
    /// Chosen outbound per selector group (key "proxy"); keys are distinct.
    pub active_nodes: Vec<(String, String)>,
    /// 0 = disabled, otherwise check every N hours.
    pub auto_update_interval: u32,
    pub auto_update_notify: bool,
    /// true = close button minimizes to tray; false = exits the app.
    pub close_to_tray: bool,
    /// Restore the proxy running state on the next startup.
    pub restore_proxy_on_startup: bool,
    /// Last known proxy running state (written by the backend on start/stop).
    pub last_proxy_running: bool,
    /// Last known system proxy state (written by the backend on start/stop).
    pub last_system_proxy: bool,
    /// Probe URL of the auto-select groups (blank = built-in default).
    pub auto_test_url: String,
    /// Minutes between auto-select probes.
    pub auto_test_interval: u32,
    /// Milliseconds of latency difference tolerated before switching node.
    pub auto_tolerance: u32,
    /// User-Agent for subscription fetches (blank = built-in default).
    pub subscription_user_agent: String,
    /// Persist core log lines to a daily file.
    pub log_to_file: bool,
    /// App update channel: "stable" or "beta".
    pub update_channel: String,
    /// App version that last ran (written by the backend).
    pub last_app_version: String,
}

impl Default for AppConfig {
    fn default() -> (r: AppConfig)
        ensures
            r.proxy_mode == ProxyMode::Rule,
            !r.startup_with_system,
            !r.startup_minimized,
            !r.allow_lan,
            r.http_port == 7890,
            r.socks_port == 7891,
            r.mixed_port == 7890,
            r.api_port == 9090,
            !r.tun_enabled,
            r.log_level@ == "info"@,
            r.theme@ == "system"@,
            r.language@ == "zh-CN"@,
            r.selected_subscription is None,
            r.active_nodes@.len() == 0,
            r.auto_update_interval == 24,
            r.auto_update_notify,
            r.close_to_tray,
            !r.restore_proxy_on_startup,
            !r.last_proxy_running,
            !r.last_system_proxy,
            r.auto_test_url@ == "https://www.gstatic.com/generate_204"@,
            r.auto_test_interval == 3,
            r.auto_tolerance == 50,
            r.subscription_user_agent@ == Seq::<char>::empty(),
            !r.log_to_file,
            r.update_channel@ == "stable"@,
            r.last_app_version@ == Seq::<char>::empty(),
    {
        AppConfig {
            proxy_mode: ProxyMode::Rule,
            startup_with_system: false,
            startup_minimized: false,
            allow_lan: false,
            http_port: 7890,
            socks_port: 7891,
            mixed_port: 7890,
            api_port: 9090,
            tun_enabled: false,
            log_level: "info".to_string(),
            theme: "system".to_string(),
            language: "zh-CN".to_string(),
            selected_subscription: None,
            active_nodes: Vec::new(),
            auto_update_interval: 24,
            auto_update_notify: true,
            close_to_tray: true,
            restore_proxy_on_startup: false,
            last_proxy_running: false,
            last_system_proxy: false,
            auto_test_url: "https://www.gstatic.com/generate_204".to_string(),
            auto_test_interval: 3,
            auto_tolerance: 50,
            subscription_user_agent: String::new(),
            log_to_file: false,
            update_channel: "stable".to_string(),
            last_app_version: String::new(),
        }
    }
}

} // verus!
