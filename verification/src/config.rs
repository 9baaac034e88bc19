//! Runtime settings and their defaults, as read from the configuration file.

use vstd::prelude::*;

verus! {

/// System data refresh interval in milliseconds when none is configured.
pub const DEFAULT_REFRESH_MS: u64 = 500;

/// Frame rate when none is configured.
pub const DEFAULT_FRAME_RATE: u64 = 60;

/// General settings.
#[derive(Debug, Clone)]
pub struct GeneralConfig {
    /// System data refresh interval in milliseconds.
    pub refresh_rate_ms: u64,
    /// Target frame rate for UI rendering.
    pub frame_rate: u64,
    /// Default process sort mode: "cpu", "memory", "pid", "name".
    pub default_sort: String,
    /// Enable adaptive refresh (reduce rate when idle).
    pub adaptive_refresh: bool,
}

/// The frame tick interval in milliseconds for frame rate `rate`: 16 when
/// the rate is zero, else a thousand divided by the rate.
pub open spec fn frame_tick(rate: u64) -> u64 {
    if rate == 0 {
        16
    } else {
        1000u64 / rate
    }
}

impl GeneralConfig {
    /// The frame tick interval in milliseconds derived from `frame_rate`.
    pub fn frame_tick_ms(&self) -> (r: u64)
        ensures
            r == frame_tick(self.frame_rate),
    {
        if self.frame_rate == 0 {
            16
        } else {
            1000 / self.frame_rate
        }
    }
}

impl Default for GeneralConfig {
    fn default() -> (r: Self)
        ensures
            r.refresh_rate_ms == DEFAULT_REFRESH_MS,
            r.frame_rate == DEFAULT_FRAME_RATE,
            r.default_sort@ == "cpu"@,
            r.adaptive_refresh,
    {
        GeneralConfig {
            refresh_rate_ms: DEFAULT_REFRESH_MS,
            frame_rate: DEFAULT_FRAME_RATE,
            default_sort: "cpu".to_owned(),
            adaptive_refresh: true,
        }
    }
}

/// Which panels are shown.
#[derive(Debug, Clone, Copy, PartialEq, Eq, Structural)]
pub struct PanelConfig {
    pub cpu: bool,
    pub memory: bool,
    pub disk: bool,
    pub network: bool,
    pub processes: bool,
    pub gpu: bool,
}

impl Default for PanelConfig {
    fn default() -> (r: Self)
        ensures
            r.cpu && r.memory && r.disk && r.network && r.processes && !r.gpu,
    {
        PanelConfig { cpu: true, memory: true, disk: true, network: true, processes: true, gpu: false }
    }
}

/// Remote monitoring settings.
#[derive(Debug, Clone)]
pub struct RemoteConfig {
    /// List of remote hosts in "user@host" format.
    pub hosts: Vec<String>,
    /// Path to pulse binary on remote hosts.
    pub remote_binary: String,
    /// SSH connection timeout in seconds.
    pub connect_timeout_secs: u64,
}

impl Default for RemoteConfig {
    fn default() -> (r: Self)
        ensures
            r.hosts@.len() == 0,
            r.remote_binary@ == "pulse"@,
            r.connect_timeout_secs == 10,
    {
        RemoteConfig { hosts: Vec::new(), remote_binary: "pulse".to_owned(), connect_timeout_secs: 10 }
    }
}

} // verus!
