//! Immutable broker configuration: the display-number range, the base
//! websocket port, the default window manager, the idle timeout and the
//! per-user session cap.

use vstd::prelude::*;

verus! {

/// Lowest display number the allocator may hand out by default.
pub fn default_min_display() -> (r: u16)
    ensures
        r == 100,
{
    100
}

/// Highest display number the allocator may hand out by default.
pub fn default_max_display() -> (r: u16)
    ensures
        r == 599,
{
    599
}

/// Default base port for websocket connections; display `d` listens on
/// `base_port + (d - min_display)`.
pub fn default_base_port() -> (r: u16)
    ensures
        r == 14500,
{
    14500
}

/// Default window manager started inside a fresh desktop session.
pub fn default_window_manager() -> (r: String)
    ensures
        r@ == "gnome-flashback"@,
{
    let wm: String = "gnome-flashback".to_owned();
    wm
}

/// Default idle timeout in seconds (one hour).
pub fn default_idle_timeout() -> (r: u64)
    ensures
        r == 3600,
{
    3600
}

/// Default cap on concurrent sessions per user.
pub fn default_max_sessions() -> (r: u32)
    ensures
        r == 5,
{
    5
}

/// Process-wide settings, loaded once at startup and read-only thereafter.
pub struct XpraConfig {
    /// Minimum display number to allocate.
    pub min_display: u16,
    /// Maximum display number to allocate.
    pub max_display: u16,
    /// Base port for websocket connections.
    pub base_port: u16,
    /// Default window manager to use.
    pub window_manager: String,
    /// Session idle timeout in seconds (0 = no timeout).
    pub idle_timeout: u64,
    /// Maximum sessions per user (0 = unlimited).
    pub max_sessions: u32,
}

impl XpraConfig {
    /// A configuration is usable when its display range is non-empty and
    /// every display in the range maps to a representable websocket port.
    pub open spec fn wf(self) -> bool {
        &&& self.min_display <= self.max_display
        &&& self.base_port + (self.max_display - self.min_display) <= u16::MAX
    }

    /// Idle timeout in seconds, or `None` when idle eviction is disabled.
    pub fn idle_duration(&self) -> (r: Option<u64>)
        ensures
            r == if self.idle_timeout == 0 {
                Option::<u64>::None
            } else {
                Option::Some(self.idle_timeout)
            },
    {
        if self.idle_timeout == 0 {
            None
        } else {
            Some(self.idle_timeout)
        }
    }

    /// The websocket port that display `display` listens on: each display in
    /// the configured range maps to its own port, in order, starting at
    /// `base_port`.
    pub fn websocket_port(&self, display: u16) -> (r: u16)
        requires
            self.min_display <= display,
            self.base_port + (display - self.min_display) <= u16::MAX,
        ensures
            r == self.base_port + (display - self.min_display),
    {
        self.base_port + (display - self.min_display)
    }
}

impl Default for XpraConfig {
    /// The stock configuration: displays 100 through 599, ports from 14500,
    /// a one-hour idle timeout and at most five sessions per user.
    fn default() -> (r: Self)
        ensures
            r.min_display == 100,
            r.max_display == 599,
            r.base_port == 14500,
            r.window_manager@ == "gnome-flashback"@,
            r.idle_timeout == 3600,
            r.max_sessions == 5,
            r.wf(),
    {
        XpraConfig {
            min_display: default_min_display(),
            max_display: default_max_display(),
            base_port: default_base_port(),
            window_manager: default_window_manager(),
            idle_timeout: default_idle_timeout(),
            max_sessions: default_max_sessions(),
        }
    }
}

} // verus!
