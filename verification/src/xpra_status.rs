//! Read-only status snapshot over the registry, the metrics and the
//! configuration. Nothing here mutates core state; rendering the snapshot
//! for people is the surrounding process's business.

use vstd::prelude::*;
use crate::xpra_config::XpraConfig;
use crate::xpra_metrics::XpraMetrics;
use crate::xpra_monitor::SessionMonitor;

verus! {

/// One live session as the status surface shows it.
pub struct SessionStatus {
    /// The session's identity string.
    pub session_id: String,
    /// The user the session belongs to.
    pub user: String,
    /// The display number the session holds.
    pub display: u16,
    /// Seconds since the session's last recorded activity.
    pub idle_time: u64,
    /// The websocket port the session's desktop server listens on.
    pub websocket_port: u16,
}

/// The configuration as the status surface shows it.
pub struct ConfigStatus {
    /// Minimum display number to allocate.
    pub min_display: u16,
    /// Maximum display number to allocate.
    pub max_display: u16,
    /// Base port for websocket connections.
    pub base_port: u16,
    /// Default window manager to use.
    pub window_manager: String,
    /// Session idle timeout in seconds (0 = no timeout).
    pub idle_timeout: u64,
    /// Maximum sessions per user (0 = unlimited).
    pub max_sessions: u32,
}

/// The counters as the status surface shows them.
pub struct MetricsStatus {
    /// Sessions ever started.
    pub total_sessions: u64,
    /// Sessions currently live.
    pub active_sessions: u64,
    /// Sessions that ended in an error.
    pub failed_sessions: u64,
    /// Sessions evicted by the idle sweep.
    pub idle_terminations: u64,
    /// Seconds the broker has been up.
    pub uptime: u64,
}

/// The whole status snapshot: configuration, live sessions and counters.
pub struct XpraStatus {
    /// The process-wide configuration.
    pub config: ConfigStatus,
    /// Every live session.
    pub sessions: Vec<SessionStatus>,
    /// The session counters.
    pub metrics: MetricsStatus,
}

/// One status row per registry record, in registry order: idle time is
/// measured against the caller's clock, and each display's websocket port
/// is derived from the configuration.
fn get_session_status(monitor: &SessionMonitor, config: &XpraConfig, now: u64) -> (r: Vec<
    SessionStatus,
>)
    requires
        config.wf(),
        forall|i: int|
            0 <= i < monitor@.len() ==> config.min_display <= (#[trigger] monitor@[i]).info.display
                <= config.max_display,
    ensures
        r@.len() == monitor@.len(),
        forall|i: int|
            0 <= i < monitor@.len() ==> {
                &&& (#[trigger] r@[i]).session_id@ == monitor@[i].session_id@
                &&& r@[i].user@ == monitor@[i].info.user@
                &&& r@[i].display == monitor@[i].info.display
                &&& r@[i].idle_time == if now >= monitor@[i].info.last_activity {
                    (now - monitor@[i].info.last_activity) as u64
                } else {
                    0u64
                }
                &&& r@[i].websocket_port == config.base_port + (monitor@[i].info.display
                    - config.min_display)
            },
{
    let entries = monitor.get_all_sessions();
    let n = entries.len();
    let mut out: Vec<SessionStatus> = Vec::new();
    let mut i: usize = 0;
    while i < n
        invariant
            n == entries@.len(),
            entries@ == monitor@,
            config.wf(),
            forall|k: int|
                0 <= k < monitor@.len() ==> config.min_display <= (
                #[trigger] monitor@[k]).info.display <= config.max_display,
            i <= n,
            out@.len() == i,
            forall|j: int|
                0 <= j < i ==> {
                    &&& (#[trigger] out@[j]).session_id@ == monitor@[j].session_id@
                    &&& out@[j].user@ == monitor@[j].info.user@
                    &&& out@[j].display == monitor@[j].info.display
                    &&& out@[j].idle_time == if now >= monitor@[j].info.last_activity {
                        (now - monitor@[j].info.last_activity) as u64
                    } else {
                        0u64
                    }
                    &&& out@[j].websocket_port == config.base_port + (monitor@[j].info.display
                        - config.min_display)
                },
        decreases n - i,
    {
        let e = &entries[i];
        let idle_time = if now >= e.info.last_activity {
            now - e.info.last_activity
        } else {
            0
        };
        let port = config.websocket_port(e.info.display);
        out.push(
            SessionStatus {
                session_id: e.session_id.clone(),
                user: e.info.user.clone(),
                display: e.info.display,
                idle_time,
                websocket_port: port,
            },
        );
        i = i + 1;
    }
    out
}

/// The full status snapshot at the caller's clock value `now`: the
/// configuration's fields, one row per live session, and the counters with
/// uptime.
pub fn get_status(config: &XpraConfig, monitor: &SessionMonitor, metrics: &XpraMetrics, now: u64) -> (r:
    XpraStatus)
    requires
        config.wf(),
        forall|i: int|
            0 <= i < monitor@.len() ==> config.min_display <= (#[trigger] monitor@[i]).info.display
                <= config.max_display,
    ensures
        r.config.min_display == config.min_display,
        r.config.max_display == config.max_display,
        r.config.base_port == config.base_port,
        r.config.window_manager@ == config.window_manager@,
        r.config.idle_timeout == config.idle_timeout,
        r.config.max_sessions == config.max_sessions,
        r.metrics.total_sessions == metrics.total_spec(),
        r.metrics.active_sessions == metrics.active_spec(),
        r.metrics.failed_sessions == metrics.failed_spec(),
        r.metrics.idle_terminations == metrics.idle_spec(),
        r.metrics.uptime == if now >= metrics.start_spec() {
            (now - metrics.start_spec()) as u64
        } else {
            0u64
        },
        r.sessions@.len() == monitor@.len(),
        forall|i: int|
            0 <= i < monitor@.len() ==> {
                &&& (#[trigger] r.sessions@[i]).session_id@ == monitor@[i].session_id@
                &&& r.sessions@[i].user@ == monitor@[i].info.user@
                &&& r.sessions@[i].display == monitor@[i].info.display
                &&& r.sessions@[i].idle_time == if now >= monitor@[i].info.last_activity {
                    (now - monitor@[i].info.last_activity) as u64
                } else {
                    0u64
                }
                &&& r.sessions@[i].websocket_port == config.base_port + (monitor@[i].info.display
                    - config.min_display)
            },
{
    let snapshot = metrics.get_metrics(now);
    XpraStatus {
        config: ConfigStatus {
            min_display: config.min_display,
            max_display: config.max_display,
            base_port: config.base_port,
            window_manager: config.window_manager.clone(),
            idle_timeout: config.idle_timeout,
            max_sessions: config.max_sessions,
        },
        sessions: get_session_status(monitor, config, now),
        metrics: MetricsStatus {
            total_sessions: snapshot.total_sessions,
            active_sessions: snapshot.active_sessions,
            failed_sessions: snapshot.failed_sessions,
            idle_terminations: snapshot.idle_terminations,
            uptime: snapshot.uptime_secs,
        },
    }
}

} // verus!
