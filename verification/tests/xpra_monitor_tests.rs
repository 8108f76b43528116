//! Tests for the session registry, the idle sweep, the metrics and the
//! status snapshot.

use sshx::xpra_config::XpraConfig;
use sshx::xpra_logger::{events_for_evicted, SessionEventType};
use sshx::xpra_metrics::XpraMetrics;
use sshx::xpra_monitor::SessionMonitor;
use sshx::xpra_pool::DisplayPool;
use sshx::xpra_status::get_status;

#[test]
fn test_register_touch_remove() {
    let mut m = SessionMonitor::new();
    m.register_session("s1".to_string(), "alice".to_string(), 100, 10);
    m.register_session("s2".to_string(), "bob".to_string(), 101, 10);
    assert_eq!(m.get_user_session_count(&"alice".to_string()), 1);
    assert_eq!(m.get_user_session_count(&"bob".to_string()), 1);
    assert_eq!(m.get_user_session_count(&"carol".to_string()), 0);

    // Overwrite: same identity, last write wins.
    m.register_session("s1".to_string(), "alice".to_string(), 102, 20);
    let all = m.get_all_sessions();
    assert_eq!(all.len(), 2);
    let s1 = all.iter().find(|e| e.session_id == "s1").unwrap();
    assert_eq!(s1.info.display, 102);
    assert_eq!(s1.info.last_activity, 20);

    // Touch updates last_activity; a stale touch is a no-op.
    m.update_activity(&"s1".to_string(), 30);
    m.update_activity(&"ghostly".to_string(), 30);
    let all = m.get_all_sessions();
    let s1 = all.iter().find(|e| e.session_id == "s1").unwrap();
    assert_eq!(s1.info.last_activity, 30);

    // Remove is idempotent.
    let removed = m.remove_session(&"s1".to_string());
    assert!(removed.is_some());
    assert_eq!(removed.unwrap().display, 102);
    assert!(m.remove_session(&"s1".to_string()).is_none());
    assert_eq!(m.get_all_sessions().len(), 1);
}

#[test]
fn test_idle_sweep_evicts_and_releases() {
    // Register "s1"/"alice"/display 100, let it sit past the idle timeout
    // with no touch, sweep once: the record is gone, display 100 is back in
    // the free pool, and the idle-terminated counter moved by exactly 1.
    let mut pool = DisplayPool::with_range(100, 102);
    let mut metrics = XpraMetrics::new(0);
    let mut m = SessionMonitor::new();
    let display = pool.allocate().unwrap();
    assert_eq!(display, 100);
    m.register_session("s1".to_string(), "alice".to_string(), display, 0);
    metrics.session_started();

    let timeout = 3600;
    let evicted = m.cleanup_idle_sessions(timeout + 100, timeout, &mut pool, &mut metrics);
    assert_eq!(evicted.len(), 1);
    assert_eq!(evicted[0].session_id, "s1");
    assert!(m.get_all_sessions().is_empty());
    // Display 100 is free again: the next allocation hands it out.
    assert_eq!(pool.allocate().unwrap(), 100);
    let snap = metrics.get_metrics(timeout + 100);
    assert_eq!(snap.idle_terminations, 1);
    assert_eq!(snap.active_sessions, 0);
    assert_eq!(snap.total_sessions, 1);

    // The evicted records map to idle-timeout events for the log sink.
    let events = events_for_evicted(&evicted, timeout + 100);
    assert_eq!(events.len(), 1);
    assert!(matches!(events[0].event_type, SessionEventType::IdleTimeout));
    assert_eq!(events[0].session_id, "s1");
    assert_eq!(events[0].user, "alice");
    assert_eq!(events[0].display, 100);
}

#[test]
fn test_idle_sweep_spares_touched_sessions() {
    // A session touched within the timeout of the sweep survives it; one
    // untouched for longer than the timeout does not.
    let mut pool = DisplayPool::with_range(100, 102);
    let mut metrics = XpraMetrics::new(0);
    let mut m = SessionMonitor::new();
    m.register_session("old".to_string(), "alice".to_string(), 100, 0);
    m.register_session("fresh".to_string(), "bob".to_string(), 101, 0);
    m.update_activity(&"fresh".to_string(), 4000);

    let evicted = m.cleanup_idle_sessions(4100, 3600, &mut pool, &mut metrics);
    assert_eq!(evicted.len(), 1);
    assert_eq!(evicted[0].session_id, "old");
    let all = m.get_all_sessions();
    assert_eq!(all.len(), 1);
    assert_eq!(all[0].session_id, "fresh");
}

#[test]
fn test_sweep_on_empty_registry() {
    let mut pool = DisplayPool::new();
    let mut metrics = XpraMetrics::new(0);
    let mut m = SessionMonitor::new();
    let evicted = m.cleanup_idle_sessions(10_000, 1, &mut pool, &mut metrics);
    assert!(evicted.is_empty());
    assert_eq!(metrics.get_metrics(10_000).idle_terminations, 0);
}

#[test]
fn test_metrics_transitions() {
    let mut metrics = XpraMetrics::new(50);
    metrics.session_started();
    metrics.session_started();
    metrics.session_started();
    metrics.session_ended();
    metrics.session_failed();
    metrics.idle_terminated();
    let snap = metrics.get_metrics(170);
    assert_eq!(snap.total_sessions, 3);
    assert_eq!(snap.active_sessions, 0);
    assert_eq!(snap.failed_sessions, 1);
    assert_eq!(snap.idle_terminations, 1);
    assert_eq!(snap.uptime_secs, 120);
    // Decrementing past zero saturates instead of wrapping.
    metrics.session_ended();
    assert_eq!(metrics.get_metrics(170).active_sessions, 0);
}

#[test]
fn test_status_snapshot() {
    let config = XpraConfig::default();
    let metrics = XpraMetrics::new(0);
    let mut m = SessionMonitor::new();
    m.register_session("s7".to_string(), "carol".to_string(), 110, 40);
    let status = get_status(&config, &m, &metrics, 100);
    assert_eq!(status.config.min_display, 100);
    assert_eq!(status.config.max_display, 599);
    assert_eq!(status.config.base_port, 14500);
    assert_eq!(status.config.window_manager, "gnome-flashback");
    assert_eq!(status.config.idle_timeout, 3600);
    assert_eq!(status.config.max_sessions, 5);
    assert_eq!(status.metrics.uptime, 100);
    assert_eq!(status.sessions.len(), 1);
    assert_eq!(status.sessions[0].session_id, "s7");
    assert_eq!(status.sessions[0].user, "carol");
    assert_eq!(status.sessions[0].display, 110);
    assert_eq!(status.sessions[0].idle_time, 60);
    assert_eq!(status.sessions[0].websocket_port, 14510);
}
