//! Tests for the relay state machine, the launcher checks and the
//! configuration.

use sshx::xpra_config::{
    default_base_port, default_idle_timeout, default_max_display, default_max_sessions,
    default_min_display, default_window_manager, XpraConfig,
};
use sshx::xpra_log_analyzer::LogAnalyzer;
use sshx::xpra_log_rotation::LogRotator;
use sshx::xpra_metrics::XpraMetrics;
use sshx::xpra_monitor::SessionMonitor;
use sshx::xpra_pool::DisplayPool;
use sshx::xpra_runner::{
    acquire_display, check_session_limit, complete_display_setup, end_session, register_started,
    RelayAction, RelayEvent, RelayState, ShellData,
};
use sshx::XpraError;

#[test]
fn test_config_defaults_and_ports() {
    let config = XpraConfig::default();
    assert_eq!(config.min_display, default_min_display());
    assert_eq!(config.max_display, default_max_display());
    assert_eq!(config.base_port, default_base_port());
    assert_eq!(config.window_manager, default_window_manager());
    assert_eq!(config.idle_timeout, default_idle_timeout());
    assert_eq!(config.max_sessions, default_max_sessions());
    assert_eq!(config.websocket_port(100), 14500);
    assert_eq!(config.websocket_port(150), 14550);
    assert_eq!(config.idle_duration(), Some(3600));
    let mut no_timeout = XpraConfig::default();
    no_timeout.idle_timeout = 0;
    assert_eq!(no_timeout.idle_duration(), None);
}

#[test]
fn test_relay_sequence_offsets() {
    // Sequence numbers are cumulative byte offsets: each emitted frame
    // carries the current offset, which then advances by the frame's
    // length.
    let mut relay = RelayState::new(5);
    let mut seqs = Vec::new();
    let mut lens = Vec::new();
    for frame in [vec![1u8, 2, 3], vec![4u8, 5], vec![6u8, 7, 8, 9]] {
        lens.push(frame.len() as u64);
        match relay.handle_event(RelayEvent::Server(frame)) {
            RelayAction::Emit(out) => {
                assert_eq!(out.stream_id, 0x1_0000_0000u64 | 5);
                seqs.push(out.seq);
            }
            _ => panic!("a server frame must be emitted"),
        }
    }
    assert_eq!(seqs, vec![0, 3, 5]);
    // Non-decreasing, increments equal to the frame lengths.
    assert_eq!(seqs[1], seqs[0] + lens[0]);
    assert_eq!(seqs[2], seqs[1] + lens[1]);
    assert_eq!(relay.seq, 9);
}

#[test]
fn test_relay_sync_ratchet() {
    // A sync moves the counter forward, never back.
    let mut relay = RelayState::new(1);
    assert!(matches!(
        relay.handle_event(RelayEvent::Client(ShellData::Sync(100))),
        RelayAction::NoEffect
    ));
    assert_eq!(relay.seq, 100);
    relay.handle_event(RelayEvent::Client(ShellData::Sync(40)));
    assert_eq!(relay.seq, 100);
    match relay.handle_event(RelayEvent::Server(vec![9u8, 9])) {
        RelayAction::Emit(out) => assert_eq!(out.seq, 100),
        _ => panic!("a server frame must be emitted"),
    }
    assert_eq!(relay.seq, 102);
}

#[test]
fn test_relay_forward_and_resize() {
    let mut relay = RelayState::new(2);
    match relay.handle_event(RelayEvent::Client(ShellData::Data(vec![7u8, 8, 9]))) {
        RelayAction::Forward(bytes) => assert_eq!(bytes, vec![7u8, 8, 9]),
        _ => panic!("client data must be forwarded"),
    }
    assert!(matches!(
        relay.handle_event(RelayEvent::Client(ShellData::Size(24, 80))),
        RelayAction::NoEffect
    ));
    assert_eq!(relay.seq, 0);
}

#[test]
fn test_user_session_cap() {
    // Cap 2: the third concurrent registration for the same user is
    // rejected; releasing one admits exactly one more.
    let mut config = XpraConfig::default();
    config.max_sessions = 2;
    let mut m = SessionMonitor::new();
    let alice = "alice".to_string();

    assert!(check_session_limit(&m, &config, &alice).is_ok());
    m.register_session("s1".to_string(), "alice".to_string(), 100, 0);
    assert!(check_session_limit(&m, &config, &alice).is_ok());
    m.register_session("s2".to_string(), "alice".to_string(), 101, 0);
    assert_eq!(
        check_session_limit(&m, &config, &alice),
        Err(XpraError::MaxSessionsReached)
    );
    // Another user is unaffected.
    assert!(check_session_limit(&m, &config, &"bob".to_string()).is_ok());

    // Release one of alice's sessions: one more is admitted, then refused.
    m.remove_session(&"s1".to_string());
    assert!(check_session_limit(&m, &config, &alice).is_ok());
    m.register_session("s3".to_string(), "alice".to_string(), 102, 0);
    assert_eq!(
        check_session_limit(&m, &config, &alice),
        Err(XpraError::MaxSessionsReached)
    );

    // Cap 0 means unlimited.
    config.max_sessions = 0;
    assert!(check_session_limit(&m, &config, &alice).is_ok());
}

#[test]
fn test_acquire_display_and_ports() {
    let mut config = XpraConfig::default();
    config.min_display = 100;
    config.max_display = 101;
    let mut pool = DisplayPool::with_range(100, 101);
    let (d1, p1) = acquire_display(&mut pool, &config).unwrap();
    assert_eq!((d1, p1), (100, 14500));
    let (d2, p2) = acquire_display(&mut pool, &config).unwrap();
    assert_eq!((d2, p2), (101, 14501));
    assert_eq!(
        acquire_display(&mut pool, &config),
        Err(XpraError::Exhausted)
    );
}

#[test]
fn test_setup_failure_releases_display() {
    // A busy port or a failed spawn surfaces as its own error, and the
    // acquired display number is back in the pool before the error returns.
    let mut config = XpraConfig::default();
    config.min_display = 100;
    config.max_display = 102;
    let mut pool = DisplayPool::with_range(100, 102);

    let (d, _port) = acquire_display(&mut pool, &config).unwrap();
    assert_eq!(
        complete_display_setup(&mut pool, d, false, false),
        Err(XpraError::PortUnavailable)
    );
    assert_eq!(pool.allocated_count(), 0);
    assert_eq!(pool.allocate().unwrap(), 100);
    pool.release(100);

    let (d, _port) = acquire_display(&mut pool, &config).unwrap();
    assert_eq!(
        complete_display_setup(&mut pool, d, true, false),
        Err(XpraError::SpawnFailed)
    );
    assert_eq!(pool.allocated_count(), 0);

    let (d, _port) = acquire_display(&mut pool, &config).unwrap();
    assert_eq!(complete_display_setup(&mut pool, d, true, true), Ok(()));
    assert_eq!(pool.allocated_count(), 1);
}

#[test]
fn test_session_lifecycle_bookkeeping() {
    // Register-start then end: the registry record and the display number
    // come and go together, and the counters record the outcome.
    let mut pool = DisplayPool::with_range(100, 102);
    let mut metrics = XpraMetrics::new(0);
    let mut m = SessionMonitor::new();

    let d = pool.allocate().unwrap();
    register_started(
        &mut m,
        &mut metrics,
        "xpra-7".to_string(),
        "alice".to_string(),
        d,
        0,
    );
    assert_eq!(m.get_user_session_count(&"alice".to_string()), 1);
    assert_eq!(metrics.get_metrics(0).active_sessions, 1);

    let removed = end_session(&mut m, &mut metrics, &mut pool, &"xpra-7".to_string(), d, false);
    assert_eq!(removed.unwrap().display, d);
    assert_eq!(m.get_user_session_count(&"alice".to_string()), 0);
    assert_eq!(pool.allocated_count(), 0);
    let snap = metrics.get_metrics(0);
    assert_eq!(snap.active_sessions, 0);
    assert_eq!(snap.failed_sessions, 0);

    // A second teardown of the same session stays harmless.
    let again = end_session(&mut m, &mut metrics, &mut pool, &"xpra-7".to_string(), d, false);
    assert!(again.is_none());
    assert_eq!(pool.allocated_count(), 0);

    // A failed end counts as a failure.
    let d = pool.allocate().unwrap();
    register_started(
        &mut m,
        &mut metrics,
        "xpra-8".to_string(),
        "bob".to_string(),
        d,
        0,
    );
    end_session(&mut m, &mut metrics, &mut pool, &"xpra-8".to_string(), d, true);
    assert_eq!(metrics.get_metrics(0).failed_sessions, 1);
}

#[test]
fn test_log_handles() {
    let analyzer = LogAnalyzer::new("/var/log/sshx/xpra".to_string());
    assert_eq!(analyzer.log_dir().as_str(), "/var/log/sshx/xpra");
    let rotator = LogRotator::new("/var/log/sshx/xpra".to_string());
    assert_eq!(rotator.log_dir().as_str(), "/var/log/sshx/xpra");
}
