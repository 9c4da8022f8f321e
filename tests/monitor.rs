use host_monitor::configs::{AddressConfig, PingConfig};
use host_monitor::delivery::{AlertMessage, MessageHandle};
use host_monitor::monitor::{MonitorAction, MonitorStatus, ProbeOutcome, TargetMonitor};
use std::sync::Arc;

fn target() -> AddressConfig {
    AddressConfig { address: "10.0.0.7".to_string(), description: "db primary".to_string() }
}

fn ping_config(retry: i64, sleep_after_alert_secs: i64) -> PingConfig {
    PingConfig {
        addresses: Arc::new(vec![target()]),
        timeout_secs: 10,
        retry,
        sleep_after_alert_secs,
    }
}

fn down() -> ProbeOutcome {
    ProbeOutcome::Unreachable("100% packet loss".to_string())
}

fn sent_copy(recipient_id: i64, message_id: i64, body: &str) -> AlertMessage {
    AlertMessage {
        recipient_id,
        handle: Some(MessageHandle { chat_id: recipient_id, message_id }),
        body: body.to_string(),
    }
}

/// Drives the monitor into an escalated episode with two delivered copies.
fn escalated_monitor() -> TargetMonitor {
    let mut m = TargetMonitor::new(&target(), &ping_config(1, 30));
    let r = m.on_probe(&down());
    let body = match r.action {
        MonitorAction::Escalate { alert_body, .. } => alert_body,
        other => panic!("expected an escalation, got {:?}", other),
    };
    m.record_escalation(vec![sent_copy(11, 500, &body), sent_copy(22, 600, &body)]);
    m
}

#[test]
fn three_failures_escalate_once_on_the_third() {
    let mut m = TargetMonitor::new(&target(), &ping_config(3, 30));
    let first = m.on_probe(&down());
    assert!(matches!(first.action, MonitorAction::Wait));
    assert_eq!(m.consecutive_failures(), 1);
    let second = m.on_probe(&down());
    assert!(matches!(second.action, MonitorAction::Wait));
    assert_eq!(m.consecutive_failures(), 2);
    let third = m.on_probe(&down());
    match third.action {
        MonitorAction::Escalate { alert_body, cooldown_secs } => {
            assert_eq!(alert_body, "🔥🔥🔥\nHOST: 10.0.0.7\ndb primary\nUNAVAILABLE\n🔥🔥🔥\n");
            assert_eq!(cooldown_secs, 30);
        },
        other => panic!("expected an escalation, got {:?}", other),
    }
    assert!(third.error_report.is_none());
    assert_eq!(m.consecutive_failures(), 0);
}

#[test]
fn success_clears_failure_count() {
    let mut m = TargetMonitor::new(&target(), &ping_config(5, 30));
    m.on_probe(&down());
    m.on_probe(&down());
    m.on_probe(&down());
    assert_eq!(m.consecutive_failures(), 3);
    let r = m.on_probe(&ProbeOutcome::Reachable);
    assert!(matches!(r.action, MonitorAction::Wait));
    assert_eq!(m.consecutive_failures(), 0);
}

#[test]
fn failures_while_alert_open_do_not_escalate_again() {
    let mut m = escalated_monitor();
    assert_eq!(m.open_alerts().len(), 2);
    for _ in 0..10 {
        let r = m.on_probe(&down());
        assert!(matches!(r.action, MonitorAction::Wait));
        assert_eq!(m.consecutive_failures(), 0);
        assert_eq!(m.open_alerts().len(), 2);
    }
}

#[test]
fn recovery_resolves_each_open_alert_once() {
    let mut m = escalated_monitor();
    let r = m.on_probe(&ProbeOutcome::Reachable);
    assert_eq!(m.consecutive_failures(), 0);
    match r.action {
        MonitorAction::Resolve { edits, recovered_body } => {
            assert_eq!(
                edits,
                vec![
                    Some(MessageHandle { chat_id: 11, message_id: 500 }),
                    Some(MessageHandle { chat_id: 22, message_id: 600 }),
                ]
            );
            assert_eq!(recovered_body, "✅✅✅\nHOST: 10.0.0.7\ndb primary\nAVAILABLE\n✅✅✅\n");
            assert!(recovered_body.contains("10.0.0.7"));
            assert!(recovered_body.contains("db primary"));
        },
        other => panic!("expected a resolution, got {:?}", other),
    }
}

#[test]
fn failed_edit_keeps_alert_open_and_retries_on_next_success() {
    let mut m = escalated_monitor();
    m.on_probe(&ProbeOutcome::Reachable);
    m.record_resolutions(&vec![true, false]);
    assert_eq!(m.open_alerts().len(), 1);
    assert_eq!(m.open_alerts()[0].recipient_id, 22);
    assert_eq!(m.open_alerts()[0].handle, Some(MessageHandle { chat_id: 22, message_id: 600 }));
    let again = m.on_probe(&ProbeOutcome::Reachable);
    match again.action {
        MonitorAction::Resolve { edits, .. } => {
            assert_eq!(edits, vec![Some(MessageHandle { chat_id: 22, message_id: 600 })]);
        },
        other => panic!("expected a resolution, got {:?}", other),
    }
    m.record_resolutions(&vec![true]);
    assert!(m.open_alerts().is_empty());
    let healthy = m.on_probe(&ProbeOutcome::Reachable);
    assert!(matches!(healthy.action, MonitorAction::Wait));
}

#[test]
fn failure_after_full_resolution_counts_again() {
    let mut m = escalated_monitor();
    m.on_probe(&ProbeOutcome::Reachable);
    m.record_resolutions(&vec![true, true]);
    assert!(m.open_alerts().is_empty());
    let r = m.on_probe(&down());
    assert!(matches!(r.action, MonitorAction::Escalate { .. }));
}

#[test]
fn alert_not_naming_target_is_not_edited() {
    let mut m = TargetMonitor::new(&target(), &ping_config(1, 0));
    m.on_probe(&down());
    m.record_escalation(vec![sent_copy(7, 1, "some other host is down")]);
    let r = m.on_probe(&ProbeOutcome::Reachable);
    match r.action {
        MonitorAction::Resolve { edits, .. } => assert_eq!(edits, vec![None]),
        other => panic!("expected a resolution, got {:?}", other),
    }
    m.record_resolutions(&vec![true]);
    assert_eq!(m.open_alerts().len(), 1);
}

#[test]
fn undelivered_copies_are_not_kept_open() {
    let mut m = TargetMonitor::new(&target(), &ping_config(1, 0));
    m.on_probe(&down());
    let lost = AlertMessage { recipient_id: 9, handle: None, body: "10.0.0.7".to_string() };
    m.record_escalation(vec![lost, sent_copy(8, 2, "10.0.0.7 down")]);
    assert_eq!(m.open_alerts().len(), 1);
    assert_eq!(m.open_alerts()[0].recipient_id, 8);
}

#[test]
fn execution_error_reports_at_once_and_counts_as_failure() {
    let mut m = TargetMonitor::new(&target(), &ping_config(2, 0));
    let r = m.on_probe(&ProbeOutcome::ExecutionError("no such file".to_string()));
    assert_eq!(
        r.error_report,
        Some("error request to addr: 10.0.0.7, error: no such file".to_string())
    );
    assert!(matches!(r.action, MonitorAction::Wait));
    assert_eq!(m.consecutive_failures(), 1);
    let r2 = m.on_probe(&ProbeOutcome::ExecutionError("no such file".to_string()));
    assert!(r2.error_report.is_some());
    assert!(matches!(r2.action, MonitorAction::Escalate { .. }));
}

#[test]
fn execution_error_reports_even_while_alert_open() {
    let mut m = escalated_monitor();
    let r = m.on_probe(&ProbeOutcome::ExecutionError("spawn failed".to_string()));
    assert!(r.error_report.is_some());
    assert!(matches!(r.action, MonitorAction::Wait));
}

#[test]
fn non_positive_threshold_escalates_on_first_failure() {
    let mut m = TargetMonitor::new(&target(), &ping_config(0, -4));
    let r = m.on_probe(&down());
    match r.action {
        MonitorAction::Escalate { cooldown_secs, .. } => assert_eq!(cooldown_secs, 0),
        other => panic!("expected an escalation, got {:?}", other),
    }
}

#[test]
fn new_monitor_is_healthy() {
    let m = TargetMonitor::new(&target(), &ping_config(3, 30));
    assert_eq!(m.address(), "10.0.0.7");
    assert_eq!(m.description(), "db primary");
    assert_eq!(m.consecutive_failures(), 0);
    assert!(m.open_alerts().is_empty());
}

#[test]
fn status_follows_the_health_cycle() {
    let mut m = TargetMonitor::new(&target(), &ping_config(2, 0));
    assert_eq!(m.status(), MonitorStatus::Healthy);
    m.on_probe(&down());
    assert_eq!(m.status(), MonitorStatus::Suspect);
    let r = m.on_probe(&down());
    let body = match r.action {
        MonitorAction::Escalate { alert_body, .. } => alert_body,
        other => panic!("expected an escalation, got {:?}", other),
    };
    m.record_escalation(vec![sent_copy(3, 4, &body)]);
    assert_eq!(m.status(), MonitorStatus::Alerting);
    m.on_probe(&ProbeOutcome::Reachable);
    assert_eq!(m.status(), MonitorStatus::Alerting);
    m.record_resolutions(&vec![true]);
    assert_eq!(m.status(), MonitorStatus::Healthy);
}
