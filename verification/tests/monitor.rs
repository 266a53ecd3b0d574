use chrono::{Duration, Local, TimeZone};
use grafana_watch_dog::monitor::{default_for, default_severity, evaluate, make_event, moment_of, AlertRule, AlertState, Comparison, EventKind, Moment};

fn rule() -> AlertRule {
    AlertRule {
        id: "cpu".into(),
        name: "CPU".into(),
        expr: "cpu".into(),
        operator: Comparison::GreaterThan,
        threshold: "85".into(),
        for_checks: 2,
        severity: "critical".into(),
        unit: "%".into(),
    }
}

fn moment(t: chrono::DateTime<Local>) -> Moment {
    Moment { secs: t.timestamp(), nanos: t.timestamp_subsec_nanos(), rfc3339: t.to_rfc3339() }
}

fn breached(rule: &AlertRule, value: f64) -> bool {
    let threshold: f64 = rule.threshold.parse().unwrap();
    value > threshold
}

#[test]
fn requires_consecutive_checks_and_recovers() {
    let now = moment(Local::now());
    let r = rule();
    let (state, first) = evaluate(&r, breached(&r, 90.0), None, 30, &now);
    assert!(first.is_none());
    let (state, firing) = evaluate(&r, breached(&r, 91.0), Some(state), 30, &now);
    assert_eq!(firing.unwrap().kind, "firing");
    let (_, resolved) = evaluate(&r, breached(&r, 50.0), Some(state), 30, &now);
    assert_eq!(resolved.unwrap().kind, "resolved");
}

#[test]
fn repeats_only_after_cooldown() {
    let r = rule();
    let start = Local.with_ymd_and_hms(2024, 5, 1, 8, 0, 0).unwrap();
    let t0 = moment(start);
    let state = AlertState { rule_id: "cpu".into(), consecutive_failures: 5, active: true, last_notified_at: Some(t0.rfc3339.clone()) };
    let soon = moment(start + Duration::minutes(29) + Duration::seconds(59));
    let (state, event) = evaluate(&r, true, Some(state), 30, &soon);
    assert!(event.is_none());
    assert_eq!(state.last_notified_at.as_deref(), Some(t0.rfc3339.as_str()));
    let later = moment(start + Duration::minutes(30));
    let (state, event) = evaluate(&r, true, Some(state), 30, &later);
    let event = event.unwrap();
    assert_eq!(event.kind, "firing");
    assert_eq!(event.severity, "critical");
    assert_eq!(state.last_notified_at, Some(later.rfc3339.clone()));
    assert_eq!(state.consecutive_failures, 7);
}

#[test]
fn unreadable_last_notification_counts_as_elapsed() {
    let r = rule();
    let now = moment(Local::now());
    let state = AlertState { rule_id: "cpu".into(), consecutive_failures: 2, active: true, last_notified_at: Some("yesterday".into()) };
    let (_, event) = evaluate(&r, true, Some(state), 30, &now);
    assert!(event.is_some());
}

#[test]
fn recovery_of_inactive_rule_is_silent() {
    let r = rule();
    let now = moment(Local::now());
    let (state, event) = evaluate(&r, false, None, 30, &now);
    assert!(event.is_none());
    assert!(!state.active);
    assert_eq!(state.consecutive_failures, 0);
    assert_eq!(state.rule_id, "cpu");
}

#[test]
fn single_check_rule_fires_at_once() {
    let mut r = rule();
    r.for_checks = 0;
    let now = moment(Local::now());
    let (state, event) = evaluate(&r, true, None, 30, &now);
    assert!(state.active);
    assert_eq!(event.unwrap().kind, "firing");
}

#[test]
fn event_carries_rule_and_instant() {
    let r = rule();
    let now = Moment { secs: 1_700_000_000, nanos: 123_456_789, rfc3339: "2023-11-14T22:13:20.123456789+00:00".into() };
    let e = make_event(&r, EventKind::Firing, &now);
    assert_eq!(e.id, "cpu-1700000000123");
    assert_eq!(e.rule_id, "cpu");
    assert_eq!(e.rule_name, "CPU");
    assert_eq!(e.severity, "critical");
    assert_eq!(e.unit, "%");
    assert_eq!(e.created_at, now.rfc3339);
    let e = make_event(&r, EventKind::Resolved, &now);
    assert_eq!(e.severity, "info");
    assert_eq!(e.kind, "resolved");
    let before = Moment { secs: -2, nanos: 500_000_000, rfc3339: "1969-12-31T23:59:58.5+00:00".into() };
    assert_eq!(make_event(&r, EventKind::Firing, &before).id, "cpu--1500");
}

#[test]
fn defaults_and_preferences() {
    assert_eq!(default_for(), 1);
    assert_eq!(default_severity(), "warning");
    assert!(Comparison::LessThan.prefers_lowest());
    assert!(Comparison::LessOrEqual.prefers_lowest());
    assert!(!Comparison::GreaterThan.prefers_lowest());
    assert!(!Comparison::Equal.prefers_lowest());
}

#[test]
fn ongoing_breach_stays_quiet_within_cooldown() {
    let r = rule();
    let now = moment(Local::now());
    let state = AlertState { rule_id: "cpu".into(), consecutive_failures: 5, active: true, last_notified_at: Some(now.rfc3339.clone()) };
    let (state, event) = evaluate(&r, breached(&r, 95.0), Some(state), 30, &now);
    assert!(event.is_none());
    assert!(state.active);
    assert_eq!(state.consecutive_failures, 6);
    assert_eq!(state.last_notified_at, Some(now.rfc3339.clone()));
}

#[test]
fn moments_read_back_from_their_text() {
    let m = moment_of("2024-05-01T08:00:00.250+02:00".to_string()).unwrap();
    assert_eq!(m.secs, 1714543200);
    assert_eq!(m.nanos, 250_000_000);
    assert_eq!(m.rfc3339, "2024-05-01T08:00:00.250+02:00");
    assert!(moment_of("yesterday".to_string()).is_none());
}
