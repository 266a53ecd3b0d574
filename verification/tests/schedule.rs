use grafana_watch_dog::schedule::{advance_clock, plan_tick, record_report_attempt, scheduler_start, text_at_least};
use grafana_watch_dog::settings::AppSettings;

#[test]
fn monitor_runs_each_interval() {
    let mut s = AppSettings::default();
    s.monitor_enabled = true;
    s.monitor_interval_minutes = 1;
    let mut state = scheduler_start();
    let mut runs = Vec::new();
    for _ in 0..6 {
        state = advance_clock(state);
        let (next, plan) = plan_tick(state, &s, "2024-05-01", "07:00");
        state = next;
        runs.push(plan.run_monitor);
        assert!(!plan.report_due);
    }
    assert_eq!(runs, vec![false, true, false, true, false, true]);
    s.monitor_enabled = false;
    state = advance_clock(state);
    let (state, plan) = plan_tick(state, &s, "2024-05-01", "07:00");
    assert!(!plan.run_monitor);
    assert_eq!(state.elapsed_seconds, 0);
}

#[test]
fn zero_interval_counts_as_one_minute() {
    let mut s = AppSettings::default();
    s.monitor_enabled = true;
    s.monitor_interval_minutes = 0;
    let state = advance_clock(scheduler_start());
    let (state, plan) = plan_tick(state, &s, "d", "t");
    assert!(!plan.run_monitor);
    let (_, plan) = plan_tick(advance_clock(state), &s, "d", "t");
    assert!(plan.run_monitor);
}

#[test]
fn daily_report_is_attempted_once() {
    let mut s = AppSettings::default();
    s.schedule_enabled = true;
    s.schedule_time = "08:00".into();
    let state = scheduler_start();
    let (state, plan) = plan_tick(state, &s, "2024-05-01", "07:59");
    assert!(!plan.report_due);
    let (state, plan) = plan_tick(state, &s, "2024-05-01", "08:00");
    assert!(plan.report_due);
    let state = record_report_attempt(state, "2024-05-01");
    let (state, plan) = plan_tick(state, &s, "2024-05-01", "23:59");
    assert!(!plan.report_due);
    let (_, plan) = plan_tick(state, &s, "2024-05-02", "08:30");
    assert!(plan.report_due);
}

#[test]
fn times_compare_as_strings() {
    assert!(text_at_least("08:00", "08:00"));
    assert!(text_at_least("10:00", "08:00"));
    assert!(!text_at_least("07:59", "08:00"));
    assert!(text_at_least("8:00", "08:00"));
    assert!(!text_at_least("", "0"));
    assert!(text_at_least("a", ""));
}
