use grafana_watch_dog::monitor::{AlertRule, Comparison};
use grafana_watch_dog::monitor::Moment;
use grafana_watch_dog::report::{category, check_monitor_settings, collection_error_id, count_errors, count_reading, empty_result, empty_tally, gather_rule, group_samples, history_stride, instance_rule, join, no_readings_error, query_failure, report_id, report_score, report_status, report_summary, service_score, tally_readings, LocatedSample, QueryOutcome, ReadingOutcome};
use grafana_watch_dog::samples::MetricSample;
use grafana_watch_dog::settings::AppSettings;

fn located(value: &str, instance: &str, job: &str, uid: &str) -> LocatedSample {
    LocatedSample {
        sample: MetricSample { value: value.into(), instance: instance.into(), job: job.into() },
        datasource_uid: uid.into(),
    }
}

#[test]
fn groups_by_instance_in_first_seen_order() {
    let samples = vec![
        located("1", "a", "node", "p"),
        located("2", "b", "node", "p"),
        located("3", "a", "node", "p"),
        located("4", "a", "node", "q"),
        located("5", "a", "other", "p"),
    ];
    let groups = group_samples(&samples);
    let shape: Vec<(&str, &str, &str, Vec<&str>)> = groups.iter().map(|g| (g.datasource_uid.as_str(), g.instance.as_str(), g.job.as_str(), g.values.iter().map(|v| v.as_str()).collect())).collect();
    assert_eq!(shape, vec![
        ("p", "a", "node", vec!["1", "3"]),
        ("p", "b", "node", vec!["2"]),
        ("q", "a", "node", vec!["4"]),
        ("p", "a", "other", vec!["5"]),
    ]);
    assert!(group_samples(&vec![]).is_empty());
}

#[test]
fn per_instance_rule_names() {
    let rule = AlertRule { id: "cpu".into(), name: "CPU 使用率".into(), expr: "e".into(), operator: Comparison::GreaterThan, threshold: "85".into(), for_checks: 2, severity: "critical".into(), unit: "%".into() };
    let r = instance_rule(&rule, "prom", "10.0.0.1:9100");
    assert_eq!(r.id, "cpu@prom@10.0.0.1:9100");
    assert_eq!(r.name, "CPU 使用率 · 10.0.0.1:9100");
    assert_eq!(r.threshold, "85");
    assert_eq!(category(&r.id), "cpu");
    assert_eq!(category("database@p@i"), "database");
    assert_eq!(category("server_up@p@i"), "availability");
    assert_eq!(category("cpu"), "availability");
    assert!(empty_result(&rule).unwrap() == "CPU 使用率：查询结果为空");
    let db = AlertRule { id: "database".into(), ..rule };
    assert!(empty_result(&db).is_none());
    assert_eq!(query_failure("CPU", "prom", "timeout"), "CPU / prom：timeout");
}

#[test]
fn scores_the_day() {
    let t = empty_tally();
    assert_eq!(report_score(&t), 100);
    assert_eq!(report_status(&t), "healthy");
    assert_eq!(report_summary(&t, 12), "已分析过去 24 小时的 12 条采样，均在配置阈值内。");
    let t = count_reading(t, true, "critical");
    let t = count_reading(t, true, "warning");
    let t = count_reading(t, false, "critical");
    assert_eq!((t.critical, t.warning, t.healthy), (1, 1, 1));
    assert_eq!(report_score(&t), 65);
    assert_eq!(report_status(&t), "critical");
    assert_eq!(report_summary(&t, 300), "已分析过去 24 小时的 300 条采样，发现 1 项严重异常、1 项警告。");
    let t = count_errors(t, 5);
    assert_eq!(report_score(&t), 15);
    let t = count_errors(t, 10);
    assert_eq!(report_score(&t), 0);
    let w = count_errors(empty_tally(), 2);
    assert_eq!(report_status(&w), "warning");
    assert_eq!(report_summary(&w, 0), "已分析过去 24 小时的 0 条采样，发现 2 项需要关注的问题。");
    assert_eq!(service_score(false, "critical"), 100);
    assert_eq!(service_score(true, "critical"), 35);
    assert_eq!(service_score(true, "warning"), 65);
}

#[test]
fn report_texts() {
    assert_eq!(history_stride(10), 1);
    assert_eq!(history_stride(48), 2);
    assert_eq!(history_stride(100), 4);
    let now = Moment { secs: 1714550400, nanos: 123_456_789, rfc3339: "2024-05-01T08:00:00.123456789+00:00".to_string() };
    assert_eq!(report_id("2024-05-01", &now), "report-2024-05-01-1714550400123");
    assert_eq!(collection_error_id(3), "collection-error-3");
    assert_eq!(join(&vec!["a".into(), "b".into(), "c".into()], "；"), "a；b；c");
    assert_eq!(join(&vec![], "；"), "");
    assert_eq!(no_readings_error(&vec!["x".into(), "y".into()]), "Grafana 未返回任何可用指标：x；y");
}

#[test]
fn monitoring_needs_a_selection() {
    let mut s = AppSettings::default();
    assert_eq!(check_monitor_settings(&s).unwrap_err(), "请先从 Grafana 自动发现结果中选择需要监控的数据源或 Dashboard");
    s.selected_dashboard_uids = vec!["d1".into()];
    assert!(check_monitor_settings(&s).is_ok());
    s.mcp_args = "--transport stdio".into();
    assert_eq!(check_monitor_settings(&s).unwrap_err(), "安全检查失败：监控必须使用 --disable-write");
}

fn sample(value: &str, instance: &str) -> MetricSample {
    MetricSample { value: value.into(), instance: instance.into(), job: "node".into() }
}

#[test]
fn gathers_samples_and_failures_per_source() {
    let rule = AlertRule { id: "cpu".into(), name: "CPU".into(), expr: "e".into(), operator: Comparison::GreaterThan, threshold: "85".into(), for_checks: 1, severity: "critical".into(), unit: "%".into() };
    let outcomes = vec![
        QueryOutcome { datasource_uid: "p".into(), found: Ok(vec![sample("1", "a"), sample("2", "b")]) },
        QueryOutcome { datasource_uid: "q".into(), found: Err("timeout".into()) },
        QueryOutcome { datasource_uid: "r".into(), found: Ok(vec![sample("3", "a")]) },
    ];
    let (located, errors) = gather_rule(&rule, &outcomes);
    let shape: Vec<(&str, &str, &str)> = located.iter().map(|l| (l.datasource_uid.as_str(), l.sample.instance.as_str(), l.sample.value.as_str())).collect();
    assert_eq!(shape, vec![("p", "a", "1"), ("p", "b", "2"), ("r", "a", "3")]);
    assert_eq!(errors, vec!["CPU / q：timeout".to_string()]);

    let failed = vec![QueryOutcome { datasource_uid: "q".into(), found: Err("down".into()) }];
    let (located, errors) = gather_rule(&rule, &failed);
    assert!(located.is_empty());
    assert_eq!(errors, vec!["CPU / q：down".to_string(), "CPU：查询结果为空".to_string()]);

    let db = AlertRule { id: "database".into(), name: "DB".into(), ..rule };
    let (located, errors) = gather_rule(&db, &vec![QueryOutcome { datasource_uid: "p".into(), found: Ok(vec![]) }]);
    assert!(located.is_empty());
    assert!(errors.is_empty());
}

#[test]
fn tallies_readings_and_errors() {
    let outcomes = vec![
        ReadingOutcome { breached: true, severity: "critical".into() },
        ReadingOutcome { breached: true, severity: "warning".into() },
        ReadingOutcome { breached: false, severity: "critical".into() },
        ReadingOutcome { breached: false, severity: "warning".into() },
    ];
    let t = tally_readings(&outcomes, 2);
    assert_eq!((t.critical, t.warning, t.healthy), (1, 3, 2));
    assert_eq!(report_score(&t), 100 - 25 - 30);
    let t = tally_readings(&vec![], 0);
    assert_eq!((t.critical, t.warning, t.healthy), (0, 0, 0));
}
