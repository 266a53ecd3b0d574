use grafana_watch_dog::diagnose::{diagnosis_next, diagnosis_start, DiagnosisAction, DiagnosisEvent, DiagnosisStage};
use grafana_watch_dog::settings::AppSettings;

fn ready() -> AppSettings {
    let mut s = AppSettings::default();
    s.grafana_token = "glsa".into();
    s.mcp_retry_attempts = 7;
    s
}

#[test]
fn configuration_problems_stop_at_once() {
    let mut s = ready();
    s.grafana_token = " ".into();
    let (d, action) = diagnosis_start(&s, 0);
    assert_eq!(d.stage, DiagnosisStage::Finished);
    match action {
        DiagnosisAction::Report(r) => {
            assert!(!r.success);
            assert_eq!(r.attempts, 0);
            assert_eq!(r.steps.len(), 1);
            assert_eq!(r.steps[0].name, "配置检查");
            assert_eq!(r.steps[0].detail, "Grafana Token 为空");
        }
        _ => panic!("expected a report"),
    }
    s.grafana_token = "t".into();
    s.mcp_args = "--transport stdio".into();
    match diagnosis_start(&s, 1).1 {
        DiagnosisAction::Report(r) => assert_eq!(r.steps[0].detail, "启动参数缺少 --disable-write"),
        _ => panic!("expected a report"),
    }
}

#[test]
fn full_diagnosis_succeeds() {
    let (d, action) = diagnosis_start(&ready(), 1);
    assert!(matches!(action, DiagnosisAction::Connect));
    assert_eq!(d.handshake_attempts, 5);
    let (d, action) = diagnosis_next(d, DiagnosisEvent::Connected { elapsed_ms: 40 });
    assert!(matches!(action, DiagnosisAction::ListTools));
    let names = vec!["search_dashboards".to_string(), "list_datasources".to_string()];
    let (d, action) = diagnosis_next(d, DiagnosisEvent::ToolsListed { names, elapsed_ms: 12 });
    assert!(matches!(action, DiagnosisAction::CheckAuth { call: true }));
    let (_, action) = diagnosis_next(d, DiagnosisEvent::AuthChecked { outcome: Some(Ok(())), elapsed_ms: 30 });
    match action {
        DiagnosisAction::Report(r) => {
            assert!(r.success);
            assert_eq!(r.attempts, 1);
            let names: Vec<&str> = r.steps.iter().map(|s| s.name.as_str()).collect();
            assert_eq!(names, vec!["配置检查", "MCP 握手", "工具发现", "Grafana 鉴权"]);
            assert_eq!(r.steps[2].detail, "发现 2 个工具");
            assert_eq!(r.steps[3].detail, "Grafana API 鉴权成功");
            assert_eq!(r.steps[1].duration_ms, 40);
        }
        _ => panic!("expected a report"),
    }
}

#[test]
fn failures_report_where_they_happened() {
    let (d, _) = diagnosis_start(&ready(), 0);
    match diagnosis_next(d, DiagnosisEvent::ConnectFailed { error: "第 5/5 次：spawn".into(), elapsed_ms: 9 }).1 {
        DiagnosisAction::Report(r) => {
            assert!(!r.success);
            assert_eq!(r.attempts, 5);
            assert_eq!(r.steps[1].detail, "第 5/5 次：spawn");
        }
        _ => panic!("expected a report"),
    }
    let (d, _) = diagnosis_start(&ready(), 0);
    let (d, _) = diagnosis_next(d, DiagnosisEvent::Connected { elapsed_ms: 1 });
    match diagnosis_next(d, DiagnosisEvent::ToolsFailed { error: "closed".into(), elapsed_ms: 2 }).1 {
        DiagnosisAction::Report(r) => assert!(!r.success && r.attempts == 1 && r.steps.len() == 3),
        _ => panic!("expected a report"),
    }
    let (d, _) = diagnosis_start(&ready(), 0);
    let (d, _) = diagnosis_next(d, DiagnosisEvent::Connected { elapsed_ms: 1 });
    let (d, action) = diagnosis_next(d, DiagnosisEvent::ToolsListed { names: vec!["search".into()], elapsed_ms: 2 });
    assert!(matches!(action, DiagnosisAction::CheckAuth { call: false }));
    match diagnosis_next(d, DiagnosisEvent::AuthChecked { outcome: None, elapsed_ms: 0 }).1 {
        DiagnosisAction::Report(r) => {
            assert!(!r.success);
            assert_eq!(r.steps[3].detail, "MCP 未提供 list_datasources，无法验证 Grafana 鉴权");
        }
        _ => panic!("expected a report"),
    }
}
