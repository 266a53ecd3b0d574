use grafana_watch_dog::monitor::Comparison;
use grafana_watch_dog::settings::{check_connection_settings, check_read_only, connected_message, default_alert_rules, default_cooldown, default_monitor_interval, default_retry_attempts, ensure_database_rule, hydrate_credentials, mcp_config, should_probe_binary, uses_disable_write, without_secrets, AppSettings};
use grafana_watch_dog::text::{has_word, split_whitespace};

#[test]
fn defaults_are_read_only_and_complete() {
    let s = AppSettings::default();
    assert!(uses_disable_write(&s));
    assert_eq!(s.grafana_url, "http://localhost:3000");
    assert_eq!(s.monitor_interval_minutes, 5);
    assert_eq!(s.alert_cooldown_minutes, 30);
    assert_eq!(s.mcp_retry_attempts, 3);
    assert!(s.grafana_token.is_empty() && s.ai_key.is_empty());
    let ids: Vec<&str> = s.alert_rules.iter().map(|r| r.id.as_str()).collect();
    assert_eq!(ids, vec!["cpu", "memory", "disk", "server_up"]);
    assert_eq!(default_monitor_interval(), 5);
    assert_eq!(default_cooldown(), 30);
    assert_eq!(default_retry_attempts(), 3);
}

#[test]
fn default_rules_have_their_thresholds() {
    let rules = default_alert_rules();
    assert_eq!(rules[0].threshold, "85");
    assert_eq!(rules[0].for_checks, 2);
    assert_eq!(rules[0].operator, Comparison::GreaterThan);
    assert_eq!(rules[2].operator, Comparison::LessThan);
    assert_eq!(rules[2].threshold, "10");
    assert_eq!(rules[3].unit, "");
    assert!(rules.iter().all(|r| r.severity == "critical"));
    assert_eq!(rules[2].threshold.parse::<f64>().unwrap(), 10.0);
}

#[test]
fn database_rule_is_added_once() {
    let mut rules = default_alert_rules();
    assert_eq!(rules.len(), 4);
    ensure_database_rule(&mut rules);
    assert_eq!(rules.len(), 5);
    assert_eq!(rules[4].id, "database");
    ensure_database_rule(&mut rules);
    assert_eq!(rules.len(), 5);
}

#[test]
fn hydration_keeps_given_secrets() {
    let mut s = AppSettings::default();
    s.grafana_token = "glsa_token".into();
    s.ai_key = "sk-key".into();
    s.alert_rules.clear();
    let (h, token, key) = hydrate_credentials(s);
    assert!(token.is_none() && key.is_none());
    assert_eq!(h.grafana_token, "glsa_token");
    assert_eq!(h.ai_key, "sk-key");
    assert_eq!(h.alert_rules.len(), 1);
    assert_eq!(h.alert_rules[0].id, "database");
}

#[test]
fn saved_settings_hold_no_secret() {
    let mut s = AppSettings::default();
    s.grafana_token = "glsa_token".into();
    s.ai_key = "sk-key".into();
    s.schedule_time = "09:30".into();
    let w = without_secrets(s);
    assert!(w.grafana_token.is_empty());
    assert!(w.ai_key.is_empty());
    assert_eq!(w.schedule_time, "09:30");
}

#[test]
fn write_access_is_refused() {
    let mut s = AppSettings::default();
    s.mcp_args = "--transport stdio --disable-writes".into();
    assert_eq!(check_read_only(&s).unwrap_err(), "安全检查失败：MVP 必须使用 --disable-write");
    s.mcp_args = "\t--disable-write\n".into();
    assert!(check_read_only(&s).is_ok());
    s.grafana_url = "   ".into();
    assert_eq!(check_connection_settings(&s).unwrap_err(), "请填写 Grafana 地址");
    s.grafana_url = "http://grafana".into();
    assert!(check_connection_settings(&s).is_ok());
    assert_eq!(connected_message(42), "已连接官方 mcp-grafana，共发现 42 个只读工具");
}

#[test]
fn mcp_config_splits_arguments() {
    let mut s = AppSettings::default();
    s.grafana_token = "t".into();
    let c = mcp_config(&s, true);
    assert_eq!(c.command, "mcp-grafana");
    assert_eq!(c.args, vec!["--transport", "stdio", "--disable-write", "--enabled-tools", "search,datasource,prometheus,loki,alerting,dashboard"]);
    assert_eq!(c.service_account_token, "t");
    assert!(!should_probe_binary(&s));
    s.mcp_command = "uvx".into();
    s.mcp_args = "mcp-grafana  --disable-write".into();
    assert!(should_probe_binary(&s));
    let direct = mcp_config(&s, true);
    assert_eq!(direct.command, "mcp-grafana");
    assert_eq!(direct.args, vec!["--disable-write"]);
    let via_uvx = mcp_config(&s, false);
    assert_eq!(via_uvx.command, "uvx");
    assert_eq!(via_uvx.args, vec!["mcp-grafana", "--disable-write"]);
}

#[test]
fn words_follow_unicode_whitespace() {
    assert_eq!(split_whitespace("  a\u{3000}b\u{a0}c  d "), vec!["a", "b", "c", "d"]);
    assert!(split_whitespace(" \t\n").is_empty());
    assert!(has_word("x --disable-write y", "--disable-write"));
    assert!(!has_word("x --disable-write=1", "--disable-write"));
}

#[test]
fn hydrating_twice_is_hydrating_once() {
    let mut s = AppSettings::default();
    s.grafana_token = "glsa_token".into();
    s.ai_key = "sk-key".into();
    let (once, _, _) = hydrate_credentials(s);
    let ids_once: Vec<String> = once.alert_rules.iter().map(|r| r.id.clone()).collect();
    let (twice, token, key) = hydrate_credentials(once);
    assert!(token.is_none() && key.is_none());
    let ids_twice: Vec<String> = twice.alert_rules.iter().map(|r| r.id.clone()).collect();
    assert_eq!(ids_once, ids_twice);
    assert_eq!(ids_twice.last().map(|s| s.as_str()), Some("database"));
    assert_eq!(twice.grafana_token, "glsa_token");
}
