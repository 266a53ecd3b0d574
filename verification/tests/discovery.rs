use grafana_watch_dog::discovery::{discovery_from, prometheus_uids};
use grafana_watch_dog::json::Json;

fn to_json(v: &serde_json::Value) -> Json {
    match v {
        serde_json::Value::Null => Json::Null,
        serde_json::Value::Bool(b) => Json::Bool(*b),
        serde_json::Value::Number(n) => Json::Number(n.to_string()),
        serde_json::Value::String(s) => Json::Text(s.clone()),
        serde_json::Value::Array(items) => Json::Array(items.iter().map(to_json).collect()),
        serde_json::Value::Object(map) => Json::Object(map.iter().map(|(k, v)| (k.clone(), to_json(v))).collect()),
    }
}

fn parse(text: &str) -> Json {
    to_json(&serde_json::from_str::<serde_json::Value>(text).unwrap())
}

#[test]
fn discovers_distinct_datasources_and_dashboards() {
    let datasources = parse(r#"[
        {"uid":"prom","name":"Prometheus","type":"prometheus"},
        {"uid":"prom","name":"Duplicate","type":"prometheus"},
        {"uid":"loki","name":"Loki","kind":"loki"},
        {"uid":"odd","name":"Odd","type":3,"kind":"x"},
        {"name":"no uid"}
    ]"#);
    let dashboards = parse(r#"{"hits":[
        {"uid":"d1","title":"Nodes","type":"dash-db"},
        {"uid":"f1","title":"Folder","type":"dash-folder"},
        {"uid":"d2","title":"Plain"},
        {"uid":"d1","title":"Again","type":"dashboard"}
    ]}"#);
    let found = discovery_from(&datasources, &dashboards);
    let ds: Vec<(&str, &str, &str)> = found.datasources.iter().map(|d| (d.uid.as_str(), d.name.as_str(), d.kind.as_str())).collect();
    assert_eq!(ds, vec![("prom", "Prometheus", "prometheus"), ("loki", "Loki", "loki"), ("odd", "Odd", "unknown")]);
    let db: Vec<(&str, &str)> = found.dashboards.iter().map(|d| (d.uid.as_str(), d.title.as_str())).collect();
    assert_eq!(db, vec![("d1", "Nodes"), ("d2", "Plain")]);
}

#[test]
fn monitors_selected_prometheus_sources() {
    let datasources = parse(r#"[
        {"uid":"a","name":"A","type":"Prometheus"},
        {"uid":"b","name":"B","type":"loki"},
        {"uid":"c","name":"C","type":"grafana-amazonprometheus-datasource"},
        {"uid":"d","name":"D","type":"prometheus"}
    ]"#);
    let found = discovery_from(&datasources, &Json::Null);
    let selected = vec!["c".to_string(), "b".to_string(), "a".to_string()];
    assert_eq!(prometheus_uids(&found.datasources, &selected), vec!["a", "c"]);
}
