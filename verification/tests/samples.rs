use grafana_watch_dog::json::{find_embedded_text, mcp_payload, Json};
use grafana_watch_dog::samples::{collect_samples, extract_metric_samples, json_number, MetricSample};

fn to_json(v: &serde_json::Value) -> Json {
    match v {
        serde_json::Value::Null => Json::Null,
        serde_json::Value::Bool(b) => Json::Bool(*b),
        serde_json::Value::Number(n) => Json::Number(n.to_string()),
        serde_json::Value::String(s) => Json::Text(s.clone()),
        serde_json::Value::Array(items) => Json::Array(items.iter().map(to_json).collect()),
        serde_json::Value::Object(map) => Json::Object(map.iter().map(|(k, v)| (k.clone(), to_json(v))).collect()),
    }
}

fn parse(text: &str) -> Json {
    to_json(&serde_json::from_str::<serde_json::Value>(text).unwrap())
}

fn decoded(result: &Json) -> Option<Json> {
    find_embedded_text(result)
        .and_then(|t| serde_json::from_str::<serde_json::Value>(&t).ok())
        .map(|v| to_json(&v))
}

fn values_as_numbers(values: Vec<String>) -> Vec<f64> {
    values.iter().map(|v| v.parse::<f64>().unwrap()).collect()
}

fn largest(samples: Vec<MetricSample>) -> Vec<f64> {
    samples.iter().map(|s| s.value.parse::<f64>().unwrap()).reduce(f64::max).into_iter().collect()
}

#[test]
fn extracts_wrapped_prometheus_values() {
    let result = parse(r#"{"content":[{"type":"text","text":"{\"data\":{\"result\":[{\"value\":[1,\"91.5\"]}]}}"}]}"#);
    let inner = decoded(&result);
    assert_eq!(largest(extract_metric_samples(result, inner).unwrap()), vec![91.5]);
}

#[test]
fn reads_labels_and_defaults() {
    let result = parse(r#"{"data":{"result":[
        {"metric":{"instance":"db1:9100","job":"node"},"value":[1,"3"]},
        {"metric":{"job":7},"value":[1,2.5]},
        {"value":[1,"NaN"]}
    ]}}"#);
    let samples = extract_metric_samples(result, None).unwrap();
    assert_eq!(samples.len(), 3);
    assert_eq!(samples[0].value, "3");
    assert_eq!(samples[0].instance, "db1:9100");
    assert_eq!(samples[0].job, "node");
    assert_eq!(samples[1].value, "2.5");
    assert_eq!(samples[1].instance, "未知实例");
    assert_eq!(samples[1].job, "");
    assert_eq!(samples[2].value, "NaN");
}

#[test]
fn non_numeric_value_is_searched_further() {
    let result = parse(r#"{"value":[1,"n/a"],"inner":{"value":[2,"+Inf"]}}"#);
    let values: Vec<String> = extract_metric_samples(result, None).unwrap().into_iter().map(|s| s.value).collect();
    assert_eq!(values, vec!["+Inf".to_string()]);
    assert!(values_as_numbers(values)[0].is_infinite());
}

#[test]
fn reports_missing_samples() {
    let result = parse(r#"{"content":[{"type":"text","text":"no data"}]}"#);
    let inner = decoded(&result);
    assert!(inner.is_none());
    assert_eq!(extract_metric_samples(result, inner).unwrap_err(), "MCP 查询结果中没有数值样本");
}

#[test]
fn payload_falls_back_to_result() {
    let result = parse(r#"{"rows":[1]}"#);
    let same = mcp_payload(parse(r#"{"rows":[1]}"#), Some(Json::Null));
    assert!(matches!(same, Json::Object(_)));
    let wrapped = parse(r#"{"content":[{"type":"image"},{"text":"[1,2]"}]}"#);
    assert_eq!(find_embedded_text(&wrapped).unwrap(), "[1,2]");
    let inner = decoded(&wrapped);
    assert!(matches!(mcp_payload(wrapped, inner), Json::Array(ref items) if items.len() == 2));
    assert!(find_embedded_text(&result).is_none());
}

#[test]
fn number_literals_follow_float_parsing() {
    for ok in ["1", "-2.5", ".5", "5.", "1e10", "1E-3", "+inf", "Infinity", "nan", "NaN"] {
        assert!(json_number(&Json::Text(ok.to_string())).is_some(), "{ok}");
        assert!(ok.parse::<f64>().is_ok(), "{ok}");
    }
    for bad in ["", ".", "e5", "1e", "1.2.3", " 1", "inf1", "--1", "0x10", "1_000"] {
        assert!(json_number(&Json::Text(bad.to_string())).is_none(), "{bad}");
        assert!(bad.parse::<f64>().is_err(), "{bad}");
    }
    assert_eq!(json_number(&Json::Number("12".into())).unwrap(), "12");
    assert!(json_number(&Json::Bool(true)).is_none());
}

#[test]
fn collects_range_series_too() {
    let result = parse(r#"{"data":{"result":[{"values":[[1,"1"],[2,"x"],[3,"3"]],"value":[0,"9"]}]}}"#);
    let mut out = Vec::new();
    collect_samples(&result, &mut out);
    assert_eq!(out, vec!["9".to_string(), "1".to_string(), "3".to_string()]);
}

#[test]
fn wrapped_and_direct_results_agree() {
    let direct = parse(r#"{"data":{"result":[{"metric":{"instance":"a"},"value":[1,"2"]},{"metric":{"instance":"b"},"value":[1,"7.5"]}]}}"#);
    let wrapped = parse(r#"{"content":[{"type":"text","text":"{\"data\":{\"result\":[{\"metric\":{\"instance\":\"a\"},\"value\":[1,\"2\"]},{\"metric\":{\"instance\":\"b\"},\"value\":[1,\"7.5\"]}]}}"}]}"#);
    let inner = decoded(&wrapped);
    let a = extract_metric_samples(wrapped, inner).unwrap();
    let b = extract_metric_samples(direct, None).unwrap();
    let shape = |v: &Vec<MetricSample>| v.iter().map(|s| (s.value.clone(), s.instance.clone())).collect::<Vec<_>>();
    assert_eq!(shape(&a), shape(&b));
    assert_eq!(largest(a), vec![7.5]);
}
