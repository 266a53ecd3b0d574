use grafana_watch_dog::ai::{chat_completions_endpoint, check_ai_config, check_evidence, check_question, interpret_reply};
use grafana_watch_dog::json::Json;

fn obj(members: Vec<(&str, Json)>) -> Json {
    Json::Object(members.into_iter().map(|(k, v)| (k.to_string(), v)).collect())
}

fn text(s: &str) -> Json {
    Json::Text(s.to_string())
}

#[test]
fn creates_compatible_endpoint() {
    assert_eq!(chat_completions_endpoint("https://api.openai.com/v1"), "https://api.openai.com/v1/chat/completions");
    assert_eq!(chat_completions_endpoint("https://api.deepseek.com"), "https://api.deepseek.com/v1/chat/completions");
}

#[test]
fn endpoint_drops_every_trailing_slash() {
    assert_eq!(chat_completions_endpoint("https://api.openai.com/v1///"), "https://api.openai.com/v1/chat/completions");
    assert_eq!(chat_completions_endpoint("http://host/"), "http://host/v1/chat/completions");
    assert_eq!(chat_completions_endpoint(""), "/v1/chat/completions");
}

#[test]
fn ai_config_needs_every_field() {
    assert!(check_ai_config("https://x", "key", "model").is_ok());
    assert_eq!(check_ai_config("  ", "key", "model").unwrap_err(), "请先完整配置 AI Base URL、模型和 API Key");
    assert!(check_ai_config("https://x", "\t", "model").is_err());
    assert!(check_ai_config("https://x", "key", "").is_err());
}

#[test]
fn reads_successful_reply() {
    let message = obj(vec![("role", text("assistant")), ("content", text("结论"))]);
    let payload = obj(vec![("choices", Json::Array(vec![obj(vec![("message", message)])]))]);
    assert_eq!(interpret_reply(200, &payload).unwrap(), "结论");
}

#[test]
fn reports_provider_error() {
    let payload = obj(vec![("error", obj(vec![("message", text("bad key"))]))]);
    assert_eq!(interpret_reply(401, &payload).unwrap_err(), "AI 服务返回 HTTP 401：bad key");
    assert_eq!(interpret_reply(500, &Json::Null).unwrap_err(), "AI 服务返回 HTTP 500：未知错误");
}

#[test]
fn reports_missing_content() {
    let payload = obj(vec![("choices", Json::Array(vec![]))]);
    assert_eq!(interpret_reply(200, &payload).unwrap_err(), "AI 响应缺少 choices[0].message.content");
    let keyed = obj(vec![("choices", obj(vec![("0", obj(vec![("message", obj(vec![("content", text("ok"))]))]))]))]);
    assert_eq!(interpret_reply(204, &keyed).unwrap(), "ok");
}

#[test]
fn question_and_evidence_are_required() {
    assert_eq!(check_question(" \n").unwrap_err(), "请输入需要分析的问题");
    assert!(check_question("为什么 CPU 高？").is_ok());
    assert_eq!(check_evidence(0).unwrap_err(), "暂无真实告警事件，无法进行有证据的异常分析");
    assert!(check_evidence(3).is_ok());
}
