use grafana_watch_dog::installer::{install_next, install_start, InstallAction, InstallEvent, InstallStage};
use grafana_watch_dog::json::Json;
use grafana_watch_dog::mcp::{check_command, check_tool_result, on_delivery, tools_from_result, Awaiting, Delivery, GrafanaMcpConfig, RpcError, RpcResponse};
use grafana_watch_dog::retry::{after_failure, ai_retry_plan, mcp_retry_plan, RetryStep};

fn obj(members: Vec<(&str, Json)>) -> Json {
    Json::Object(members.into_iter().map(|(k, v)| (k.to_string(), v)).collect())
}

fn text(s: &str) -> Json {
    Json::Text(s.to_string())
}

#[test]
fn lists_named_tools() {
    let result = obj(vec![("tools", Json::Array(vec![
        obj(vec![("name", text("list_datasources")), ("description", text("List"))]),
        obj(vec![("description", text("nameless"))]),
        obj(vec![("name", text("query_prometheus"))]),
    ]))]);
    let tools = tools_from_result(&result).unwrap();
    assert_eq!(tools.len(), 2);
    assert_eq!(tools[0].name, "list_datasources");
    assert_eq!(tools[0].description, "List");
    assert_eq!(tools[1].name, "query_prometheus");
    assert_eq!(tools[1].description, "");
    assert_eq!(tools_from_result(&obj(vec![])).unwrap_err(), "MCP 响应缺少 tools");
}

#[test]
fn tool_errors_carry_their_text() {
    let failed = obj(vec![("isError", Json::Bool(true)), ("content", Json::Array(vec![obj(vec![("text", text("datasource not found"))])]))]);
    assert_eq!(check_tool_result(failed).unwrap_err(), "datasource not found");
    let bare = obj(vec![("isError", Json::Bool(true))]);
    assert_eq!(check_tool_result(bare).unwrap_err(), "MCP 工具返回错误");
    let fine = obj(vec![("isError", Json::Bool(false))]);
    assert!(check_tool_result(fine).is_ok());
}

#[test]
fn replies_settle_their_own_request() {
    let other = RpcResponse { id: Some(2), result: Some(Json::Null), error: None };
    assert!(matches!(on_delivery("tools/list", 1, Delivery::Reply(other)), Awaiting::KeepWaiting));
    let mine = RpcResponse { id: Some(1), result: Some(Json::Bool(true)), error: None };
    assert!(matches!(on_delivery("tools/list", 1, Delivery::Reply(mine)), Awaiting::Settled(Ok(Json::Bool(true)))));
    let failed = RpcResponse { id: Some(1), result: None, error: Some(RpcError { code: -32601, message: "no such method".into() }) };
    match on_delivery("tools/list", 1, Delivery::Reply(failed)) {
        Awaiting::Settled(Err(e)) => assert_eq!(e, "MCP error -32601: no such method"),
        _ => panic!("expected an error"),
    }
    let empty = RpcResponse { id: Some(1), result: None, error: None };
    match on_delivery("tools/list", 1, Delivery::Reply(empty)) {
        Awaiting::Settled(Err(e)) => assert_eq!(e, "MCP 响应缺少 result"),
        _ => panic!("expected an error"),
    }
    match on_delivery("tools/call", 4, Delivery::TimedOut) {
        Awaiting::Settled(Err(e)) => assert_eq!(e, "MCP 请求 tools/call 超过 30 秒未响应"),
        _ => panic!("expected an error"),
    }
    match on_delivery("x", 4, Delivery::Disconnected) {
        Awaiting::Settled(Err(e)) => assert_eq!(e, "mcp-grafana 响应通道已断开"),
        _ => panic!("expected an error"),
    }
    match on_delivery("x", 4, Delivery::ReadFailed("boom".into())) {
        Awaiting::Settled(Err(e)) => assert_eq!(e, "boom"),
        _ => panic!("expected an error"),
    }
}

#[test]
fn command_must_not_be_blank() {
    let config = GrafanaMcpConfig { command: " ".into(), args: vec![], grafana_url: String::new(), service_account_token: String::new() };
    assert_eq!(check_command(&config).unwrap_err(), "MCP command must not be empty");
    let config = GrafanaMcpConfig { command: "mcp-grafana".into(), ..config };
    assert!(check_command(&config).is_ok());
}

#[test]
fn install_prefers_existing_binary() {
    let (stage, action) = install_start();
    assert_eq!(stage, InstallStage::CheckExisting);
    assert!(matches!(action, InstallAction::Probe { ref program, ref args } if program == "mcp-grafana" && args == &vec!["--help".to_string()]));
    let (stage, action) = install_next(stage, InstallEvent::Probed(true));
    assert_eq!(stage, InstallStage::Done);
    match action {
        InstallAction::Finish(Ok(r)) => {
            assert_eq!(r.command, "mcp-grafana");
            assert_eq!(r.method, "existing");
            assert!(r.args_prefix.is_empty());
        }
        _ => panic!("expected a result"),
    }
}

#[test]
fn install_falls_back_to_uvx_then_go() {
    let (stage, _) = install_start();
    let (stage, action) = install_next(stage, InstallEvent::Probed(false));
    assert!(matches!(action, InstallAction::Probe { ref program, ref args } if program == "uvx" && args == &vec!["mcp-grafana".to_string(), "--help".to_string()]));
    let (stage_uvx, action) = install_next(stage, InstallEvent::Probed(true));
    assert_eq!(stage_uvx, InstallStage::Done);
    match action {
        InstallAction::Finish(Ok(r)) => {
            assert_eq!(r.command, "uvx");
            assert_eq!(r.args_prefix, vec!["mcp-grafana".to_string()]);
            assert_eq!(r.message, "已通过官方 uvx 方式准备 mcp-grafana");
        }
        _ => panic!("expected a result"),
    }
    let (stage, action) = install_next(stage, InstallEvent::Probed(false));
    assert!(matches!(action, InstallAction::Probe { ref program, .. } if program == "go"));
    let (no_go, action) = install_next(stage, InstallEvent::Probed(false));
    assert_eq!(no_go, InstallStage::Done);
    assert!(matches!(action, InstallAction::Finish(Err(ref e)) if e == "未找到 uvx 或 Go。请先安装 uv（推荐）或 Go，然后再次点击安装。"));
    let (stage, action) = install_next(stage, InstallEvent::Probed(true));
    assert!(matches!(action, InstallAction::RunGoInstall));
    let (_, failed) = install_next(stage, InstallEvent::Installed { succeeded: false, stderr: "  network down\n".into() });
    assert!(matches!(failed, InstallAction::Finish(Err(ref e)) if e == "安装 mcp-grafana 失败：network down"));
    let (_, failed) = install_next(stage, InstallEvent::DirectoryFailed("denied".into()));
    assert!(matches!(failed, InstallAction::Finish(Err(ref e)) if e == "无法创建工具目录：denied"));
    let (_, failed) = install_next(stage, InstallEvent::LaunchFailed("no go".into()));
    assert!(matches!(failed, InstallAction::Finish(Err(ref e)) if e == "无法启动 go install：no go"));
    let (stage, action) = install_next(stage, InstallEvent::Installed { succeeded: true, stderr: String::new() });
    assert!(matches!(action, InstallAction::LocateBinary));
    let (_, missing) = install_next(stage, InstallEvent::Located { exists: false, path: String::new() });
    assert!(matches!(missing, InstallAction::Finish(Err(ref e)) if e == "go install 已完成，但没有找到 mcp-grafana 二进制文件"));
    let (_, found) = install_next(stage, InstallEvent::Located { exists: true, path: "/tools/mcp-grafana".into() });
    assert!(matches!(found, InstallAction::Finish(Ok(ref r)) if r.command == "/tools/mcp-grafana" && r.method == "go"));
}

#[test]
fn retries_back_off_and_give_up() {
    let plan = mcp_retry_plan(9);
    assert_eq!(plan.attempts, 5);
    assert_eq!(mcp_retry_plan(0).attempts, 1);
    assert_eq!(ai_retry_plan(9).attempts, 3);
    assert_eq!(ai_retry_plan(9).base_delay_ms, 500);
    let waits: Vec<u64> = (1..5).map(|n| match after_failure(&plan, n, "x") {
        RetryStep::Wait(ms) => ms,
        RetryStep::GiveUp(_) => panic!("gave up early"),
    }).collect();
    assert_eq!(waits, vec![300, 600, 1200, 2400]);
    match after_failure(&plan, 5, "spawn failed") {
        RetryStep::GiveUp(m) => assert_eq!(m, "第 5/5 次：spawn failed"),
        RetryStep::Wait(_) => panic!("should give up"),
    }
}
