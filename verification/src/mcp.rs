//! The Grafana MCP client's decisions: its configuration, how a JSON-RPC reply settles a
//! request, what a tool list and a tool result hold.
use vstd::prelude::*;
use vstd::string::*;
use crate::json::{embedded_text, find_embedded_text, spec_get, text_member, Json};
use crate::text::{decimal, int_text, is_blank, is_blank_text, i64_text, u64_text};

verus! {

/// How the official `mcp-grafana` server is started.
#[derive(Debug)]
pub struct GrafanaMcpConfig {
    pub command: String,
    pub args: Vec<String>,
    pub grafana_url: String,
    pub service_account_token: String,
}

/// A tool the server offers.
#[derive(Debug)]
pub struct ToolSummary {
    pub name: String,
    pub description: String,
}

pub struct ToolView {
    pub name: Seq<char>,
    pub description: Seq<char>,
}

impl View for ToolSummary {
    type V = ToolView;

    open spec fn view(&self) -> ToolView {
        ToolView { name: self.name@, description: self.description@ }
    }
}

pub open spec fn tools_view(v: Seq<ToolSummary>) -> Seq<ToolView> {
    v.map_values(|t: ToolSummary| t@)
}

/// A server cannot be started without a command.
pub fn check_command(config: &GrafanaMcpConfig) -> (r: Result<(), String>)
    ensures
        r is Ok <==> !is_blank_text(config.command@),
        r matches Err(e) ==> e@ == "MCP command must not be empty"@,
{
    if is_blank(config.command.as_str()) {
        Err(String::from_str("MCP command must not be empty"))
    } else {
        Ok(())
    }
}

/// A listed tool: an item with a string `name`, and its `description` or nothing.
pub open spec fn tool_of(item: Json) -> Option<ToolView> {
    match text_member(item, "name"@) {
        Some(n) => Some(
            ToolView {
                name: n,
                description: match text_member(item, "description"@) {
                    Some(d) => d,
                    None => ""@,
                },
            },
        ),
        None => None,
    }
}

pub open spec fn tools_of(items: Seq<Json>) -> Seq<ToolView>
    decreases items.len(),
{
    if items.len() == 0 {
        seq![]
    } else {
        tools_of(items.drop_last()) + match tool_of(items.last()) {
            Some(t) => seq![t],
            None => seq![],
        }
    }
}

/// The tools a `tools/list` result offers, in order, skipping items without a name.
pub open spec fn listed_tools(result: Json) -> Result<Seq<ToolView>, Seq<char>> {
    match spec_get(result, "tools"@) {
        Some(Json::Array(items)) => Ok(tools_of(items@)),
        _ => Err("MCP 响应缺少 tools"@),
    }
}

pub fn tools_from_result(result: &Json) -> (r: Result<Vec<ToolSummary>, String>)
    ensures
        match r {
            Ok(v) => listed_tools(*result) == Ok::<Seq<ToolView>, Seq<char>>(tools_view(v@)),
            Err(e) => listed_tools(*result) == Err::<Seq<ToolView>, Seq<char>>(e@),
        },
{
    match result.get("tools") {
        Some(Json::Array(items)) => {
            let mut tools: Vec<ToolSummary> = Vec::new();
            let mut i: usize = 0;
            while i < items.len()
                invariant
                    i <= items.len(),
                    tools_view(tools@) =~= tools_of(items@.take(i as int)),
                decreases items.len() - i,
            {
                assert(items@.take(i + 1).drop_last() =~= items@.take(i as int));
                assert(items@.take(i + 1).last() == items@[i as int]);
                let ghost before = tools@;
                match items[i].text_member("name") {
                    Some(name) => {
                        let description = match items[i].text_member("description") {
                            Some(d) => d.clone(),
                            None => String::from_str(""),
                        };
                        tools.push(ToolSummary { name: name.clone(), description });
                        assert(tools_view(tools@) =~= tools_view(before).push(
                            tool_of(items@[i as int]).unwrap(),
                        ));
                    },
                    None => {
                        assert(tools_view(tools@) =~= tools_view(before) + seq![]);
                    },
                }
                i = i + 1;
            }
            assert(items@.take(i as int) =~= items@);
            Ok(tools)
        },
        _ => Err(String::from_str("MCP 响应缺少 tools")),
    }
}

/// Whether a tool result says the call failed (`isError: true`).
pub open spec fn is_error_result(result: Json) -> bool {
    match spec_get(result, "isError"@) {
        Some(Json::Bool(b)) => b,
        _ => false,
    }
}

/// A tool result that reports failure becomes an error carrying its first text item, or a
/// generic message; any other result is kept.
pub fn check_tool_result(result: Json) -> (r: Result<Json, String>)
    ensures
        !is_error_result(result) ==> r == Ok::<Json, String>(result),
        is_error_result(result) ==> (r matches Err(e) && e@ == match embedded_text(result) {
            Some(t) => t,
            None => "MCP 工具返回错误"@,
        }),
{
    let failed = match result.get("isError") {
        Some(Json::Bool(b)) => *b,
        _ => false,
    };
    if failed {
        match find_embedded_text(&result) {
            Some(t) => Err(t),
            None => Err(String::from_str("MCP 工具返回错误")),
        }
    } else {
        Ok(result)
    }
}

/// How long a request waits for its reply.
pub const RESPONSE_TIMEOUT_SECS: u64 = 30;

/// The error member of a JSON-RPC reply.
#[derive(Debug)]
pub struct RpcError {
    pub code: i64,
    pub message: String,
}

/// A JSON-RPC reply from the server.
#[derive(Debug)]
pub struct RpcResponse {
    pub id: Option<u64>,
    pub result: Option<Json>,
    pub error: Option<RpcError>,
}

/// What waiting for a reply produced.
#[derive(Debug)]
pub enum Delivery {
    Reply(RpcResponse),
    /// Reading the server's output failed, or it ended.
    ReadFailed(String),
    TimedOut,
    Disconnected,
}

/// Where a pending request stands after a delivery.
#[derive(Debug)]
pub enum Awaiting {
    /// The reply belongs to another request; keep waiting.
    KeepWaiting,
    Settled(Result<Json, String>),
}

/// How a delivery settles request `id` of method `method`: a reply with another id is
/// skipped; an error reply, a read failure, a timeout or a lost channel settle it with an
/// error; a reply with a result settles it with that result.
pub open spec fn delivery_outcome(method: Seq<char>, id: u64, delivery: Delivery) -> Option<
    Result<Json, Seq<char>>,
> {
    match delivery {
        Delivery::Reply(r) => if r.id != Some(id) {
            None
        } else {
            match r.error {
                Some(e) => Some(
                    Err("MCP error "@ + int_text(e.code as int) + ": "@ + e.message@),
                ),
                None => match r.result {
                    Some(v) => Some(Ok(v)),
                    None => Some(Err("MCP 响应缺少 result"@)),
                },
            }
        },
        Delivery::ReadFailed(e) => Some(Err(e@)),
        Delivery::TimedOut => Some(
            Err(
                "MCP 请求 "@ + method + " 超过 "@ + decimal(RESPONSE_TIMEOUT_SECS as nat)
                    + " 秒未响应"@,
            ),
        ),
        Delivery::Disconnected => Some(Err("mcp-grafana 响应通道已断开"@)),
    }
}

pub open spec fn awaiting_matches(a: Awaiting, o: Option<Result<Json, Seq<char>>>) -> bool {
    match a {
        Awaiting::KeepWaiting => o is None,
        Awaiting::Settled(Ok(v)) => o == Some(Ok::<Json, Seq<char>>(v)),
        Awaiting::Settled(Err(e)) => o == Some(Err::<Json, Seq<char>>(e@)),
    }
}

pub fn on_delivery(method: &str, id: u64, delivery: Delivery) -> (r: Awaiting)
    ensures
        awaiting_matches(r, delivery_outcome(method@, id, delivery)),
{
    match delivery {
        Delivery::Reply(reply) => {
            let same = match reply.id {
                Some(got) => got == id,
                None => false,
            };
            if !same {
                return Awaiting::KeepWaiting;
            }
            match reply.error {
                Some(e) => {
                    let text = String::from_str("MCP error ").concat(i64_text(e.code).as_str()).concat(
                        ": ",
                    ).concat(e.message.as_str());
                    Awaiting::Settled(Err(text))
                },
                None => match reply.result {
                    Some(v) => Awaiting::Settled(Ok(v)),
                    None => Awaiting::Settled(Err(String::from_str("MCP 响应缺少 result"))),
                },
            }
        },
        Delivery::ReadFailed(e) => Awaiting::Settled(Err(e)),
        Delivery::TimedOut => {
            let text = String::from_str("MCP 请求 ").concat(method).concat(" 超过 ").concat(
                u64_text(RESPONSE_TIMEOUT_SECS).as_str(),
            ).concat(" 秒未响应");
            Awaiting::Settled(Err(text))
        },
        Delivery::Disconnected => Awaiting::Settled(
            Err(String::from_str("mcp-grafana 响应通道已断开")),
        ),
    }
}

/// A reply to another request never settles this one, and a reply to this one always does.
pub proof fn law_only_own_reply_settles(method: Seq<char>, id: u64, reply: RpcResponse)
    ensures
        reply.id != Some(id) ==> delivery_outcome(method, id, Delivery::Reply(reply)) is None,
        reply.id == Some(id) ==> delivery_outcome(method, id, Delivery::Reply(reply)) is Some,
{
}

} // verus!
