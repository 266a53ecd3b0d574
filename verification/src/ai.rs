//! The OpenAI-compatible analysis request: its endpoint, what it needs, and how a reply
//! is read.
use vstd::prelude::*;
use vstd::string::*;
use crate::json::{member, spec_get, text_of, Json};
use crate::text::{decimal, ends_with, has_suffix, is_blank, is_blank_text, strip_trailing, trim_end_char, u64_text};

verus! {

/// The chat-completions endpoint under a provider's base URL: trailing slashes are dropped,
/// and `/v1` is inserted unless the base already ends in it.
pub open spec fn endpoint_for(base_url: Seq<char>) -> Seq<char> {
    let base = strip_trailing(base_url, '/');
    if has_suffix(base, "/v1"@) {
        base + "/chat/completions"@
    } else {
        base + "/v1/chat/completions"@
    }
}

pub fn chat_completions_endpoint(base_url: &str) -> (r: String)
    ensures
        r@ == endpoint_for(base_url@),
{
    let base = trim_end_char(base_url, '/');
    if ends_with(base.as_str(), "/v1") {
        base.concat("/chat/completions")
    } else {
        base.concat("/v1/chat/completions")
    }
}

/// An analysis needs a base URL, a model and an API key, none of them blank.
pub fn check_ai_config(base_url: &str, api_key: &str, model: &str) -> (r: Result<(), String>)
    ensures
        r is Ok <==> !is_blank_text(base_url@) && !is_blank_text(model@) && !is_blank_text(
            api_key@,
        ),
        r matches Err(e) ==> e@ == "请先完整配置 AI Base URL、模型和 API Key"@,
{
    if is_blank(base_url) || is_blank(model) || is_blank(api_key) {
        Err(String::from_str("请先完整配置 AI Base URL、模型和 API Key"))
    } else {
        Ok(())
    }
}

/// One step of a JSON pointer by an object key.
pub open spec fn at_key(v: Option<Json>, key: Seq<char>) -> Option<Json> {
    match v {
        Some(x) => spec_get(x, key),
        None => None,
    }
}

/// The pointer step `0`: the member `"0"` of an object, the first item of an array.
pub open spec fn at_zero(v: Option<Json>) -> Option<Json> {
    match v {
        Some(Json::Object(entries)) => member(entries@, "0"@),
        Some(Json::Array(items)) => if items@.len() > 0 {
            Some(items@[0])
        } else {
            None
        },
        _ => None,
    }
}

/// `/error/message` of a reply, when it is a string.
pub open spec fn error_message(payload: Json) -> Option<Seq<char>> {
    text_of(at_key(at_key(Some(payload), "error"@), "message"@))
}

/// `/choices/0/message/content` of a reply, when it is a string.
pub open spec fn reply_content(payload: Json) -> Option<Seq<char>> {
    text_of(at_key(at_key(at_zero(at_key(Some(payload), "choices"@)), "message"@), "content"@))
}

pub open spec fn is_success_status(status: u16) -> bool {
    200 <= status <= 299
}

/// What a reply with HTTP status `status` and JSON body `payload` amounts to: the answer
/// on success, the provider's error otherwise.
pub open spec fn reply_outcome(status: u16, payload: Json) -> Result<Seq<char>, Seq<char>> {
    if !is_success_status(status) {
        Err(
            "AI 服务返回 HTTP "@ + decimal(status as nat) + "："@ + match error_message(payload) {
                Some(m) => m,
                None => "未知错误"@,
            },
        )
    } else {
        match reply_content(payload) {
            Some(c) => Ok(c),
            None => Err("AI 响应缺少 choices[0].message.content"@),
        }
    }
}

pub open spec fn deref_opt(v: Option<&Json>) -> Option<Json> {
    match v {
        Some(x) => Some(*x),
        None => None,
    }
}

fn step_key<'a>(v: Option<&'a Json>, key: &str) -> (r: Option<&'a Json>)
    ensures
        r matches Some(x) ==> at_key(deref_opt(v), key@) == Some(*x),
        r is None ==> at_key(deref_opt(v), key@) is None,
{
    match v {
        Some(x) => x.get(key),
        None => None,
    }
}

fn step_zero<'a>(v: Option<&'a Json>) -> (r: Option<&'a Json>)
    ensures
        r matches Some(x) ==> at_zero(deref_opt(v)) == Some(*x),
        r is None ==> at_zero(deref_opt(v)) is None,
{
    match v {
        Some(Json::Object(_)) => v.unwrap().get("0"),
        Some(Json::Array(items)) => {
            if items.len() > 0 {
                Some(&items[0])
            } else {
                None
            }
        },
        _ => None,
    }
}

fn text_at(v: Option<&Json>) -> (r: Option<String>)
    ensures
        r matches Some(t) ==> text_of(deref_opt(v)) == Some(t@),
        r is None ==> text_of(deref_opt(v)) is None,
{
    match v {
        Some(Json::Text(t)) => Some(t.clone()),
        _ => None,
    }
}

/// Reads the reply of an analysis request.
pub fn interpret_reply(status: u16, payload: &Json) -> (r: Result<String, String>)
    ensures
        match r {
            Ok(a) => reply_outcome(status, *payload) == Ok::<Seq<char>, Seq<char>>(a@),
            Err(e) => reply_outcome(status, *payload) == Err::<Seq<char>, Seq<char>>(e@),
        },
{
    let root: Option<&Json> = Some(payload);
    if !(200 <= status && status <= 299) {
        let message = match text_at(step_key(step_key(root, "error"), "message")) {
            Some(m) => m,
            None => String::from_str("未知错误"),
        };
        let code = u64_text(status as u64);
        Err(String::from_str("AI 服务返回 HTTP ").concat(code.as_str()).concat("：").concat(
            message.as_str(),
        ))
    } else {
        match text_at(step_key(step_key(step_zero(step_key(root, "choices")), "message"), "content")) {
            Some(c) => Ok(c),
            None => Err(String::from_str("AI 响应缺少 choices[0].message.content")),
        }
    }
}

/// A question to analyse must not be blank.
pub fn check_question(question: &str) -> (r: Result<(), String>)
    ensures
        r is Ok <==> !is_blank_text(question@),
        r matches Err(e) ==> e@ == "请输入需要分析的问题"@,
{
    if is_blank(question) {
        Err(String::from_str("请输入需要分析的问题"))
    } else {
        Ok(())
    }
}

/// An analysis needs at least one recorded alert event as evidence.
pub fn check_evidence(events: usize) -> (r: Result<(), String>)
    ensures
        r is Ok <==> events > 0,
        r matches Err(e) ==> e@ == "暂无真实告警事件，无法进行有证据的异常分析"@,
{
    if events == 0 {
        Err(String::from_str("暂无真实告警事件，无法进行有证据的异常分析"))
    } else {
        Ok(())
    }
}

/// The endpoint always ends in `/v1/chat/completions`, and a trailing slash on the base
/// URL makes no difference.
pub proof fn law_endpoint_shape(base_url: Seq<char>)
    ensures
        has_suffix(endpoint_for(base_url), "/v1/chat/completions"@),
        endpoint_for(base_url.push('/')) == endpoint_for(base_url),
{
    reveal_strlit("/v1");
    reveal_strlit("/chat/completions");
    reveal_strlit("/v1/chat/completions");
    let base = strip_trailing(base_url, '/');
    assert(base_url.push('/').drop_last() =~= base_url);
    let full = "/v1/chat/completions"@;
    if has_suffix(base, "/v1"@) {
        let e = base + "/chat/completions"@;
        assert(e.skip(e.len() - full.len()) =~= full) by {
            assert(base.skip(base.len() - 3) == "/v1"@);
            assert forall|i: int| 0 <= i < full.len() implies e.skip(e.len() - full.len())[i] == full[i] by {
                if i < 3 {
                    assert(e[e.len() - full.len() + i] == base[base.len() - 3 + i]);
                    assert(base.skip(base.len() - 3)[i] == base[base.len() - 3 + i]);
                }
            }
        }
    } else {
        let e = base + full;
        assert(e.skip(e.len() - full.len()) =~= full);
    }
}

} // verus!
