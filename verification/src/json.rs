//! A JSON document model and the lookups the assistant performs on it.
use vstd::prelude::*;

verus! {

/// A JSON value. Numbers keep their literal text; object members keep
/// their order, and a lookup by key finds the first member with that key.
#[derive(Debug)]
pub enum Json {
    Null,
    Bool(bool),
    Number(String),
    Text(String),
    Array(Vec<Json>),
    Object(Vec<(String, Json)>),
}

/// The value of the first member named `key`, if the value is an object.
pub open spec fn member(entries: Seq<(String, Json)>, key: Seq<char>) -> Option<Json>
    decreases entries.len(),
{
    if entries.len() == 0 {
        None
    } else if entries[0].0@ == key {
        Some(entries[0].1)
    } else {
        member(entries.drop_first(), key)
    }
}

pub open spec fn spec_get(v: Json, key: Seq<char>) -> Option<Json> {
    match v {
        Json::Object(entries) => member(entries@, key),
        _ => None,
    }
}

/// The text of a string value.
pub open spec fn text_of(v: Option<Json>) -> Option<Seq<char>> {
    match v {
        Some(Json::Text(t)) => Some(t@),
        _ => None,
    }
}

/// The member `key` of `v`, when `v` is an object and that member is a string.
pub open spec fn text_member(v: Json, key: Seq<char>) -> Option<Seq<char>> {
    text_of(spec_get(v, key))
}

/// The first item, in order, whose `"text"` member is a string; that string.
pub open spec fn first_text(items: Seq<Json>) -> Option<Seq<char>>
    decreases items.len(),
{
    if items.len() == 0 {
        None
    } else {
        match text_member(items[0], "text"@) {
            Some(t) => Some(t),
            None => first_text(items.drop_first()),
        }
    }
}

/// The text an MCP tool result carries in `content[].text`, if any.
pub open spec fn embedded_text(v: Json) -> Option<Seq<char>> {
    match spec_get(v, "content"@) {
        Some(Json::Array(items)) => first_text(items@),
        _ => None,
    }
}

/// The document an MCP tool result stands for: its embedded text decoded as JSON
/// (`decoded`), or the result itself when there is no embedded text or it does not decode.
pub open spec fn payload_of(result: Json, decoded: Option<Json>) -> Json {
    if embedded_text(result) is Some && decoded is Some {
        decoded.unwrap()
    } else {
        result
    }
}

impl Json {
    /// `self[key]` for an object; `None` for any other value or a missing key.
    pub fn get(&self, key: &str) -> (r: Option<&Json>)
        ensures
            r matches Some(x) ==> spec_get(*self, key@) == Some(*x),
            r is None ==> spec_get(*self, key@) is None,
    {
        match self {
            Json::Object(entries) => {
                let mut i: usize = 0;
                assert(entries@.skip(0) =~= entries@);
                while i < entries.len()
                    invariant
                        i <= entries.len(),
                        *self == Json::Object(*entries),
                        member(entries@, key@) == member(entries@.skip(i as int), key@),
                    decreases entries.len() - i,
                {
                    assert(entries@.skip(i as int).drop_first() =~= entries@.skip(i + 1));
                    assert(entries@.skip(i as int)[0] == entries@[i as int]);
                    if entries[i].0 == key.to_owned() {
                        return Some(&entries[i].1);
                    }
                    i = i + 1;
                }
                None
            },
            _ => None,
        }
    }

    pub fn as_text(&self) -> (r: Option<&String>)
        ensures
            r matches Some(t) ==> text_of(Some(*self)) == Some(t@),
            r is None ==> text_of(Some(*self)) is None,
    {
        match self {
            Json::Text(t) => Some(t),
            _ => None,
        }
    }

    /// The member `key`, when it is a string.
    pub fn text_member(&self, key: &str) -> (r: Option<&String>)
        ensures
            r matches Some(t) ==> text_member(*self, key@) == Some(t@),
            r is None ==> text_member(*self, key@) is None,
    {
        match self.get(key) {
            Some(v) => v.as_text(),
            None => None,
        }
    }
}

/// The text of the first item whose `"text"` member is a string.
pub fn find_first_text(items: &Vec<Json>) -> (r: Option<String>)
    ensures
        r matches Some(t) ==> first_text(items@) == Some(t@),
        r is None ==> first_text(items@) is None,
{
    let mut i: usize = 0;
    assert(items@.skip(0) =~= items@);
    while i < items.len()
        invariant
            i <= items.len(),
            first_text(items@) == first_text(items@.skip(i as int)),
        decreases items.len() - i,
    {
        assert(items@.skip(i as int).drop_first() =~= items@.skip(i + 1));
        assert(items@.skip(i as int)[0] == items@[i as int]);
        match items[i].text_member("text") {
            Some(t) => {
                return Some(t.clone());
            },
            None => {},
        }
        i = i + 1;
    }
    None
}

/// `content[].text` of an MCP tool result: the first text item.
pub fn find_embedded_text(v: &Json) -> (r: Option<String>)
    ensures
        r matches Some(t) ==> embedded_text(*v) == Some(t@),
        r is None ==> embedded_text(*v) is None,
{
    match v.get("content") {
        Some(Json::Array(items)) => find_first_text(items),
        _ => None,
    }
}

/// The document an MCP tool result stands for. `decoded` is the embedded text
/// decoded as JSON, `None` when it is absent or does not decode.
pub fn mcp_payload(result: Json, decoded: Option<Json>) -> (r: Json)
    ensures
        r == payload_of(result, decoded),
{
    let has_text = find_embedded_text(&result).is_some();
    match decoded {
        Some(d) => {
            if has_text {
                d
            } else {
                result
            }
        },
        None => result,
    }
}

} // verus!
