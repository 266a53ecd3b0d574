//! Reading Prometheus samples out of MCP query results.
use vstd::prelude::*;
use vstd::string::*;
use crate::json::{embedded_text, mcp_payload, member, payload_of, spec_get, text_of, Json};
use crate::text::{is_float_literal, is_float_text, texts_view};

verus! {

/// One labelled sample. `value` is the sample's numeric literal as the query returned it
/// (a JSON number, or a string that `f64` parsing accepts).
#[derive(Debug)]
pub struct MetricSample {
    pub value: String,
    pub instance: String,
    pub job: String,
}

pub struct SampleView {
    pub value: Seq<char>,
    pub instance: Seq<char>,
    pub job: Seq<char>,
}

impl View for MetricSample {
    type V = SampleView;

    open spec fn view(&self) -> SampleView {
        SampleView { value: self.value@, instance: self.instance@, job: self.job@ }
    }
}

pub open spec fn samples_view(v: Seq<MetricSample>) -> Seq<SampleView> {
    v.map_values(|s: MetricSample| s@)
}

/// A JSON number's literal, or a string that parses as `f64`.
pub open spec fn number_text(v: Json) -> Option<Seq<char>> {
    match v {
        Json::Number(t) => Some(t@),
        Json::Text(t) => if is_float_literal(t@) {
            Some(t@)
        } else {
            None
        },
        _ => None,
    }
}

/// `value[1]` of a Prometheus vector entry, when it is numeric.
pub open spec fn sample_value(v: Json) -> Option<Seq<char>> {
    match spec_get(v, "value"@) {
        Some(Json::Array(pair)) => if pair@.len() > 1 {
            number_text(pair@[1])
        } else {
            None
        },
        _ => None,
    }
}

/// The label `key` in the `metric` object, when it is a string.
pub open spec fn metric_label(v: Json, key: Seq<char>) -> Option<Seq<char>> {
    match spec_get(v, "metric"@) {
        Some(Json::Object(labels)) => text_of(member(labels@, key)),
        _ => None,
    }
}

pub open spec fn label_or(v: Json, key: Seq<char>, fallback: Seq<char>) -> Seq<char> {
    match metric_label(v, key) {
        Some(t) => t,
        None => fallback,
    }
}

/// Every labelled sample in `v`, depth first, members in their order. An object that
/// is itself a sample is not searched further.
pub open spec fn labeled_samples(v: Json) -> Seq<SampleView>
    decreases v,
{
    match v {
        Json::Object(entries) => match sample_value(v) {
            Some(n) => seq![
                SampleView {
                    value: n,
                    instance: label_or(v, "instance"@, "未知实例"@),
                    job: label_or(v, "job"@, ""@),
                },
            ],
            None => labeled_in_entries(entries@),
        },
        Json::Array(items) => labeled_in_items(items@),
        _ => seq![],
    }
}

pub open spec fn labeled_in_items(items: Seq<Json>) -> Seq<SampleView>
    decreases items,
{
    if items.len() == 0 {
        seq![]
    } else {
        labeled_in_items(items.drop_last()) + labeled_samples(items.last())
    }
}

pub open spec fn labeled_in_entries(entries: Seq<(String, Json)>) -> Seq<SampleView>
    decreases entries,
{
    if entries.len() == 0 {
        seq![]
    } else {
        labeled_in_entries(entries.drop_last()) + labeled_samples(entries.last().1)
    }
}

/// The numeric literal of `v`: a JSON number, or a string `f64` parsing accepts.
pub fn json_number(v: &Json) -> (r: Option<String>)
    ensures
        r matches Some(t) ==> number_text(*v) == Some(t@),
        r is None ==> number_text(*v) is None,
{
    match v {
        Json::Number(t) => Some(t.clone()),
        Json::Text(t) => {
            if is_float_text(t.as_str()) {
                Some(t.clone())
            } else {
                None
            }
        },
        _ => None,
    }
}

fn value_of_sample(v: &Json) -> (r: Option<String>)
    ensures
        r matches Some(t) ==> sample_value(*v) == Some(t@),
        r is None ==> sample_value(*v) is None,
{
    match v.get("value") {
        Some(Json::Array(pair)) => {
            if pair.len() > 1 {
                json_number(&pair[1])
            } else {
                None
            }
        },
        _ => None,
    }
}

fn label_of(v: &Json, key: &str, fallback: &str) -> (r: String)
    ensures
        r@ == label_or(*v, key@, fallback@),
{
    match v.get("metric") {
        Some(Json::Object(labels)) => {
            let found = match &labels_get(labels, key) {
                Some(x) => x.as_text(),
                None => None,
            };
            match found {
                Some(t) => t.clone(),
                None => String::from_str(fallback),
            }
        },
        _ => String::from_str(fallback),
    }
}

/// The first member named `key`.
pub fn labels_get<'a>(entries: &'a Vec<(String, Json)>, key: &str) -> (r: Option<&'a Json>)
    ensures
        r matches Some(x) ==> member(entries@, key@) == Some(*x),
        r is None ==> member(entries@, key@) is None,
{
    let mut i: usize = 0;
    assert(entries@.skip(0) =~= entries@);
    while i < entries.len()
        invariant
            i <= entries.len(),
            member(entries@, key@) == member(entries@.skip(i as int), key@),
        decreases entries.len() - i,
    {
        assert(entries@.skip(i as int).drop_first() =~= entries@.skip(i + 1));
        assert(entries@.skip(i as int)[0] == entries@[i as int]);
        if entries[i].0 == key.to_owned() {
            return Some(&entries[i].1);
        }
        i = i + 1;
    }
    None
}

/// Appends every labelled sample in `value` to `output`.
pub fn collect_labeled_samples(value: &Json, output: &mut Vec<MetricSample>)
    ensures
        samples_view(final(output)@) == samples_view(old(output)@) + labeled_samples(*value),
    decreases value,
{
    let ghost start = samples_view(output@);
    match value {
        Json::Object(entries) => {
            match value_of_sample(value) {
                Some(number) => {
                    let instance = label_of(value, "instance", "未知实例");
                    let job = label_of(value, "job", "");
                    output.push(MetricSample { value: number, instance, job });
                    assert(samples_view(output@) =~= start + labeled_samples(*value));
                    return ;
                },
                None => {},
            }
            let mut i: usize = 0;
            while i < entries.len()
                invariant
                    i <= entries.len(),
                    *value == Json::Object(*entries),
                    sample_value(*value) is None,
                    samples_view(output@) == start + labeled_in_entries(entries@.take(i as int)),
                decreases entries.len() - i,
            {
                assert(entries@.take(i + 1).drop_last() =~= entries@.take(i as int));
                assert(entries@.take(i + 1).last() == entries@[i as int]);
                collect_labeled_samples(&entries[i].1, output);
                assert(samples_view(output@) =~= start + labeled_in_entries(entries@.take(i + 1)));
                i = i + 1;
            }
            assert(entries@.take(i as int) =~= entries@);
        },
        Json::Array(items) => {
            let mut i: usize = 0;
            while i < items.len()
                invariant
                    i <= items.len(),
                    *value == Json::Array(*items),
                    samples_view(output@) == start + labeled_in_items(items@.take(i as int)),
                decreases items.len() - i,
            {
                assert(items@.take(i + 1).drop_last() =~= items@.take(i as int));
                assert(items@.take(i + 1).last() == items@[i as int]);
                proof {
                    assert(decreases_to!(*value => value->Array_0));
                    assert(decreases_to!(value->Array_0 => value->Array_0@));
                    assert(decreases_to!(items@ => items@[i as int]));
                    assert(decreases_to!(*value => items@[i as int]));
                }
                collect_labeled_samples(&items[i], output);
                assert(samples_view(output@) =~= start + labeled_in_items(items@.take(i + 1)));
                i = i + 1;
            }
            assert(items@.take(i as int) =~= items@);
        },
        _ => {
            assert(samples_view(output@) =~= start + labeled_samples(*value));
        },
    }
}

/// The samples an MCP query result holds: every labelled sample of its payload
/// (`decoded` is its embedded text decoded as JSON, see `payload_of`), or an error
/// when there is none.
pub fn extract_metric_samples(value: Json, decoded: Option<Json>) -> (r: Result<
    Vec<MetricSample>,
    String,
>)
    ensures
        r matches Ok(v) ==> samples_view(v@) == labeled_samples(payload_of(value, decoded))
            && v@.len() > 0,
        r matches Err(e) ==> labeled_samples(payload_of(value, decoded)).len() == 0 && e@
            == "MCP 查询结果中没有数值样本"@,
{
    let root = mcp_payload(value, decoded);
    let mut found: Vec<MetricSample> = Vec::new();
    collect_labeled_samples(&root, &mut found);
    assert(samples_view(Seq::<MetricSample>::empty()) =~= Seq::<SampleView>::empty());
    assert(samples_view(found@) =~= labeled_samples(root));
    if found.len() == 0 {
        Err(String::from_str("MCP 查询结果中没有数值样本"))
    } else {
        Ok(found)
    }
}

/// A wrapped result and the document it wraps give the same samples: when the MCP text
/// of `wrapped` decodes to `direct`, and `direct` has no MCP text that decodes (no text,
/// or `decoded` is `None`), both have the same payload.
pub proof fn law_wrapped_and_direct_agree(wrapped: Json, direct: Json, decoded: Option<Json>)
    requires
        embedded_text(wrapped) is Some,
        embedded_text(direct) is None || decoded is None,
    ensures
        payload_of(wrapped, Some(direct)) == payload_of(direct, decoded),
        labeled_samples(payload_of(wrapped, Some(direct))) == labeled_samples(payload_of(direct, decoded)),
{
}

/// Every numeric sample in `v`, labelled or not, depth first: an object contributes its
/// own `value[1]`, then the `[1]` of each pair in its `values` series, then whatever its
/// members hold.
pub open spec fn plain_samples(v: Json) -> Seq<Seq<char>>
    decreases v,
{
    match v {
        Json::Object(entries) => own_value(v) + series_values(v) + plain_in_entries(entries@),
        Json::Array(items) => plain_in_items(items@),
        _ => seq![],
    }
}

pub open spec fn own_value(v: Json) -> Seq<Seq<char>> {
    match sample_value(v) {
        Some(n) => seq![n],
        None => seq![],
    }
}

pub open spec fn pair_value(p: Json) -> Seq<Seq<char>> {
    match p {
        Json::Array(xs) => if xs@.len() > 1 {
            match number_text(xs@[1]) {
                Some(n) => seq![n],
                None => seq![],
            }
        } else {
            seq![]
        },
        _ => seq![],
    }
}

pub open spec fn pair_values(ps: Seq<Json>) -> Seq<Seq<char>>
    decreases ps.len(),
{
    if ps.len() == 0 {
        seq![]
    } else {
        pair_values(ps.drop_last()) + pair_value(ps.last())
    }
}

pub open spec fn series_values(v: Json) -> Seq<Seq<char>> {
    match spec_get(v, "values"@) {
        Some(Json::Array(ps)) => pair_values(ps@),
        _ => seq![],
    }
}

pub open spec fn plain_in_items(items: Seq<Json>) -> Seq<Seq<char>>
    decreases items,
{
    if items.len() == 0 {
        seq![]
    } else {
        plain_in_items(items.drop_last()) + plain_samples(items.last())
    }
}

pub open spec fn plain_in_entries(entries: Seq<(String, Json)>) -> Seq<Seq<char>>
    decreases entries,
{
    if entries.len() == 0 {
        seq![]
    } else {
        plain_in_entries(entries.drop_last()) + plain_samples(entries.last().1)
    }
}

fn push_pair_values(ps: &Vec<Json>, output: &mut Vec<String>)
    ensures
        texts_view(final(output)@) == texts_view(old(output)@) + pair_values(ps@),
{
    let ghost start = texts_view(output@);
    let mut i: usize = 0;
    while i < ps.len()
        invariant
            i <= ps.len(),
            texts_view(output@) == start + pair_values(ps@.take(i as int)),
        decreases ps.len() - i,
    {
        assert(ps@.take(i + 1).drop_last() =~= ps@.take(i as int));
        assert(ps@.take(i + 1).last() == ps@[i as int]);
        let ghost before = output@;
        match &ps[i] {
            Json::Array(xs) => {
                if xs.len() > 1 {
                    match json_number(&xs[1]) {
                        Some(n) => {
                            output.push(n);
                        },
                        None => {},
                    }
                }
            },
            _ => {},
        }
        assert(texts_view(output@) =~= texts_view(before) + pair_value(ps@[i as int]));
        assert(texts_view(output@) =~= start + pair_values(ps@.take(i + 1)));
        i = i + 1;
    }
    assert(ps@.take(i as int) =~= ps@);
}

/// Appends every numeric sample in `value` to `output` (see `plain_samples`).
pub fn collect_samples(value: &Json, output: &mut Vec<String>)
    ensures
        texts_view(final(output)@) == texts_view(old(output)@) + plain_samples(*value),
    decreases value,
{
    let ghost start = texts_view(output@);
    match value {
        Json::Object(entries) => {
            match value_of_sample(value) {
                Some(number) => {
                    output.push(number);
                },
                None => {},
            }
            assert(texts_view(output@) =~= start + own_value(*value));
            let ghost mid = texts_view(output@);
            match value.get("values") {
                Some(Json::Array(ps)) => {
                    push_pair_values(ps, output);
                },
                _ => {},
            }
            assert(texts_view(output@) =~= mid + series_values(*value));
            let ghost after_series = texts_view(output@);
            let mut i: usize = 0;
            while i < entries.len()
                invariant
                    i <= entries.len(),
                    *value == Json::Object(*entries),
                    texts_view(output@) == after_series + plain_in_entries(entries@.take(i as int)),
                decreases entries.len() - i,
            {
                assert(entries@.take(i + 1).drop_last() =~= entries@.take(i as int));
                assert(entries@.take(i + 1).last() == entries@[i as int]);
                proof {
                    assert(decreases_to!(*value => value->Object_0));
                    assert(decreases_to!(value->Object_0 => value->Object_0@));
                    assert(decreases_to!(entries@ => entries@[i as int]));
                    assert(decreases_to!(entries@[i as int] => entries@[i as int].1));
                }
                collect_samples(&entries[i].1, output);
                assert(texts_view(output@) =~= after_series + plain_in_entries(
                    entries@.take(i + 1),
                ));
                i = i + 1;
            }
            assert(entries@.take(i as int) =~= entries@);
            assert(texts_view(output@) =~= start + plain_samples(*value));
        },
        Json::Array(items) => {
            let mut i: usize = 0;
            while i < items.len()
                invariant
                    i <= items.len(),
                    *value == Json::Array(*items),
                    texts_view(output@) == start + plain_in_items(items@.take(i as int)),
                decreases items.len() - i,
            {
                assert(items@.take(i + 1).drop_last() =~= items@.take(i as int));
                assert(items@.take(i + 1).last() == items@[i as int]);
                proof {
                    assert(decreases_to!(*value => value->Array_0));
                    assert(decreases_to!(value->Array_0 => value->Array_0@));
                    assert(decreases_to!(items@ => items@[i as int]));
                }
                collect_samples(&items[i], output);
                assert(texts_view(output@) =~= start + plain_in_items(items@.take(i + 1)));
                i = i + 1;
            }
            assert(items@.take(i as int) =~= items@);
        },
        _ => {
            assert(texts_view(output@) =~= start + plain_samples(*value));
        },
    }
}

} // verus!
