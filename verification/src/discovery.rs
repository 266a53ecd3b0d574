//! Discovering Grafana data sources and dashboards in MCP results.
use vstd::prelude::*;
use vstd::string::*;
use crate::json::{spec_get, text_of, Json};
use crate::text::{ascii_lowered, contains_ignoring_ascii_case, occurs_in, same_text, texts_view};

verus! {

#[derive(Debug)]
pub struct GrafanaDatasource {
    pub uid: String,
    pub name: String,
    pub kind: String,
}

pub struct DatasourceView {
    pub uid: Seq<char>,
    pub name: Seq<char>,
    pub kind: Seq<char>,
}

impl View for GrafanaDatasource {
    type V = DatasourceView;

    open spec fn view(&self) -> DatasourceView {
        DatasourceView { uid: self.uid@, name: self.name@, kind: self.kind@ }
    }
}

#[derive(Debug)]
pub struct GrafanaDashboard {
    pub uid: String,
    pub title: String,
}

pub struct DashboardView {
    pub uid: Seq<char>,
    pub title: Seq<char>,
}

impl View for GrafanaDashboard {
    type V = DashboardView;

    open spec fn view(&self) -> DashboardView {
        DashboardView { uid: self.uid@, title: self.title@ }
    }
}

#[derive(Debug)]
pub struct GrafanaDiscovery {
    pub datasources: Vec<GrafanaDatasource>,
    pub dashboards: Vec<GrafanaDashboard>,
}

pub open spec fn datasources_view(v: Seq<GrafanaDatasource>) -> Seq<DatasourceView> {
    v.map_values(|d: GrafanaDatasource| d@)
}

pub open spec fn dashboards_view(v: Seq<GrafanaDashboard>) -> Seq<DashboardView> {
    v.map_values(|d: GrafanaDashboard| d@)
}

/// A data source's kind: its `type` when present (if that is not a string, `unknown`),
/// else its `kind`, else `unknown`.
pub open spec fn kind_of(v: Json) -> Seq<char> {
    match spec_get(v, "type"@) {
        Some(t) => match text_of(Some(t)) {
            Some(k) => k,
            None => "unknown"@,
        },
        None => match text_of(spec_get(v, "kind"@)) {
            Some(k) => k,
            None => "unknown"@,
        },
    }
}

/// An object with string `uid` and `name` describes a data source.
pub open spec fn datasource_of(v: Json) -> Option<DatasourceView> {
    match (text_of(spec_get(v, "uid"@)), text_of(spec_get(v, "name"@))) {
        (Some(uid), Some(name)) => Some(DatasourceView { uid, name, kind: kind_of(v) }),
        _ => None,
    }
}

pub open spec fn has_datasource_uid(found: Seq<DatasourceView>, uid: Seq<char>) -> bool {
    exists|i: int| 0 <= i < found.len() && #[trigger] found[i].uid == uid
}

pub open spec fn add_datasource(found: Seq<DatasourceView>, d: Option<DatasourceView>) -> Seq<
    DatasourceView,
> {
    match d {
        Some(x) => if has_datasource_uid(found, x.uid) {
            found
        } else {
            found.push(x)
        },
        None => found,
    }
}

/// The data sources found after visiting `v` depth first, starting from `found`: each
/// object that describes one is added unless its uid is already there, then its members
/// are visited in order.
pub open spec fn datasources_after(v: Json, found: Seq<DatasourceView>) -> Seq<DatasourceView>
    decreases v,
{
    match v {
        Json::Object(entries) => datasources_in_entries(
            entries@,
            add_datasource(found, datasource_of(v)),
        ),
        Json::Array(items) => datasources_in_items(items@, found),
        _ => found,
    }
}

pub open spec fn datasources_in_items(items: Seq<Json>, found: Seq<DatasourceView>) -> Seq<
    DatasourceView,
>
    decreases items,
{
    if items.len() == 0 {
        found
    } else {
        datasources_after(items.last(), datasources_in_items(items.drop_last(), found))
    }
}

pub open spec fn datasources_in_entries(
    entries: Seq<(String, Json)>,
    found: Seq<DatasourceView>,
) -> Seq<DatasourceView>
    decreases entries,
{
    if entries.len() == 0 {
        found
    } else {
        datasources_after(entries.last().1, datasources_in_entries(entries.drop_last(), found))
    }
}

fn field_text(v: &Json, key: &str) -> (r: Option<String>)
    ensures
        r matches Some(t) ==> text_of(spec_get(*v, key@)) == Some(t@),
        r is None ==> text_of(spec_get(*v, key@)) is None,
{
    match v.get(key) {
        Some(Json::Text(t)) => Some(t.clone()),
        _ => None,
    }
}

fn datasource_kind(v: &Json) -> (r: String)
    ensures
        r@ == kind_of(*v),
{
    match v.get("type") {
        Some(t) => match t {
            Json::Text(k) => k.clone(),
            _ => String::from_str("unknown"),
        },
        None => match field_text(v, "kind") {
            Some(k) => k,
            None => String::from_str("unknown"),
        },
    }
}

fn datasource_uid_seen(found: &Vec<GrafanaDatasource>, uid: &String) -> (r: bool)
    ensures
        r == has_datasource_uid(datasources_view(found@), uid@),
{
    let mut i: usize = 0;
    while i < found.len()
        invariant
            i <= found.len(),
            forall|j: int| 0 <= j < i ==> found@[j].uid@ != uid@,
        decreases found.len() - i,
    {
        if found[i].uid == *uid {
            assert(datasources_view(found@)[i as int].uid == uid@);
            return true;
        }
        i = i + 1;
    }
    assert forall|j: int| 0 <= j < datasources_view(found@).len() implies datasources_view(
        found@,
    )[j].uid != uid@ by {
        assert(datasources_view(found@)[j] == found@[j]@);
    }
    false
}

/// Adds the data sources in `value` to `output` (see `datasources_after`).
pub fn collect_datasources(value: &Json, output: &mut Vec<GrafanaDatasource>)
    ensures
        datasources_view(final(output)@) == datasources_after(*value, datasources_view(old(output)@)),
    decreases value,
{
    let ghost start = datasources_view(output@);
    match value {
        Json::Object(entries) => {
            match (field_text(value, "uid"), field_text(value, "name")) {
                (Some(uid), Some(name)) => {
                    let kind = datasource_kind(value);
                    if !datasource_uid_seen(output, &uid) {
                        let ghost before = output@;
                        output.push(GrafanaDatasource { uid, name, kind });
                        assert(datasources_view(output@) =~= datasources_view(before).push(
                            datasource_of(*value).unwrap(),
                        ));
                    }
                },
                _ => {},
            }
            let ghost added = datasources_view(output@);
            assert(added == add_datasource(start, datasource_of(*value)));
            let mut i: usize = 0;
            assert(entries@.take(0) =~= Seq::<(String, Json)>::empty());
            while i < entries.len()
                invariant
                    i <= entries.len(),
                    *value == Json::Object(*entries),
                    datasources_view(output@) == datasources_in_entries(
                        entries@.take(i as int),
                        added,
                    ),
                decreases entries.len() - i,
            {
                assert(entries@.take(i + 1).drop_last() =~= entries@.take(i as int));
                assert(entries@.take(i + 1).last() == entries@[i as int]);
                proof {
                    assert(decreases_to!(*value => value->Object_0));
                    assert(decreases_to!(value->Object_0 => value->Object_0@));
                    assert(decreases_to!(entries@ => entries@[i as int]));
                    assert(decreases_to!(entries@[i as int] => entries@[i as int].1));
                }
                collect_datasources(&entries[i].1, output);
                i = i + 1;
            }
            assert(entries@.take(i as int) =~= entries@);
        },
        Json::Array(items) => {
            let mut i: usize = 0;
            assert(items@.take(0) =~= Seq::<Json>::empty());
            while i < items.len()
                invariant
                    i <= items.len(),
                    *value == Json::Array(*items),
                    datasources_view(output@) == datasources_in_items(items@.take(i as int), start),
                decreases items.len() - i,
            {
                assert(items@.take(i + 1).drop_last() =~= items@.take(i as int));
                assert(items@.take(i + 1).last() == items@[i as int]);
                proof {
                    assert(decreases_to!(*value => value->Array_0));
                    assert(decreases_to!(value->Array_0 => value->Array_0@));
                    assert(decreases_to!(items@ => items@[i as int]));
                }
                collect_datasources(&items[i], output);
                i = i + 1;
            }
            assert(items@.take(i as int) =~= items@);
        },
        _ => {},
    }
}

/// Whether an object is a dashboard search hit: its `type`, when a string, is `dash-db` or
/// `dashboard`; an object without a string `type` qualifies.
pub open spec fn is_dashboard_hit(v: Json) -> bool {
    match text_of(spec_get(v, "type"@)) {
        Some(k) => k == "dash-db"@ || k == "dashboard"@,
        None => true,
    }
}

/// A dashboard hit with string `uid` and `title`.
pub open spec fn dashboard_of(v: Json) -> Option<DashboardView> {
    if is_dashboard_hit(v) {
        match (text_of(spec_get(v, "uid"@)), text_of(spec_get(v, "title"@))) {
            (Some(uid), Some(title)) => Some(DashboardView { uid, title }),
            _ => None,
        }
    } else {
        None
    }
}

pub open spec fn has_dashboard_uid(found: Seq<DashboardView>, uid: Seq<char>) -> bool {
    exists|i: int| 0 <= i < found.len() && #[trigger] found[i].uid == uid
}

pub open spec fn add_dashboard(found: Seq<DashboardView>, d: Option<DashboardView>) -> Seq<
    DashboardView,
> {
    match d {
        Some(x) => if has_dashboard_uid(found, x.uid) {
            found
        } else {
            found.push(x)
        },
        None => found,
    }
}

/// The dashboards found after visiting `v` depth first, starting from `found` (as for
/// data sources).
pub open spec fn dashboards_after(v: Json, found: Seq<DashboardView>) -> Seq<DashboardView>
    decreases v,
{
    match v {
        Json::Object(entries) => dashboards_in_entries(entries@, add_dashboard(found, dashboard_of(v))),
        Json::Array(items) => dashboards_in_items(items@, found),
        _ => found,
    }
}

pub open spec fn dashboards_in_items(items: Seq<Json>, found: Seq<DashboardView>) -> Seq<
    DashboardView,
>
    decreases items,
{
    if items.len() == 0 {
        found
    } else {
        dashboards_after(items.last(), dashboards_in_items(items.drop_last(), found))
    }
}

pub open spec fn dashboards_in_entries(
    entries: Seq<(String, Json)>,
    found: Seq<DashboardView>,
) -> Seq<DashboardView>
    decreases entries,
{
    if entries.len() == 0 {
        found
    } else {
        dashboards_after(entries.last().1, dashboards_in_entries(entries.drop_last(), found))
    }
}

fn dashboard_uid_seen(found: &Vec<GrafanaDashboard>, uid: &String) -> (r: bool)
    ensures
        r == has_dashboard_uid(dashboards_view(found@), uid@),
{
    let mut i: usize = 0;
    while i < found.len()
        invariant
            i <= found.len(),
            forall|j: int| 0 <= j < i ==> found@[j].uid@ != uid@,
        decreases found.len() - i,
    {
        if found[i].uid == *uid {
            assert(dashboards_view(found@)[i as int].uid == uid@);
            return true;
        }
        i = i + 1;
    }
    assert forall|j: int| 0 <= j < dashboards_view(found@).len() implies dashboards_view(
        found@,
    )[j].uid != uid@ by {
        assert(dashboards_view(found@)[j] == found@[j]@);
    }
    false
}

fn dashboard_hit(v: &Json) -> (r: bool)
    ensures
        r == is_dashboard_hit(*v),
{
    match field_text(v, "type") {
        Some(k) => same_text(k.as_str(), "dash-db") || same_text(k.as_str(), "dashboard"),
        None => true,
    }
}

/// Adds the dashboards in `value` to `output` (see `dashboards_after`).
pub fn collect_dashboards(value: &Json, output: &mut Vec<GrafanaDashboard>)
    ensures
        dashboards_view(final(output)@) == dashboards_after(*value, dashboards_view(old(output)@)),
    decreases value,
{
    let ghost start = dashboards_view(output@);
    match value {
        Json::Object(entries) => {
            if dashboard_hit(value) {
                match (field_text(value, "uid"), field_text(value, "title")) {
                    (Some(uid), Some(title)) => {
                        if !dashboard_uid_seen(output, &uid) {
                            let ghost before = output@;
                            output.push(GrafanaDashboard { uid, title });
                            assert(dashboards_view(output@) =~= dashboards_view(before).push(
                                dashboard_of(*value).unwrap(),
                            ));
                        }
                    },
                    _ => {},
                }
            }
            let ghost added = dashboards_view(output@);
            assert(added == add_dashboard(start, dashboard_of(*value)));
            let mut i: usize = 0;
            assert(entries@.take(0) =~= Seq::<(String, Json)>::empty());
            while i < entries.len()
                invariant
                    i <= entries.len(),
                    *value == Json::Object(*entries),
                    dashboards_view(output@) == dashboards_in_entries(entries@.take(i as int), added),
                decreases entries.len() - i,
            {
                assert(entries@.take(i + 1).drop_last() =~= entries@.take(i as int));
                assert(entries@.take(i + 1).last() == entries@[i as int]);
                proof {
                    assert(decreases_to!(*value => value->Object_0));
                    assert(decreases_to!(value->Object_0 => value->Object_0@));
                    assert(decreases_to!(entries@ => entries@[i as int]));
                    assert(decreases_to!(entries@[i as int] => entries@[i as int].1));
                }
                collect_dashboards(&entries[i].1, output);
                i = i + 1;
            }
            assert(entries@.take(i as int) =~= entries@);
        },
        Json::Array(items) => {
            let mut i: usize = 0;
            assert(items@.take(0) =~= Seq::<Json>::empty());
            while i < items.len()
                invariant
                    i <= items.len(),
                    *value == Json::Array(*items),
                    dashboards_view(output@) == dashboards_in_items(items@.take(i as int), start),
                decreases items.len() - i,
            {
                assert(items@.take(i + 1).drop_last() =~= items@.take(i as int));
                assert(items@.take(i + 1).last() == items@[i as int]);
                proof {
                    assert(decreases_to!(*value => value->Array_0));
                    assert(decreases_to!(value->Array_0 => value->Array_0@));
                    assert(decreases_to!(items@ => items@[i as int]));
                }
                collect_dashboards(&items[i], output);
                i = i + 1;
            }
            assert(items@.take(i as int) =~= items@);
        },
        _ => {},
    }
}

/// What discovery finds in the payloads of `list_datasources` and `search_dashboards`.
pub fn discovery_from(datasource_payload: &Json, dashboard_payload: &Json) -> (r: GrafanaDiscovery)
    ensures
        datasources_view(r.datasources@) == datasources_after(*datasource_payload, seq![]),
        dashboards_view(r.dashboards@) == dashboards_after(*dashboard_payload, seq![]),
{
    let mut datasources: Vec<GrafanaDatasource> = Vec::new();
    let mut dashboards: Vec<GrafanaDashboard> = Vec::new();
    assert(datasources_view(datasources@) =~= seq![]);
    assert(dashboards_view(dashboards@) =~= seq![]);
    collect_datasources(datasource_payload, &mut datasources);
    collect_dashboards(dashboard_payload, &mut dashboards);
    GrafanaDiscovery { datasources, dashboards }
}

/// A discovered data source is monitored when it was selected and is a Prometheus one
/// (its kind contains `prometheus`, ignoring ASCII case).
pub open spec fn is_monitored(d: DatasourceView, selected: Seq<Seq<char>>) -> bool {
    selected.contains(d.uid) && occurs_in("prometheus"@, ascii_lowered(d.kind))
}

pub open spec fn monitored_uids(found: Seq<DatasourceView>, selected: Seq<Seq<char>>) -> Seq<
    Seq<char>,
>
    decreases found.len(),
{
    if found.len() == 0 {
        seq![]
    } else {
        monitored_uids(found.drop_last(), selected) + if is_monitored(found.last(), selected) {
            seq![found.last().uid]
        } else {
            seq![]
        }
    }
}

fn is_selected(selected: &Vec<String>, uid: &String) -> (r: bool)
    ensures
        r == texts_view(selected@).contains(uid@),
{
    let mut i: usize = 0;
    while i < selected.len()
        invariant
            i <= selected.len(),
            forall|j: int| 0 <= j < i ==> selected@[j]@ != uid@,
        decreases selected.len() - i,
    {
        if selected[i] == *uid {
            assert(texts_view(selected@)[i as int] == uid@);
            return true;
        }
        i = i + 1;
    }
    assert forall|j: int| 0 <= j < texts_view(selected@).len() implies texts_view(selected@)[j]
        != uid@ by {
        assert(texts_view(selected@)[j] == selected@[j]@);
    }
    false
}

/// The uids of the discovered Prometheus data sources that were selected, in discovery
/// order.
pub fn prometheus_uids(found: &Vec<GrafanaDatasource>, selected: &Vec<String>) -> (r: Vec<String>)
    ensures
        texts_view(r@) == monitored_uids(datasources_view(found@), texts_view(selected@)),
{
    let mut out: Vec<String> = Vec::new();
    let mut i: usize = 0;
    while i < found.len()
        invariant
            i <= found.len(),
            texts_view(out@) == monitored_uids(
                datasources_view(found@).take(i as int),
                texts_view(selected@),
            ),
        decreases found.len() - i,
    {
        let ghost prefix = datasources_view(found@).take(i + 1);
        assert(prefix.drop_last() =~= datasources_view(found@).take(i as int));
        assert(prefix.last() == found@[i as int]@);
        let ghost before = out@;
        if is_selected(selected, &found[i].uid) && contains_ignoring_ascii_case(
            found[i].kind.as_str(),
            "prometheus",
        ) {
            out.push(found[i].uid.clone());
            assert(texts_view(out@) =~= texts_view(before).push(found@[i as int].uid@));
        } else {
            assert(texts_view(out@) =~= texts_view(before) + seq![]);
        }
        i = i + 1;
    }
    assert(datasources_view(found@).take(i as int) =~= datasources_view(found@));
    out
}

pub open spec fn distinct_datasources(s: Seq<DatasourceView>) -> bool {
    forall|i: int, j: int| 0 <= i < j < s.len() ==> #[trigger] s[i].uid != #[trigger] s[j].uid
}

pub open spec fn extends<T>(longer: Seq<T>, shorter: Seq<T>) -> bool {
    shorter.len() <= longer.len() && longer.take(shorter.len() as int) == shorter
}

proof fn lemma_add_datasource(found: Seq<DatasourceView>, d: Option<DatasourceView>)
    requires
        distinct_datasources(found),
    ensures
        distinct_datasources(add_datasource(found, d)),
        extends(add_datasource(found, d), found),
{
    assert(found.take(found.len() as int) =~= found);
    if let Some(x) = d {
        if !has_datasource_uid(found, x.uid) {
            let n = found.push(x);
            assert(n.take(found.len() as int) =~= found);
            assert forall|i: int, j: int| 0 <= i < j < n.len() implies #[trigger] n[i].uid
                != #[trigger] n[j].uid by {
                if j == found.len() {
                    assert(found[i].uid != x.uid);
                }
            }
        }
    }
}

proof fn lemma_extends_trans<T>(a: Seq<T>, b: Seq<T>, c: Seq<T>)
    requires
        extends(a, b),
        extends(b, c),
    ensures
        extends(a, c),
{
    assert(a.take(c.len() as int) =~= b.take(c.len() as int));
}

proof fn lemma_datasources_after(v: Json, found: Seq<DatasourceView>)
    requires
        distinct_datasources(found),
    ensures
        distinct_datasources(datasources_after(v, found)),
        extends(datasources_after(v, found), found),
    decreases v,
{
    assert(found.take(found.len() as int) =~= found);
    match v {
        Json::Object(entries) => {
            let added = add_datasource(found, datasource_of(v));
            lemma_add_datasource(found, datasource_of(v));
            lemma_datasources_in_entries(entries@, added);
            lemma_extends_trans(datasources_after(v, found), added, found);
        },
        Json::Array(items) => {
            lemma_datasources_in_items(items@, found);
        },
        _ => {},
    }
}

proof fn lemma_datasources_in_items(items: Seq<Json>, found: Seq<DatasourceView>)
    requires
        distinct_datasources(found),
    ensures
        distinct_datasources(datasources_in_items(items, found)),
        extends(datasources_in_items(items, found), found),
    decreases items,
{
    assert(found.take(found.len() as int) =~= found);
    if items.len() > 0 {
        let mid = datasources_in_items(items.drop_last(), found);
        lemma_datasources_in_items(items.drop_last(), found);
        lemma_datasources_after(items.last(), mid);
        lemma_extends_trans(datasources_in_items(items, found), mid, found);
    }
}

proof fn lemma_datasources_in_entries(entries: Seq<(String, Json)>, found: Seq<DatasourceView>)
    requires
        distinct_datasources(found),
    ensures
        distinct_datasources(datasources_in_entries(entries, found)),
        extends(datasources_in_entries(entries, found), found),
    decreases entries,
{
    assert(found.take(found.len() as int) =~= found);
    if entries.len() > 0 {
        let mid = datasources_in_entries(entries.drop_last(), found);
        lemma_datasources_in_entries(entries.drop_last(), found);
        lemma_datasources_after(entries.last().1, mid);
        lemma_extends_trans(datasources_in_entries(entries, found), mid, found);
    }
}

/// Discovery never lists a data source uid twice, and what was found before a payload is
/// visited stays, in its order, at the front.
pub proof fn law_datasources_are_distinct(v: Json, found: Seq<DatasourceView>)
    requires
        distinct_datasources(found),
    ensures
        distinct_datasources(datasources_after(v, found)),
        extends(datasources_after(v, found), found),
        distinct_datasources(datasources_after(v, seq![])),
{
    lemma_datasources_after(v, found);
    lemma_datasources_after(v, seq![]);
}

pub open spec fn distinct_dashboards(s: Seq<DashboardView>) -> bool {
    forall|i: int, j: int| 0 <= i < j < s.len() ==> #[trigger] s[i].uid != #[trigger] s[j].uid
}

proof fn lemma_add_dashboard(found: Seq<DashboardView>, d: Option<DashboardView>)
    requires
        distinct_dashboards(found),
    ensures
        distinct_dashboards(add_dashboard(found, d)),
        extends(add_dashboard(found, d), found),
{
    assert(found.take(found.len() as int) =~= found);
    if let Some(x) = d {
        if !has_dashboard_uid(found, x.uid) {
            let n = found.push(x);
            assert(n.take(found.len() as int) =~= found);
            assert forall|i: int, j: int| 0 <= i < j < n.len() implies #[trigger] n[i].uid
                != #[trigger] n[j].uid by {
                if j == found.len() {
                    assert(found[i].uid != x.uid);
                }
            }
        }
    }
}

proof fn lemma_dashboards_after(v: Json, found: Seq<DashboardView>)
    requires
        distinct_dashboards(found),
    ensures
        distinct_dashboards(dashboards_after(v, found)),
        extends(dashboards_after(v, found), found),
    decreases v,
{
    assert(found.take(found.len() as int) =~= found);
    match v {
        Json::Object(entries) => {
            let added = add_dashboard(found, dashboard_of(v));
            lemma_add_dashboard(found, dashboard_of(v));
            lemma_dashboards_in_entries(entries@, added);
            lemma_extends_trans(dashboards_after(v, found), added, found);
        },
        Json::Array(items) => {
            lemma_dashboards_in_items(items@, found);
        },
        _ => {},
    }
}

proof fn lemma_dashboards_in_items(items: Seq<Json>, found: Seq<DashboardView>)
    requires
        distinct_dashboards(found),
    ensures
        distinct_dashboards(dashboards_in_items(items, found)),
        extends(dashboards_in_items(items, found), found),
    decreases items,
{
    assert(found.take(found.len() as int) =~= found);
    if items.len() > 0 {
        let mid = dashboards_in_items(items.drop_last(), found);
        lemma_dashboards_in_items(items.drop_last(), found);
        lemma_dashboards_after(items.last(), mid);
        lemma_extends_trans(dashboards_in_items(items, found), mid, found);
    }
}

proof fn lemma_dashboards_in_entries(entries: Seq<(String, Json)>, found: Seq<DashboardView>)
    requires
        distinct_dashboards(found),
    ensures
        distinct_dashboards(dashboards_in_entries(entries, found)),
        extends(dashboards_in_entries(entries, found), found),
    decreases entries,
{
    assert(found.take(found.len() as int) =~= found);
    if entries.len() > 0 {
        let mid = dashboards_in_entries(entries.drop_last(), found);
        lemma_dashboards_in_entries(entries.drop_last(), found);
        lemma_dashboards_after(entries.last().1, mid);
        lemma_extends_trans(dashboards_in_entries(entries, found), mid, found);
    }
}

/// Discovery never lists a dashboard uid twice, and keeps what was found before at the
/// front.
pub proof fn law_dashboards_are_distinct(v: Json, found: Seq<DashboardView>)
    requires
        distinct_dashboards(found),
    ensures
        distinct_dashboards(dashboards_after(v, found)),
        extends(dashboards_after(v, found), found),
        distinct_dashboards(dashboards_after(v, seq![])),
{
    lemma_dashboards_after(v, found);
    lemma_dashboards_after(v, seq![]);
}

} // verus!
