//! A monitoring run and the daily report built from it: grouping samples by instance,
//! naming per-instance rules, and scoring the day.
use vstd::prelude::*;
use vstd::string::*;
use crate::monitor::{instant_millis, millis_of, AlertRule, Moment};
use crate::samples::{samples_view, MetricSample, SampleView};
use crate::settings::{is_read_only, uses_disable_write, AppSettings};
use crate::text::{decimal, has_prefix, int_text, same_text, starts_with, texts_view, i128_text, i64_text, u64_text};

verus! {

/// A monitoring run needs something selected to watch and a read-only server.
pub fn check_monitor_settings(settings: &AppSettings) -> (r: Result<(), String>)
    ensures
        r is Ok <==> (settings@.selected_datasource_uids.len() > 0
            || settings@.selected_dashboard_uids.len() > 0) && is_read_only(settings@),
        settings@.selected_datasource_uids.len() == 0 && settings@.selected_dashboard_uids.len()
            == 0 ==> (r matches Err(e) && e@
            == "请先从 Grafana 自动发现结果中选择需要监控的数据源或 Dashboard"@),
        (settings@.selected_datasource_uids.len() > 0 || settings@.selected_dashboard_uids.len()
            > 0) && !is_read_only(settings@) ==> (r matches Err(e) && e@
            == "安全检查失败：监控必须使用 --disable-write"@),
{
    if settings.selected_datasource_uids.len() == 0 && settings.selected_dashboard_uids.len() == 0 {
        return Err(String::from_str("请先从 Grafana 自动发现结果中选择需要监控的数据源或 Dashboard"));
    }
    if !uses_disable_write(settings) {
        return Err(String::from_str("安全检查失败：监控必须使用 --disable-write"));
    }
    Ok(())
}

/// A failed query of one rule against one data source: `{rule} / {uid}：{error}`.
pub fn query_failure(rule_name: &str, datasource_uid: &str, error: &str) -> (r: String)
    ensures
        r@ == rule_name@ + " / "@ + datasource_uid@ + "："@ + error@,
{
    String::from_str(rule_name).concat(" / ").concat(datasource_uid).concat("：").concat(error)
}

/// What a rule without any sample amounts to: nothing for the database rule (databases
/// are optional), an error `{rule}：查询结果为空` for any other.
pub fn empty_result(rule: &AlertRule) -> (r: Option<String>)
    ensures
        rule.id@ == "database"@ ==> r is None,
        rule.id@ != "database"@ ==> (r matches Some(e) && e@ == rule.name@ + "：查询结果为空"@),
{
    if same_text(rule.id.as_str(), "database") {
        None
    } else {
        Some(rule.name.clone().concat("：查询结果为空"))
    }
}

/// A failed snapshot of Grafana's alert rules.
pub fn alerts_snapshot_failure(error: &str) -> (r: String)
    ensures
        r@ == "Grafana 告警："@ + error@,
{
    String::from_str("Grafana 告警：").concat(error)
}

/// A failed snapshot of a dashboard's panel queries.
pub fn dashboard_snapshot_failure(uid: &str, error: &str) -> (r: String)
    ensures
        r@ == "Dashboard "@ + uid@ + "："@ + error@,
{
    String::from_str("Dashboard ").concat(uid).concat("：").concat(error)
}

/// The rule as applied to one instance of one data source: its id becomes
/// `{id}@{uid}@{instance}` and its name `{name} · {instance}`; the rest is kept.
pub fn instance_rule(rule: &AlertRule, datasource_uid: &str, instance: &str) -> (r: AlertRule)
    ensures
        r.id@ == rule.id@ + "@"@ + datasource_uid@ + "@"@ + instance@,
        r.name@ == rule.name@ + " · "@ + instance@,
        r.expr@ == rule.expr@,
        r.operator == rule.operator,
        r.threshold@ == rule.threshold@,
        r.for_checks == rule.for_checks,
        r.severity@ == rule.severity@,
        r.unit@ == rule.unit@,
{
    AlertRule {
        id: rule.id.clone().concat("@").concat(datasource_uid).concat("@").concat(instance),
        name: rule.name.clone().concat(" · ").concat(instance),
        expr: rule.expr.clone(),
        operator: rule.operator,
        threshold: rule.threshold.clone(),
        for_checks: rule.for_checks,
        severity: rule.severity.clone(),
        unit: rule.unit.clone(),
    }
}

/// A sample and the data source it came from.
#[derive(Debug)]
pub struct LocatedSample {
    pub sample: MetricSample,
    pub datasource_uid: String,
}

pub open spec fn located_view(s: LocatedSample) -> (SampleView, Seq<char>) {
    (s.sample@, s.datasource_uid@)
}

pub open spec fn locateds_view(v: Seq<LocatedSample>) -> Seq<(SampleView, Seq<char>)> {
    v.map_values(|s: LocatedSample| located_view(s))
}

/// What querying one data source for a rule gave: its samples, or the error.
#[derive(Debug)]
pub struct QueryOutcome {
    pub datasource_uid: String,
    pub found: Result<Vec<MetricSample>, String>,
}

/// The samples of one outcome, each with its data source.
pub open spec fn outcome_samples(o: QueryOutcome) -> Seq<(SampleView, Seq<char>)> {
    match o.found {
        Ok(v) => samples_view(v@).map_values(|s: SampleView| (s, o.datasource_uid@)),
        Err(_) => seq![],
    }
}

/// The error of one outcome, as a collection error of rule `rule_name`.
pub open spec fn outcome_errors(rule_name: Seq<char>, o: QueryOutcome) -> Seq<Seq<char>> {
    match o.found {
        Ok(_) => seq![],
        Err(e) => seq![rule_name + " / "@ + o.datasource_uid@ + "："@ + e@],
    }
}

/// All samples of a rule's queries, in the order of the data sources.
pub open spec fn gathered_samples(outcomes: Seq<QueryOutcome>) -> Seq<(SampleView, Seq<char>)>
    decreases outcomes.len(),
{
    if outcomes.len() == 0 {
        seq![]
    } else {
        gathered_samples(outcomes.drop_last()) + outcome_samples(outcomes.last())
    }
}

/// All failed queries of a rule, in the order of the data sources.
pub open spec fn gathered_errors(rule_name: Seq<char>, outcomes: Seq<QueryOutcome>) -> Seq<Seq<char>>
    decreases outcomes.len(),
{
    if outcomes.len() == 0 {
        seq![]
    } else {
        gathered_errors(rule_name, outcomes.drop_last()) + outcome_errors(rule_name, outcomes.last())
    }
}

/// The collection errors of a rule: its failed queries, then, when no query gave a sample,
/// the empty result of any rule but the database rule.
pub open spec fn rule_errors(rule: AlertRule, outcomes: Seq<QueryOutcome>) -> Seq<Seq<char>> {
    gathered_errors(rule.name@, outcomes) + if gathered_samples(outcomes).len() == 0 && rule.id@
        != "database"@ {
        seq![rule.name@ + "：查询结果为空"@]
    } else {
        seq![]
    }
}

/// Gathers what a rule's queries gave, one outcome per selected data source: the samples,
/// each with its data source, and the collection errors.
pub fn gather_rule(rule: &AlertRule, outcomes: &Vec<QueryOutcome>) -> (r: (Vec<LocatedSample>, Vec<String>))
    ensures
        locateds_view(r.0@) == gathered_samples(outcomes@),
        texts_view(r.1@) == rule_errors(*rule, outcomes@),
{
    let mut located: Vec<LocatedSample> = Vec::new();
    let mut errors: Vec<String> = Vec::new();
    let mut i: usize = 0;
    while i < outcomes.len()
        invariant
            i <= outcomes.len(),
            locateds_view(located@) == gathered_samples(outcomes@.take(i as int)),
            texts_view(errors@) == gathered_errors(rule.name@, outcomes@.take(i as int)),
        decreases outcomes.len() - i,
    {
        assert(outcomes@.take(i + 1).drop_last() =~= outcomes@.take(i as int));
        assert(outcomes@.take(i + 1).last() == outcomes@[i as int]);
        let o = &outcomes[i];
        match &o.found {
            Ok(found) => {
                let ghost base = locateds_view(located@);
                let ghost uid = o.datasource_uid@;
                let mut j: usize = 0;
                while j < found.len()
                    invariant
                        j <= found.len(),
                        uid == o.datasource_uid@,
                        locateds_view(located@) == base + samples_view(found@.take(j as int)).map_values(
                            |s: SampleView| (s, uid),
                        ),
                    decreases found.len() - j,
                {
                    let ghost before = located@;
                    let s = &found[j];
                    located.push(
                        LocatedSample {
                            sample: MetricSample {
                                value: s.value.clone(),
                                instance: s.instance.clone(),
                                job: s.job.clone(),
                            },
                            datasource_uid: o.datasource_uid.clone(),
                        },
                    );
                    assert(locateds_view(located@) =~= locateds_view(before).push((found@[j as int]@, uid)));
                    assert(samples_view(found@.take(j + 1)).map_values(|s: SampleView| (s, uid))
                        =~= samples_view(found@.take(j as int)).map_values(|s: SampleView| (s, uid)).push(
                        (found@[j as int]@, uid),
                    ));
                    j = j + 1;
                }
                assert(found@.take(j as int) =~= found@);
                assert(outcome_errors(rule.name@, outcomes@[i as int]) =~= seq![]);
                assert(texts_view(errors@) =~= gathered_errors(rule.name@, outcomes@.take(i as int))
                    + outcome_errors(rule.name@, outcomes@[i as int]));
            },
            Err(e) => {
                let ghost before = errors@;
                errors.push(query_failure(rule.name.as_str(), o.datasource_uid.as_str(), e.as_str()));
                assert(texts_view(errors@) =~= texts_view(before).push(
                    rule.name@ + " / "@ + o.datasource_uid@ + "："@ + e@,
                ));
                assert(outcome_samples(outcomes@[i as int]) =~= seq![]);
                assert(locateds_view(located@) =~= gathered_samples(outcomes@.take(i as int))
                    + outcome_samples(outcomes@[i as int]));
            },
        }
        i = i + 1;
    }
    assert(outcomes@.take(i as int) =~= outcomes@);
    if located.len() == 0 {
        let ghost before = errors@;
        match empty_result(rule) {
            Some(e) => {
                errors.push(e);
                assert(texts_view(errors@) =~= texts_view(before).push(rule.name@ + "：查询结果为空"@));
            },
            None => {
                assert(texts_view(errors@) =~= texts_view(before) + seq![]);
            },
        }
    } else {
        assert(texts_view(errors@) =~= texts_view(errors@) + seq![]);
    }
    (located, errors)
}

/// The readings of one instance: data source, instance and job, and the values of its
/// samples in the order they came.
#[derive(Debug)]
pub struct SampleGroup {
    pub datasource_uid: String,
    pub instance: String,
    pub job: String,
    pub values: Vec<String>,
}

pub struct GroupView {
    pub key: (Seq<char>, Seq<char>, Seq<char>),
    pub values: Seq<Seq<char>>,
}

impl View for SampleGroup {
    type V = GroupView;

    open spec fn view(&self) -> GroupView {
        GroupView {
            key: (self.datasource_uid@, self.instance@, self.job@),
            values: texts_view(self.values@),
        }
    }
}

pub open spec fn groups_view(v: Seq<SampleGroup>) -> Seq<GroupView> {
    v.map_values(|g: SampleGroup| g@)
}

/// The instance a sample belongs to: data source, instance, job.
pub open spec fn key_of(s: LocatedSample) -> (Seq<char>, Seq<char>, Seq<char>) {
    (s.datasource_uid@, s.sample.instance@, s.sample.job@)
}

/// The instances, in the order they first appear.
pub open spec fn first_keys(samples: Seq<LocatedSample>) -> Seq<(Seq<char>, Seq<char>, Seq<char>)>
    decreases samples.len(),
{
    if samples.len() == 0 {
        seq![]
    } else {
        let earlier = first_keys(samples.drop_last());
        if earlier.contains(key_of(samples.last())) {
            earlier
        } else {
            earlier.push(key_of(samples.last()))
        }
    }
}

/// The values of the samples of instance `key`, in order.
pub open spec fn values_of(samples: Seq<LocatedSample>, key: (Seq<char>, Seq<char>, Seq<char>)) -> Seq<
    Seq<char>,
>
    decreases samples.len(),
{
    if samples.len() == 0 {
        seq![]
    } else {
        values_of(samples.drop_last(), key) + if key_of(samples.last()) == key {
            seq![samples.last().sample.value@]
        } else {
            seq![]
        }
    }
}

fn same_key(a: &LocatedSample, b: &SampleGroup) -> (r: bool)
    ensures
        r == (key_of(*a) == b@.key),
{
    a.datasource_uid == b.datasource_uid && a.sample.instance == b.instance && a.sample.job == b.job
}

fn key_seen(groups: &Vec<SampleGroup>, s: &LocatedSample) -> (r: bool)
    ensures
        r == groups_view(groups@).map_values(|g: GroupView| g.key).contains(key_of(*s)),
{
    let ghost keys = groups_view(groups@).map_values(|g: GroupView| g.key);
    let mut i: usize = 0;
    while i < groups.len()
        invariant
            i <= groups.len(),
            keys == groups_view(groups@).map_values(|g: GroupView| g.key),
            forall|j: int| 0 <= j < i ==> keys[j] != key_of(*s),
        decreases groups.len() - i,
    {
        if same_key(s, &groups[i]) {
            assert(keys[i as int] == key_of(*s));
            return true;
        }
        i = i + 1;
    }
    false
}

/// Groups samples by instance (data source, instance, job): one group per instance, in the
/// order instances first appear, each holding its samples' values in order.
pub fn group_samples(samples: &Vec<LocatedSample>) -> (r: Vec<SampleGroup>)
    ensures
        groups_view(r@).map_values(|g: GroupView| g.key) == first_keys(samples@),
        forall|k: int| 0 <= k < r@.len() ==> #[trigger] groups_view(r@)[k].values == values_of(samples@, groups_view(r@)[k].key),
{
    let mut groups: Vec<SampleGroup> = Vec::new();
    let mut i: usize = 0;
    while i < samples.len()
        invariant
            i <= samples.len(),
            groups_view(groups@).map_values(|g: GroupView| g.key) == first_keys(samples@.take(i as int)),
            forall|k: int| 0 <= k < groups@.len() ==> #[trigger] groups@[k].values@.len() == 0,
        decreases samples.len() - i,
    {
        assert(samples@.take(i + 1).drop_last() =~= samples@.take(i as int));
        assert(samples@.take(i + 1).last() == samples@[i as int]);
        let ghost before = groups@;
        if !key_seen(&groups, &samples[i]) {
            groups.push(SampleGroup {
                datasource_uid: samples[i].datasource_uid.clone(),
                instance: samples[i].sample.instance.clone(),
                job: samples[i].sample.job.clone(),
                values: Vec::new(),
            });
            assert(groups_view(groups@).map_values(|g: GroupView| g.key) =~= groups_view(before).map_values(
                |g: GroupView| g.key,
            ).push(key_of(samples@[i as int])));
        }
        i = i + 1;
    }
    assert(samples@.take(i as int) =~= samples@);
    let mut filled: Vec<SampleGroup> = Vec::new();
    let mut k: usize = 0;
    while k < groups.len()
        invariant
            k <= groups.len(),
            filled@.len() == k,
            forall|m: int| 0 <= m < k ==> #[trigger] groups_view(filled@)[m] == (GroupView {
                key: groups_view(groups@)[m].key,
                values: values_of(samples@, groups_view(groups@)[m].key),
            }),
        decreases groups.len() - k,
    {
        let mut values: Vec<String> = Vec::new();
        let mut j: usize = 0;
        while j < samples.len()
            invariant
                j <= samples.len(),
                k < groups.len(),
                texts_view(values@) == values_of(samples@.take(j as int), groups_view(groups@)[k as int].key),
            decreases samples.len() - j,
        {
            assert(samples@.take(j + 1).drop_last() =~= samples@.take(j as int));
            assert(samples@.take(j + 1).last() == samples@[j as int]);
            assert(groups_view(groups@)[k as int] == groups@[k as int]@);
            let ghost before = values@;
            if same_key(&samples[j], &groups[k]) {
                values.push(samples[j].sample.value.clone());
                assert(texts_view(values@) =~= texts_view(before).push(samples@[j as int].sample.value@));
            } else {
                assert(texts_view(values@) =~= texts_view(before) + seq![]);
            }
            j = j + 1;
        }
        assert(samples@.take(j as int) =~= samples@);
        assert(groups_view(groups@)[k as int] == groups@[k as int]@);
        let ghost prev = filled@;
        filled.push(SampleGroup {
            datasource_uid: groups[k].datasource_uid.clone(),
            instance: groups[k].instance.clone(),
            job: groups[k].job.clone(),
            values,
        });
        assert forall|m: int| 0 <= m < k + 1 implies #[trigger] groups_view(filled@)[m] == (GroupView {
            key: groups_view(groups@)[m].key,
            values: values_of(samples@, groups_view(groups@)[m].key),
        }) by {
            if m < k {
                assert(groups_view(filled@)[m] == groups_view(prev)[m]);
            }
        }
        k = k + 1;
    }
    assert(groups_view(filled@).map_values(|g: GroupView| g.key) =~= groups_view(groups@).map_values(
        |g: GroupView| g.key,
    ));
    filled
}

/// The count of each outcome over a report's readings and collection errors.
#[derive(Debug)]
pub struct Tally {
    pub critical: i64,
    pub warning: i64,
    pub healthy: i64,
}

pub fn empty_tally() -> (t: Tally)
    ensures
        t.critical == 0 && t.warning == 0 && t.healthy == 0,
{
    Tally { critical: 0, warning: 0, healthy: 0 }
}

/// Counts one reading: a breach of a `critical` rule is critical, any other breach a
/// warning, no breach healthy.
pub fn count_reading(t: Tally, breached: bool, severity: &str) -> (r: Tally)
    requires
        t.critical < i64::MAX,
        t.warning < i64::MAX,
        t.healthy < i64::MAX,
    ensures
        r.critical == t.critical + (if breached && severity@ == "critical"@ {
            1int
        } else {
            0
        }),
        r.warning == t.warning + (if breached && severity@ != "critical"@ {
            1int
        } else {
            0
        }),
        r.healthy == t.healthy + (if !breached {
            1int
        } else {
            0
        }),
{
    if breached && same_text(severity, "critical") {
        Tally { critical: (t.critical + 1) as i64, ..t }
    } else if breached {
        Tally { warning: (t.warning + 1) as i64, ..t }
    } else {
        Tally { healthy: (t.healthy + 1) as i64, ..t }
    }
}

/// How one reading came out for the day's tally: whether it breached its threshold, and
/// its rule's severity.
#[derive(Debug)]
pub struct ReadingOutcome {
    pub breached: bool,
    pub severity: String,
}

pub open spec fn is_critical(o: ReadingOutcome) -> bool {
    o.breached && o.severity@ == "critical"@
}

/// How many of the readings are critical, warnings and healthy, in that order.
pub open spec fn outcome_counts(v: Seq<ReadingOutcome>) -> (nat, nat, nat)
    decreases v.len(),
{
    if v.len() == 0 {
        (0, 0, 0)
    } else {
        let c = outcome_counts(v.drop_last());
        let o = v.last();
        if is_critical(o) {
            (c.0 + 1, c.1, c.2)
        } else if o.breached {
            (c.0, c.1 + 1, c.2)
        } else {
            (c.0, c.1, c.2 + 1)
        }
    }
}

proof fn lemma_counts_add_up(v: Seq<ReadingOutcome>)
    ensures
        outcome_counts(v).0 + outcome_counts(v).1 + outcome_counts(v).2 == v.len(),
    decreases v.len(),
{
    if v.len() > 0 {
        lemma_counts_add_up(v.drop_last());
    }
}

/// The day's tally: every reading counted (see `count_reading`), then every collection
/// error as a warning.
pub fn tally_readings(outcomes: &Vec<ReadingOutcome>, errors: usize) -> (r: Tally)
    requires
        outcomes@.len() + errors < i64::MAX,
    ensures
        r.critical == outcome_counts(outcomes@).0,
        r.warning == outcome_counts(outcomes@).1 + errors,
        r.healthy == outcome_counts(outcomes@).2,
{
    let mut t = empty_tally();
    let mut i: usize = 0;
    while i < outcomes.len()
        invariant
            i <= outcomes@.len(),
            outcomes@.len() + errors < i64::MAX,
            t.critical == outcome_counts(outcomes@.take(i as int)).0,
            t.warning == outcome_counts(outcomes@.take(i as int)).1,
            t.healthy == outcome_counts(outcomes@.take(i as int)).2,
        decreases outcomes.len() - i,
    {
        proof {
            lemma_counts_add_up(outcomes@.take(i as int));
            assert(outcomes@.take(i + 1).drop_last() =~= outcomes@.take(i as int));
            assert(outcomes@.take(i + 1).last() == outcomes@[i as int]);
        }
        t = count_reading(t, outcomes[i].breached, outcomes[i].severity.as_str());
        i = i + 1;
    }
    proof {
        assert(outcomes@.take(i as int) =~= outcomes@);
        lemma_counts_add_up(outcomes@);
    }
    count_errors(t, errors)
}

/// Counts collection errors: each one is a warning.
pub fn count_errors(t: Tally, errors: usize) -> (r: Tally)
    requires
        t.warning >= 0,
        t.warning + errors <= i64::MAX,
    ensures
        r.warning == t.warning + errors,
        r.critical == t.critical,
        r.healthy == t.healthy,
{
    Tally { warning: t.warning + errors as i64, ..t }
}

/// The day's score: 100, less 25 per critical and 10 per warning, kept within 0..=100.
pub open spec fn score_of(t: Tally) -> int {
    let raw = 100 - t.critical * 25 - t.warning * 10;
    if raw < 0 {
        0
    } else if raw > 100 {
        100
    } else {
        raw
    }
}

pub fn report_score(t: &Tally) -> (r: i64)
    ensures
        r == score_of(*t),
{
    let raw: i128 = 100 - (t.critical as i128) * 25 - (t.warning as i128) * 10;
    if raw < 0 {
        0
    } else if raw > 100 {
        100
    } else {
        raw as i64
    }
}

/// The day's status: critical if any reading is, else warning if any is, else healthy.
pub open spec fn status_of(t: Tally) -> Seq<char> {
    if t.critical > 0 {
        "critical"@
    } else if t.warning > 0 {
        "warning"@
    } else {
        "healthy"@
    }
}

pub fn report_status(t: &Tally) -> (r: String)
    ensures
        r@ == status_of(*t),
{
    if t.critical > 0 {
        String::from_str("critical")
    } else if t.warning > 0 {
        String::from_str("warning")
    } else {
        String::from_str("healthy")
    }
}

/// The report's one-line summary over `samples` samples of the last 24 hours.
pub open spec fn summary_of(t: Tally, samples: i64) -> Seq<char> {
    if t.critical > 0 {
        "已分析过去 24 小时的 "@ + int_text(samples as int) + " 条采样，发现 "@ + int_text(
            t.critical as int,
        ) + " 项严重异常、"@ + int_text(t.warning as int) + " 项警告。"@
    } else if t.warning > 0 {
        "已分析过去 24 小时的 "@ + int_text(samples as int) + " 条采样，发现 "@ + int_text(
            t.warning as int,
        ) + " 项需要关注的问题。"@
    } else {
        "已分析过去 24 小时的 "@ + int_text(samples as int) + " 条采样，均在配置阈值内。"@
    }
}

pub fn report_summary(t: &Tally, samples: i64) -> (r: String)
    ensures
        r@ == summary_of(*t, samples),
{
    let head = String::from_str("已分析过去 24 小时的 ").concat(i64_text(samples).as_str());
    if t.critical > 0 {
        head.concat(" 条采样，发现 ").concat(i64_text(t.critical).as_str()).concat(" 项严重异常、").concat(
            i64_text(t.warning).as_str(),
        ).concat(" 项警告。")
    } else if t.warning > 0 {
        head.concat(" 条采样，发现 ").concat(i64_text(t.warning).as_str()).concat(" 项需要关注的问题。")
    } else {
        head.concat(" 条采样，均在配置阈值内。")
    }
}

/// A service's score: 100 when within threshold, 35 for a critical breach, 65 otherwise.
pub fn service_score(breached: bool, severity: &str) -> (r: i64)
    ensures
        !breached ==> r == 100,
        breached && severity@ == "critical"@ ==> r == 35,
        breached && severity@ != "critical"@ ==> r == 65,
{
    if !breached {
        100
    } else if same_text(severity, "critical") {
        35
    } else {
        65
    }
}

/// The category of a per-instance rule, from its id's prefix.
pub open spec fn category_of(rule_id: Seq<char>) -> Seq<char> {
    if has_prefix(rule_id, "cpu@"@) {
        "cpu"@
    } else if has_prefix(rule_id, "memory@"@) {
        "memory"@
    } else if has_prefix(rule_id, "disk@"@) {
        "disk"@
    } else if has_prefix(rule_id, "database@"@) {
        "database"@
    } else {
        "availability"@
    }
}

pub fn category(rule_id: &str) -> (r: String)
    ensures
        r@ == category_of(rule_id@),
{
    if starts_with(rule_id, "cpu@") {
        String::from_str("cpu")
    } else if starts_with(rule_id, "memory@") {
        String::from_str("memory")
    } else if starts_with(rule_id, "disk@") {
        String::from_str("disk")
    } else if starts_with(rule_id, "database@") {
        String::from_str("database")
    } else {
        String::from_str("availability")
    }
}

/// The stride of a reading's history: about 24 points over the day's samples.
pub fn history_stride(samples: usize) -> (r: usize)
    ensures
        r == (if samples / 24 > 1 {
            samples / 24
        } else {
            1
        }),
        r >= 1,
{
    let s = samples / 24;
    if s > 1 {
        s
    } else {
        1
    }
}

/// A report's id: `report-{date}-{millis}`, with the instant `now` in milliseconds.
pub fn report_id(date: &str, now: &Moment) -> (r: String)
    ensures
        r@ == "report-"@ + date@ + "-"@ + int_text(millis_of(*now)),
{
    let millis = instant_millis(now);
    String::from_str("report-").concat(date).concat("-").concat(i128_text(millis).as_str())
}

/// The id of the issue for collection error number `index`.
pub fn collection_error_id(index: usize) -> (r: String)
    ensures
        r@ == "collection-error-"@ + decimal(index as nat),
{
    String::from_str("collection-error-").concat(u64_text(index as u64).as_str())
}

/// Texts joined with a separator.
pub open spec fn joined(parts: Seq<Seq<char>>, sep: Seq<char>) -> Seq<char>
    decreases parts.len(),
{
    if parts.len() == 0 {
        seq![]
    } else if parts.len() == 1 {
        parts[0]
    } else {
        joined(parts.drop_last(), sep) + sep + parts.last()
    }
}

pub fn join(parts: &Vec<String>, sep: &str) -> (r: String)
    ensures
        r@ == joined(texts_view(parts@), sep@),
{
    let mut out = String::new();
    let mut i: usize = 0;
    while i < parts.len()
        invariant
            i <= parts.len(),
            out@ == joined(texts_view(parts@).take(i as int), sep@),
        decreases parts.len() - i,
    {
        let ghost p = texts_view(parts@).take(i + 1);
        assert(p.drop_last() =~= texts_view(parts@).take(i as int));
        assert(p.last() == parts@[i as int]@);
        if i == 0 {
            out = out.concat(parts[i].as_str());
            assert(out@ =~= p[0]);
        } else {
            out = out.concat(sep).concat(parts[i].as_str());
        }
        i = i + 1;
    }
    assert(texts_view(parts@).take(i as int) =~= texts_view(parts@));
    out
}

/// A run that produced no reading cannot make a report; the collection errors say why.
pub fn no_readings_error(errors: &Vec<String>) -> (r: String)
    ensures
        r@ == "Grafana 未返回任何可用指标："@ + joined(texts_view(errors@), "；"@),
{
    String::from_str("Grafana 未返回任何可用指标：").concat(join(errors, "；").as_str())
}

/// The score stays within 0..=100, is 100 exactly for a day without critical or warning
/// readings, and never rises when a reading or error is added.
pub proof fn law_score_bounds(t: Tally, more: Tally)
    requires
        t.critical >= 0,
        t.warning >= 0,
        more.critical >= t.critical,
        more.warning >= t.warning,
    ensures
        0 <= score_of(t) <= 100,
        (t.critical == 0 && t.warning == 0) <==> score_of(t) == 100,
        score_of(more) <= score_of(t),
{
}

/// How each count weighs on the score: a day with no critical reading and no warning
/// scores 100; each further warning takes 10 points and each further critical reading
/// 25, down to 0; healthy readings take nothing.
pub proof fn law_score_weights(t: Tally)
    requires
        t.critical >= 0,
        t.warning >= 0,
        t.healthy >= 0,
    ensures
        score_of(Tally { critical: 0, warning: 0, healthy: t.healthy }) == 100,
        t.warning < i64::MAX ==> score_of(Tally { warning: (t.warning + 1) as i64, ..t }) == if score_of(t) >= 10 {
            score_of(t) - 10
        } else {
            0
        },
        t.critical < i64::MAX ==> score_of(Tally { critical: (t.critical + 1) as i64, ..t }) == if score_of(t) >= 25 {
            score_of(t) - 25
        } else {
            0
        },
        t.healthy < i64::MAX ==> score_of(Tally { healthy: (t.healthy + 1) as i64, ..t }) == score_of(t),
{
}

/// The status is `healthy` exactly when nothing is critical or a warning, and a day with
/// a critical reading is never better than `critical`.
pub proof fn law_status_matches_tally(t: Tally)
    ensures
        status_of(t) == "healthy"@ <==> !(t.critical > 0) && !(t.warning > 0),
        t.critical > 0 ==> status_of(t) == "critical"@,
        !(t.critical > 0) && t.warning > 0 ==> status_of(t) == "warning"@,
{
    reveal_strlit("healthy");
    reveal_strlit("critical");
    reveal_strlit("warning");
    assert("healthy"@[0] != "critical"@[0]);
    assert("healthy"@[0] != "warning"@[0]);
}

/// A per-instance rule (`{id}@{uid}@{instance}`, see `instance_rule`) of the CPU, memory,
/// disk or database rule falls in that rule's category, whatever the data source and
/// instance; a rule id with no `@` falls under availability.
pub proof fn law_category_follows_base_rule(rest: Seq<char>, plain: Seq<char>)
    requires
        !plain.contains('@'),
    ensures
        category_of("cpu"@ + "@"@ + rest) == "cpu"@,
        category_of("memory"@ + "@"@ + rest) == "memory"@,
        category_of("disk"@ + "@"@ + rest) == "disk"@,
        category_of("database"@ + "@"@ + rest) == "database"@,
        category_of(plain) == "availability"@,
{
    reveal_strlit("cpu");
    reveal_strlit("memory");
    reveal_strlit("disk");
    reveal_strlit("database");
    reveal_strlit("@");
    reveal_strlit("cpu@");
    reveal_strlit("memory@");
    reveal_strlit("disk@");
    reveal_strlit("database@");
    assert("cpu"@ + "@"@ + rest =~= "cpu@"@ + rest);
    assert("memory"@ + "@"@ + rest =~= "memory@"@ + rest);
    assert("disk"@ + "@"@ + rest =~= "disk@"@ + rest);
    assert("database"@ + "@"@ + rest =~= "database@"@ + rest);
    assert(("cpu@"@ + rest).subrange(0, 4) =~= "cpu@"@);
    assert(("memory@"@ + rest).subrange(0, 7) =~= "memory@"@);
    assert(("disk@"@ + rest).subrange(0, 5) =~= "disk@"@);
    assert(("database@"@ + rest).subrange(0, 9) =~= "database@"@);
    let m = "memory@"@ + rest;
    let d = "disk@"@ + rest;
    let b = "database@"@ + rest;
    assert(m.take(4)[0] == 'm' && "cpu@"@[0] == 'c');
    assert(d.take(4)[0] == 'd');
    assert(d.len() >= 7 ==> d.take(7)[0] == 'd' && "memory@"@[0] == 'm');
    assert(b.take(4)[0] == 'd');
    assert(b.take(7)[0] == 'd');
    assert(b.take(5)[1] == 'a' && "disk@"@[1] == 'i');
    if has_prefix(plain, "cpu@"@) {
        assert(plain.take(4) == "cpu@"@);
        assert(plain.take(4)[3] == plain[3]);
        assert("cpu@"@[3] == '@');
        assert(plain.contains('@'));
    }
    if has_prefix(plain, "memory@"@) {
        assert(plain.take(7) == "memory@"@);
        assert(plain.take(7)[6] == plain[6]);
        assert("memory@"@[6] == '@');
        assert(plain.contains('@'));
    }
    if has_prefix(plain, "disk@"@) {
        assert(plain.take(5) == "disk@"@);
        assert(plain.take(5)[4] == plain[4]);
        assert("disk@"@[4] == '@');
        assert(plain.contains('@'));
    }
    if has_prefix(plain, "database@"@) {
        assert(plain.take(9) == "database@"@);
        assert(plain.take(9)[8] == plain[8]);
        assert("database@"@[8] == '@');
        assert(plain.contains('@'));
    }
}

/// Each instance forms exactly one group: the instances listed for grouping are distinct,
/// and every sample's instance is among them.
pub proof fn law_groups_partition_samples(samples: Seq<LocatedSample>)
    ensures
        first_keys(samples).no_duplicates(),
        forall|i: int|
            0 <= i < samples.len() ==> #[trigger] first_keys(samples).contains(key_of(samples[i])),
    decreases samples.len(),
{
    if samples.len() > 0 {
        let p = samples.drop_last();
        law_groups_partition_samples(p);
        assert forall|i: int| 0 <= i < samples.len() implies #[trigger] first_keys(samples).contains(
            key_of(samples[i]),
        ) by {
            if i < p.len() {
                assert(samples[i] == p[i]);
                assert(first_keys(p).contains(key_of(p[i])));
                let k = choose|k: int| 0 <= k < first_keys(p).len() && first_keys(p)[k] == key_of(p[i]);
                if !first_keys(p).contains(key_of(samples.last())) {
                    assert(first_keys(samples)[k] == key_of(p[i]));
                }
            } else {
                if !first_keys(p).contains(key_of(samples.last())) {
                    assert(first_keys(samples)[first_keys(p).len() as int] == key_of(samples.last()));
                }
            }
        }
    }
}

} // verus!
