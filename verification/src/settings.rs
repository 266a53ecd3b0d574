//! Application settings: their defaults, the secrets they carry, and the checks made on
//! them before the MCP server is used.
use vstd::prelude::*;
use vstd::string::*;
use crate::credentials::{load_ai_key, load_grafana_token, loaded_from, LoadedSecret, AI_KEY, GRAFANA_TOKEN};
use crate::mcp::GrafanaMcpConfig;
use crate::monitor::{AlertRule, Comparison};
use crate::text::{decimal, has_word, is_blank, is_blank_text, same_text, split_whitespace, texts_view, u64_text, words};

verus! {

pub struct RuleView {
    pub id: Seq<char>,
    pub name: Seq<char>,
    pub expr: Seq<char>,
    pub operator: Comparison,
    pub threshold: Seq<char>,
    pub for_checks: u32,
    pub severity: Seq<char>,
    pub unit: Seq<char>,
}

impl View for AlertRule {
    type V = RuleView;

    open spec fn view(&self) -> RuleView {
        RuleView {
            id: self.id@,
            name: self.name@,
            expr: self.expr@,
            operator: self.operator,
            threshold: self.threshold@,
            for_checks: self.for_checks,
            severity: self.severity@,
            unit: self.unit@,
        }
    }
}

pub open spec fn rules_view(v: Seq<AlertRule>) -> Seq<RuleView> {
    v.map_values(|r: AlertRule| r@)
}

impl AlertRule {
    /// A copy of the rule.
    pub fn duplicate(&self) -> (r: AlertRule)
        ensures
            r@ == self@,
    {
        AlertRule {
            id: self.id.clone(),
            name: self.name.clone(),
            expr: self.expr.clone(),
            operator: self.operator,
            threshold: self.threshold.clone(),
            for_checks: self.for_checks,
            severity: self.severity.clone(),
            unit: self.unit.clone(),
        }
    }
}

pub open spec fn rule_spec(
    id: Seq<char>,
    name: Seq<char>,
    expr: Seq<char>,
    operator: Comparison,
    threshold: Seq<char>,
    for_checks: u32,
    unit: Seq<char>,
) -> RuleView {
    RuleView { id, name, expr, operator, threshold, for_checks, severity: "critical"@, unit }
}

pub open spec fn cpu_rule() -> RuleView {
    rule_spec(
        "cpu"@,
        "CPU 使用率"@,
        "100 - (avg by(instance) (rate(node_cpu_seconds_total{mode=\"idle\"}[5m])) * 100)"@,
        Comparison::GreaterThan,
        "85"@,
        2,
        "%"@,
    )
}

pub open spec fn memory_rule() -> RuleView {
    rule_spec(
        "memory"@,
        "内存使用率"@,
        "(1 - node_memory_MemAvailable_bytes / node_memory_MemTotal_bytes) * 100"@,
        Comparison::GreaterThan,
        "90"@,
        1,
        "%"@,
    )
}

pub open spec fn disk_rule() -> RuleView {
    rule_spec(
        "disk"@,
        "磁盘剩余空间"@,
        "node_filesystem_avail_bytes{fstype!~\"tmpfs|overlay\"} / node_filesystem_size_bytes * 100"@,
        Comparison::LessThan,
        "10"@,
        1,
        "%"@,
    )
}

pub open spec fn server_up_rule() -> RuleView {
    rule_spec(
        "server_up"@,
        "服务器在线状态"@,
        "up{job=~\"node.*\"}"@,
        Comparison::LessThan,
        "1"@,
        1,
        ""@,
    )
}

/// The database availability rule. It is not among the defaults; loaded settings that lack
/// it gain it (see `with_database_rule`).
pub open spec fn database_rule() -> RuleView {
    rule_spec(
        "database"@,
        "数据库在线状态"@,
        "max by(instance, job) ({__name__=~\"mysql_up|pg_up|mongodb_up|redis_up\"})"@,
        Comparison::LessThan,
        "1"@,
        1,
        ""@,
    )
}

/// The four rules a new installation watches: CPU, memory, free disk space and whether
/// the server is up.
pub open spec fn default_rules() -> Seq<RuleView> {
    seq![cpu_rule(), memory_rule(), disk_rule(), server_up_rule()]
}

fn make_rule(
    id: &str,
    name: &str,
    expr: &str,
    operator: Comparison,
    threshold: &str,
    for_checks: u32,
    unit: &str,
) -> (r: AlertRule)
    ensures
        r@ == rule_spec(id@, name@, expr@, operator, threshold@, for_checks, unit@),
{
    AlertRule {
        id: String::from_str(id),
        name: String::from_str(name),
        expr: String::from_str(expr),
        operator,
        threshold: String::from_str(threshold),
        for_checks,
        severity: String::from_str("critical"),
        unit: String::from_str(unit),
    }
}

fn database_alert_rule() -> (r: AlertRule)
    ensures
        r@ == database_rule(),
{
    make_rule(
        "database",
        "数据库在线状态",
        "max by(instance, job) ({__name__=~\"mysql_up|pg_up|mongodb_up|redis_up\"})",
        Comparison::LessThan,
        "1",
        1,
        "",
    )
}

pub fn default_alert_rules() -> (r: Vec<AlertRule>)
    ensures
        rules_view(r@) == default_rules(),
{
    let mut v: Vec<AlertRule> = Vec::new();
    v.push(
        make_rule(
            "cpu",
            "CPU 使用率",
            "100 - (avg by(instance) (rate(node_cpu_seconds_total{mode=\"idle\"}[5m])) * 100)",
            Comparison::GreaterThan,
            "85",
            2,
            "%",
        ),
    );
    v.push(
        make_rule(
            "memory",
            "内存使用率",
            "(1 - node_memory_MemAvailable_bytes / node_memory_MemTotal_bytes) * 100",
            Comparison::GreaterThan,
            "90",
            1,
            "%",
        ),
    );
    v.push(
        make_rule(
            "disk",
            "磁盘剩余空间",
            "node_filesystem_avail_bytes{fstype!~\"tmpfs|overlay\"} / node_filesystem_size_bytes * 100",
            Comparison::LessThan,
            "10",
            1,
            "%",
        ),
    );
    v.push(
        make_rule(
            "server_up",
            "服务器在线状态",
            "up{job=~\"node.*\"}",
            Comparison::LessThan,
            "1",
            1,
            "",
        ),
    );
    assert(rules_view(v@) =~= default_rules());
    v
}

/// Minutes between scheduled checks when none is configured.
pub fn default_monitor_interval() -> (r: u64)
    ensures
        r == 5,
{
    5
}

/// Minutes before an alert that keeps firing is repeated, when none is configured.
pub fn default_cooldown() -> (r: i64)
    ensures
        r == 30,
{
    30
}

/// Attempts per MCP call when none is configured.
pub fn default_retry_attempts() -> (r: u32)
    ensures
        r == 3,
{
    3
}

/// Everything the application is configured with. The two secrets are filled from the
/// credential store and are never written with the rest.
#[derive(Debug)]
pub struct AppSettings {
    pub grafana_url: String,
    pub grafana_token: String,
    pub mcp_command: String,
    pub mcp_args: String,
    pub ai_provider: String,
    pub ai_base_url: String,
    pub ai_model: String,
    pub ai_key: String,
    pub schedule_enabled: bool,
    pub schedule_time: String,
    pub monitor_enabled: bool,
    pub monitor_interval_minutes: u64,
    pub selected_datasource_uids: Vec<String>,
    pub selected_dashboard_uids: Vec<String>,
    pub alert_cooldown_minutes: i64,
    pub alert_rules: Vec<AlertRule>,
    pub mcp_retry_attempts: u32,
}

pub struct SettingsView {
    pub grafana_url: Seq<char>,
    pub grafana_token: Seq<char>,
    pub mcp_command: Seq<char>,
    pub mcp_args: Seq<char>,
    pub ai_provider: Seq<char>,
    pub ai_base_url: Seq<char>,
    pub ai_model: Seq<char>,
    pub ai_key: Seq<char>,
    pub schedule_enabled: bool,
    pub schedule_time: Seq<char>,
    pub monitor_enabled: bool,
    pub monitor_interval_minutes: u64,
    pub selected_datasource_uids: Seq<Seq<char>>,
    pub selected_dashboard_uids: Seq<Seq<char>>,
    pub alert_cooldown_minutes: i64,
    pub alert_rules: Seq<RuleView>,
    pub mcp_retry_attempts: u32,
}

impl View for AppSettings {
    type V = SettingsView;

    open spec fn view(&self) -> SettingsView {
        SettingsView {
            grafana_url: self.grafana_url@,
            grafana_token: self.grafana_token@,
            mcp_command: self.mcp_command@,
            mcp_args: self.mcp_args@,
            ai_provider: self.ai_provider@,
            ai_base_url: self.ai_base_url@,
            ai_model: self.ai_model@,
            ai_key: self.ai_key@,
            schedule_enabled: self.schedule_enabled,
            schedule_time: self.schedule_time@,
            monitor_enabled: self.monitor_enabled,
            monitor_interval_minutes: self.monitor_interval_minutes,
            selected_datasource_uids: texts_view(self.selected_datasource_uids@),
            selected_dashboard_uids: texts_view(self.selected_dashboard_uids@),
            alert_cooldown_minutes: self.alert_cooldown_minutes,
            alert_rules: rules_view(self.alert_rules@),
            mcp_retry_attempts: self.mcp_retry_attempts,
        }
    }
}

/// The settings of a new installation.
pub open spec fn default_settings() -> SettingsView {
    SettingsView {
        grafana_url: "http://localhost:3000"@,
        grafana_token: Seq::<char>::empty(),
        mcp_command: "mcp-grafana"@,
        mcp_args: "--transport stdio --disable-write --enabled-tools search,datasource,prometheus,loki,alerting,dashboard"@,
        ai_provider: "MiniMax（国内）"@,
        ai_base_url: "https://api.minimaxi.com/v1"@,
        ai_model: "MiniMax-M2.7"@,
        ai_key: Seq::<char>::empty(),
        schedule_enabled: false,
        schedule_time: "08:00"@,
        monitor_enabled: false,
        monitor_interval_minutes: 5,
        selected_datasource_uids: seq![],
        selected_dashboard_uids: seq![],
        alert_cooldown_minutes: 30,
        alert_rules: default_rules(),
        mcp_retry_attempts: 3,
    }
}

impl Default for AppSettings {
    fn default() -> (r: AppSettings)
        ensures
            r@ == default_settings(),
    {
        let r = AppSettings {
            grafana_url: String::from_str("http://localhost:3000"),
            grafana_token: String::new(),
            mcp_command: String::from_str("mcp-grafana"),
            mcp_args: String::from_str(
                "--transport stdio --disable-write --enabled-tools search,datasource,prometheus,loki,alerting,dashboard",
            ),
            ai_provider: String::from_str("MiniMax（国内）"),
            ai_base_url: String::from_str("https://api.minimaxi.com/v1"),
            ai_model: String::from_str("MiniMax-M2.7"),
            ai_key: String::new(),
            schedule_enabled: false,
            schedule_time: String::from_str("08:00"),
            monitor_enabled: false,
            monitor_interval_minutes: default_monitor_interval(),
            selected_datasource_uids: Vec::new(),
            selected_dashboard_uids: Vec::new(),
            alert_cooldown_minutes: default_cooldown(),
            alert_rules: default_alert_rules(),
            mcp_retry_attempts: default_retry_attempts(),
        };
        assert(texts_view(r.selected_datasource_uids@) =~= seq![]);
        assert(texts_view(r.selected_dashboard_uids@) =~= seq![]);
        r
    }
}

pub open spec fn has_rule(rules: Seq<RuleView>, id: Seq<char>) -> bool {
    exists|i: int| 0 <= i < rules.len() && #[trigger] rules[i].id == id
}

/// The rules with the database availability rule added at the end when no rule has its
/// id: settings written before that rule existed gain it.
pub open spec fn with_database_rule(rules: Seq<RuleView>) -> Seq<RuleView> {
    if has_rule(rules, "database"@) {
        rules
    } else {
        rules.push(database_rule())
    }
}

fn has_rule_id(rules: &Vec<AlertRule>, id: &str) -> (r: bool)
    ensures
        r == has_rule(rules_view(rules@), id@),
{
    let mut i: usize = 0;
    while i < rules.len()
        invariant
            i <= rules.len(),
            forall|j: int| 0 <= j < i ==> rules@[j].id@ != id@,
        decreases rules.len() - i,
    {
        if same_text(rules[i].id.as_str(), id) {
            assert(rules_view(rules@)[i as int].id == id@);
            return true;
        }
        i = i + 1;
    }
    assert forall|j: int| 0 <= j < rules_view(rules@).len() implies rules_view(rules@)[j].id != id@ by {
        assert(rules_view(rules@)[j] == rules@[j]@);
    }
    false
}

/// Completes the rules with the database availability rule (see `with_database_rule`).
pub fn ensure_database_rule(rules: &mut Vec<AlertRule>)
    ensures
        rules_view(final(rules)@) == with_database_rule(rules_view(old(rules)@)),
{
    proof {
        reveal_strlit("database");
    }
    if !has_rule_id(rules, "database") {
        let ghost before = rules@;
        rules.push(database_alert_rule());
        assert(rules_view(rules@) =~= rules_view(before).push(database_rule()));
    }
}

/// A secret, if it was loaded.
pub open spec fn loaded_text(t: Option<LoadedSecret>) -> Option<Seq<char>> {
    match t {
        Some(x) => Some(x.secret()),
        None => None,
    }
}

/// A secret setting completed with the one loaded for it: an empty setting takes the
/// loaded secret, when one was loaded.
pub open spec fn filled_secret(given: Seq<char>, loaded: Option<Seq<char>>) -> Seq<char> {
    if given.len() == 0 && loaded is Some {
        loaded->0
    } else {
        given
    }
}

/// The settings completed for use: the database rule added if missing, the Grafana token
/// and the AI key each filled from what was loaded for it. Everything else is kept.
pub open spec fn filled_settings(s: SettingsView, token: Option<Seq<char>>, key: Option<Seq<char>>) -> SettingsView {
    SettingsView {
        alert_rules: with_database_rule(s.alert_rules),
        grafana_token: filled_secret(s.grafana_token, token),
        ai_key: filled_secret(s.ai_key, key),
        ..s
    }
}

/// Completes `settings` with the secrets loaded for them: `token` must have been read from
/// the Grafana token's entry and `key` from the AI key's.
pub fn fill_credentials(settings: AppSettings, token: &Option<LoadedSecret>, key: &Option<LoadedSecret>) -> (r: AppSettings)
    requires
        *token matches Some(t) ==> loaded_from(t, GRAFANA_TOKEN@),
        *key matches Some(k) ==> loaded_from(k, AI_KEY@),
    ensures
        r@ == filled_settings(settings@, loaded_text(*token), loaded_text(*key)),
{
    let mut settings = settings;
    ensure_database_rule(&mut settings.alert_rules);
    if settings.grafana_token.as_str().is_empty() {
        match token {
            Some(t) => {
                settings.grafana_token = t.text();
            },
            None => {},
        }
    }
    if settings.ai_key.as_str().is_empty() {
        match key {
            Some(k) => {
                settings.ai_key = k.text();
            },
            None => {},
        }
    }
    settings
}

/// The settings completed for use, with the secrets loaded to complete them: the database
/// rule is added if missing, an empty Grafana token is loaded from the token's entry and
/// an empty AI key from the key's; a secret already set is not loaded. Everything else is
/// kept.
pub fn hydrate_credentials(settings: AppSettings) -> (r: (AppSettings, Option<LoadedSecret>, Option<LoadedSecret>))
    ensures
        r.1 is Some <==> settings@.grafana_token.len() == 0,
        r.2 is Some <==> settings@.ai_key.len() == 0,
        r.1 matches Some(t) ==> loaded_from(t, GRAFANA_TOKEN@),
        r.2 matches Some(k) ==> loaded_from(k, AI_KEY@),
        r.0@ == filled_settings(settings@, loaded_text(r.1), loaded_text(r.2)),
{
    let token = if settings.grafana_token.as_str().is_empty() {
        Some(load_grafana_token())
    } else {
        None
    };
    let key = if settings.ai_key.as_str().is_empty() {
        Some(load_ai_key())
    } else {
        None
    };
    let filled = fill_credentials(settings, &token, &key);
    (filled, token, key)
}

/// The settings as written to the settings file: both secrets emptied, the rest kept.
pub fn without_secrets(settings: AppSettings) -> (r: AppSettings)
    ensures
        r@ == (SettingsView {
            grafana_token: Seq::<char>::empty(),
            ai_key: Seq::<char>::empty(),
            ..settings@
        }),
{
    let mut settings = settings;
    settings.grafana_token = String::new();
    settings.ai_key = String::new();
    settings
}

/// Whether the server is started read-only: `--disable-write` is one of its arguments.
pub open spec fn is_read_only(settings: SettingsView) -> bool {
    words(settings.mcp_args).contains("--disable-write"@)
}

pub fn uses_disable_write(settings: &AppSettings) -> (r: bool)
    ensures
        r == is_read_only(settings@),
{
    has_word(settings.mcp_args.as_str(), "--disable-write")
}

/// Refuses settings that would start the server with write access.
pub fn check_read_only(settings: &AppSettings) -> (r: Result<(), String>)
    ensures
        r is Ok <==> is_read_only(settings@),
        r matches Err(e) ==> e@ == "安全检查失败：MVP 必须使用 --disable-write"@,
{
    if uses_disable_write(settings) {
        Ok(())
    } else {
        Err(String::from_str("安全检查失败：MVP 必须使用 --disable-write"))
    }
}

/// A connection test needs a Grafana address and a read-only server.
pub fn check_connection_settings(settings: &AppSettings) -> (r: Result<(), String>)
    ensures
        r is Ok <==> !is_blank_text(settings@.grafana_url) && is_read_only(settings@),
        is_blank_text(settings@.grafana_url) ==> (r matches Err(e) && e@ == "请填写 Grafana 地址"@),
        !is_blank_text(settings@.grafana_url) && !is_read_only(settings@) ==> (r matches Err(e)
            && e@ == "安全检查失败：MVP 必须使用 --disable-write"@),
{
    if is_blank(settings.grafana_url.as_str()) {
        return Err(String::from_str("请填写 Grafana 地址"));
    }
    check_read_only(settings)
}

/// What a successful connection test reports.
pub fn connected_message(tool_count: usize) -> (r: String)
    ensures
        r@ == "已连接官方 mcp-grafana，共发现 "@ + decimal(tool_count as nat) + " 个只读工具"@,
{
    String::from_str("已连接官方 mcp-grafana，共发现 ").concat(u64_text(tool_count as u64).as_str()).concat(
        " 个只读工具",
    )
}

/// Whether the configured command runs the server through `uvx`, so that an installed
/// `mcp-grafana` could be started directly instead (the caller checks whether
/// `mcp-grafana --version` succeeds).
pub open spec fn may_skip_uvx(settings: SettingsView) -> bool {
    settings.mcp_command == "uvx"@ && words(settings.mcp_args).len() > 0 && words(
        settings.mcp_args,
    )[0] == "mcp-grafana"@
}

pub fn should_probe_binary(settings: &AppSettings) -> (r: bool)
    ensures
        r == may_skip_uvx(settings@),
{
    let args = split_whitespace(settings.mcp_args.as_str());
    let uvx = same_text(settings.mcp_command.as_str(), "uvx");
    if uvx && args.len() > 0 {
        assert(texts_view(args@)[0] == args@[0]@);
        same_text(args[0].as_str(), "mcp-grafana")
    } else {
        false
    }
}

/// How to start the server: the configured command and its whitespace-separated
/// arguments, except that `uvx mcp-grafana ...` becomes `mcp-grafana ...` when an installed
/// binary answered (`binary_answers`); the Grafana address and token go with it.
pub fn mcp_config(settings: &AppSettings, binary_answers: bool) -> (r: GrafanaMcpConfig)
    ensures
        may_skip_uvx(settings@) && binary_answers ==> r.command@ == "mcp-grafana"@ && texts_view(
            r.args@,
        ) == words(settings@.mcp_args).drop_first(),
        !(may_skip_uvx(settings@) && binary_answers) ==> r.command@ == settings@.mcp_command
            && texts_view(r.args@) == words(settings@.mcp_args),
        r.grafana_url@ == settings@.grafana_url,
        r.service_account_token@ == settings@.grafana_token,
{
    let mut args = split_whitespace(settings.mcp_args.as_str());
    let skip = binary_answers && should_probe_binary(settings);
    let command = if skip {
        let ghost before = args@;
        args.remove(0);
        assert(texts_view(args@) =~= texts_view(before).drop_first());
        String::from_str("mcp-grafana")
    } else {
        settings.mcp_command.clone()
    };
    GrafanaMcpConfig {
        command,
        args,
        grafana_url: settings.grafana_url.clone(),
        service_account_token: settings.grafana_token.clone(),
    }
}

/// The settings file never holds a secret: what `without_secrets` gives has both secrets
/// empty and differs from its input in nothing else.
pub proof fn law_saved_settings_hold_no_secrets(before: SettingsView, after: SettingsView)
    requires
        after == (SettingsView {
            grafana_token: Seq::<char>::empty(),
            ai_key: Seq::<char>::empty(),
            ..before
        }),
    ensures
        after.grafana_token.len() == 0,
        after.ai_key.len() == 0,
        after.alert_rules == before.alert_rules,
        after.mcp_args == before.mcp_args,
{
}

/// Completing the rules is idempotent, and afterwards a database rule is always present.
pub proof fn law_database_rule_completion(rules: Seq<RuleView>)
    ensures
        has_rule(with_database_rule(rules), "database"@),
        with_database_rule(with_database_rule(rules)) == with_database_rule(rules),
{
    if !has_rule(rules, "database"@) {
        let last = rules.len() as int;
        assert(rules.push(database_rule())[last].id == "database"@);
    }
}

/// Each secret is completed from its own load only: an empty Grafana token becomes the
/// secret loaded for the token and an empty AI key the one loaded for the key; a secret
/// already set is kept; the token never depends on what was loaded for the key, nor the
/// key on what was loaded for the token; and nothing but the rules and the two secrets
/// changes.
pub proof fn law_secrets_fill_from_their_own_entries(
    s: SettingsView,
    token: Option<Seq<char>>,
    key: Option<Seq<char>>,
    other_token: Option<Seq<char>>,
    other_key: Option<Seq<char>>,
)
    ensures
        s.grafana_token.len() == 0 && token is Some ==> filled_settings(s, token, key).grafana_token
            == token->0,
        s.ai_key.len() == 0 && key is Some ==> filled_settings(s, token, key).ai_key == key->0,
        s.grafana_token.len() > 0 ==> filled_settings(s, token, key).grafana_token == s.grafana_token,
        s.ai_key.len() > 0 ==> filled_settings(s, token, key).ai_key == s.ai_key,
        filled_settings(s, token, key).grafana_token == filled_settings(s, token, other_key).grafana_token,
        filled_settings(s, token, key).ai_key == filled_settings(s, other_token, key).ai_key,
        filled_settings(s, token, key).mcp_args == s.mcp_args,
        filled_settings(s, token, key).grafana_url == s.grafana_url,
{
}

/// A new installation watches four rules, all critical: CPU usage above 85 % on two
/// checks in a row, memory usage above 90 %, free disk space below 10 %, and servers that
/// are down (`up` below 1). The database rule is not among them.
pub proof fn law_default_rules()
    ensures
        default_rules().len() == 4,
        default_rules()[0].id == "cpu"@ && default_rules()[0].operator == Comparison::GreaterThan
            && default_rules()[0].threshold == "85"@ && default_rules()[0].for_checks == 2,
        default_rules()[1].id == "memory"@ && default_rules()[1].operator == Comparison::GreaterThan
            && default_rules()[1].threshold == "90"@,
        default_rules()[2].id == "disk"@ && default_rules()[2].operator == Comparison::LessThan
            && default_rules()[2].threshold == "10"@,
        default_rules()[3].id == "server_up"@ && default_rules()[3].operator == Comparison::LessThan
            && default_rules()[3].threshold == "1"@,
        forall|i: int| 0 <= i < 4 ==> #[trigger] default_rules()[i].severity == "critical"@,
        !has_rule(default_rules(), "database"@),
{
    reveal_strlit("cpu");
    reveal_strlit("memory");
    reveal_strlit("disk");
    reveal_strlit("server_up");
    reveal_strlit("database");
    assert forall|i: int| 0 <= i < default_rules().len() implies #[trigger] default_rules()[i].id != "database"@ by {
        assert(default_rules()[i].id[0] != "database"@[0] || default_rules()[i].id[1] != "database"@[1]);
    }
}

/// Completing settings twice, where the second completion loads nothing new (the
/// credential store unchanged: whatever it loads again is what it loaded the first time),
/// gives what completing once gives. With `hydrate_credentials`, which loads exactly the
/// empty secrets, this is hydrating twice equals hydrating once.
pub proof fn law_hydration_is_idempotent(
    s: SettingsView,
    token: Option<Seq<char>>,
    key: Option<Seq<char>>,
    token_again: Option<Seq<char>>,
    key_again: Option<Seq<char>>,
)
    requires
        token_again is Some ==> token_again == token,
        key_again is Some ==> key_again == key,
    ensures
        filled_settings(filled_settings(s, token, key), token_again, key_again) == filled_settings(
            s,
            token,
            key,
        ),
{
    law_database_rule_completion(s.alert_rules);
}

/// Settings that pass the read-only check start the server read-only: `--disable-write`
/// is among the arguments whichever command `mcp_config` settles on.
pub proof fn law_checked_settings_start_read_only(s: SettingsView, binary_answers: bool)
    requires
        is_read_only(s),
    ensures
        words(s.mcp_args).contains("--disable-write"@),
        may_skip_uvx(s) && binary_answers ==> words(s.mcp_args).drop_first().contains(
            "--disable-write"@,
        ),
{
    reveal_strlit("--disable-write");
    reveal_strlit("mcp-grafana");
    let w = words(s.mcp_args);
    let k = choose|k: int| 0 <= k < w.len() && w[k] == "--disable-write"@;
    if may_skip_uvx(s) && binary_answers {
        assert(w[0] == "mcp-grafana"@);
        assert(w[0][0] != w[k][0] || w[0][1] != w[k][1]);
        assert(k != 0);
        assert(w.drop_first()[k - 1] == "--disable-write"@);
    }
}

} // verus!
