//! Staged connection diagnosis: configuration, MCP handshake, tool discovery, Grafana
//! authentication. The caller performs each stage's work and reports what happened.
use vstd::prelude::*;
use vstd::string::*;
use crate::retry::{clamp, clamp_u32};
use crate::settings::{is_read_only, uses_disable_write, AppSettings, SettingsView};
use crate::text::{decimal, is_blank, is_blank_text, same_text, texts_view, u64_text, words};

verus! {

#[derive(Debug)]
pub struct DiagnosticStep {
    pub name: String,
    pub success: bool,
    pub detail: String,
    pub duration_ms: u128,
}

pub struct StepView {
    pub name: Seq<char>,
    pub success: bool,
    pub detail: Seq<char>,
    pub duration_ms: u128,
}

impl View for DiagnosticStep {
    type V = StepView;

    open spec fn view(&self) -> StepView {
        StepView {
            name: self.name@,
            success: self.success,
            detail: self.detail@,
            duration_ms: self.duration_ms,
        }
    }
}

pub open spec fn steps_view(v: Seq<DiagnosticStep>) -> Seq<StepView> {
    v.map_values(|s: DiagnosticStep| s@)
}

#[derive(Debug)]
pub struct ConnectionDiagnostic {
    pub success: bool,
    pub attempts: u32,
    pub steps: Vec<DiagnosticStep>,
}

#[derive(Clone, Copy, PartialEq, Eq, Structural, Debug)]
pub enum DiagnosisStage {
    Handshake,
    Discovery,
    /// Authentication; whether `list_datasources` is called for it.
    Auth(bool),
    Finished,
}

/// A diagnosis in progress: where it stands and the steps recorded so far.
#[derive(Debug)]
pub struct Diagnosis {
    pub stage: DiagnosisStage,
    pub handshake_attempts: u32,
    pub steps: Vec<DiagnosticStep>,
}

/// What the caller observed for the current stage, with how long it took.
#[derive(Debug)]
pub enum DiagnosisEvent {
    Connected { elapsed_ms: u128 },
    ConnectFailed { error: String, elapsed_ms: u128 },
    ToolsListed { names: Vec<String>, elapsed_ms: u128 },
    ToolsFailed { error: String, elapsed_ms: u128 },
    /// The outcome of calling `list_datasources`, `None` when it was not to be called.
    AuthChecked { outcome: Option<Result<(), String>>, elapsed_ms: u128 },
}

/// What the caller does next.
#[derive(Debug)]
pub enum DiagnosisAction {
    /// Start the server and complete `initialize`, with retries.
    Connect,
    ListTools,
    /// Check authentication; call `list_datasources` (with retries) only when `call`.
    CheckAuth { call: bool },
    Report(ConnectionDiagnostic),
}

/// What is wrong with the configuration, if anything: no Grafana address, no token, or a
/// server started without `--disable-write`.
pub open spec fn config_problem(s: SettingsView) -> Option<Seq<char>> {
    if is_blank_text(s.grafana_url) {
        Some("Grafana 地址为空"@)
    } else if is_blank_text(s.grafana_token) {
        Some("Grafana Token 为空"@)
    } else if !is_read_only(s) {
        Some("启动参数缺少 --disable-write"@)
    } else {
        None
    }
}

pub fn config_error(settings: &AppSettings) -> (r: Option<String>)
    ensures
        r matches Some(e) ==> config_problem(settings@) == Some(e@),
        r is None ==> config_problem(settings@) is None,
{
    if is_blank(settings.grafana_url.as_str()) {
        Some(String::from_str("Grafana 地址为空"))
    } else if is_blank(settings.grafana_token.as_str()) {
        Some(String::from_str("Grafana Token 为空"))
    } else if !uses_disable_write(settings) {
        Some(String::from_str("启动参数缺少 --disable-write"))
    } else {
        None
    }
}

pub open spec fn reports(a: DiagnosisAction, success: bool, attempts: u32, steps: Seq<StepView>) -> bool {
    a matches DiagnosisAction::Report(d) && d.success == success && d.attempts == attempts
        && steps_view(d.steps@) == steps
}

fn step(name: &str, success: bool, detail: String, duration_ms: u128) -> (r: DiagnosticStep)
    ensures
        r@ == (StepView { name: name@, success, detail: detail@, duration_ms }),
{
    DiagnosticStep { name: String::from_str(name), success, detail, duration_ms }
}

/// How a diagnosis starts: a failed configuration check ends it at once, reporting no
/// attempt; a passed one is recorded and the handshake comes next.
pub open spec fn started_as(s: SettingsView, elapsed_ms: u128, d: Diagnosis, a: DiagnosisAction) -> bool {
    &&& d.handshake_attempts == clamp(s.mcp_retry_attempts, 1, 5)
    &&& match config_problem(s) {
        Some(p) => d.stage == DiagnosisStage::Finished && reports(
            a,
            false,
            0,
            seq![StepView { name: "配置检查"@, success: false, detail: p, duration_ms: elapsed_ms }],
        ),
        None => d.stage == DiagnosisStage::Handshake && a is Connect && steps_view(d.steps@)
            == seq![
            StepView {
                name: "配置检查"@,
                success: true,
                detail: "地址、Token 与只读参数已配置"@,
                duration_ms: elapsed_ms,
            },
        ],
    }
}

/// Starts a diagnosis with the configuration check, which took `elapsed_ms`.
pub fn diagnosis_start(settings: &AppSettings, elapsed_ms: u128) -> (r: (Diagnosis, DiagnosisAction))
    ensures
        started_as(settings@, elapsed_ms, r.0, r.1),
{
    let attempts = clamp_u32(settings.mcp_retry_attempts, 1, 5);
    let problem = config_error(settings);
    let mut steps: Vec<DiagnosticStep> = Vec::new();
    match problem {
        Some(p) => {
            steps.push(step("配置检查", false, p, elapsed_ms));
            assert(steps_view(steps@) =~= seq![steps@[0]@]);
            (
                Diagnosis { stage: DiagnosisStage::Finished, handshake_attempts: attempts, steps: Vec::new() },
                DiagnosisAction::Report(ConnectionDiagnostic { success: false, attempts: 0, steps }),
            )
        },
        None => {
            steps.push(step("配置检查", true, String::from_str("地址、Token 与只读参数已配置"), elapsed_ms));
            assert(steps_view(steps@) =~= seq![steps@[0]@]);
            (
                Diagnosis { stage: DiagnosisStage::Handshake, handshake_attempts: attempts, steps },
                DiagnosisAction::Connect,
            )
        },
    }
}

pub open spec fn fits(stage: DiagnosisStage, event: DiagnosisEvent) -> bool {
    match stage {
        DiagnosisStage::Handshake => event is Connected || event is ConnectFailed,
        DiagnosisStage::Discovery => event is ToolsListed || event is ToolsFailed,
        DiagnosisStage::Auth(call) => event matches DiagnosisEvent::AuthChecked { outcome, .. }
            && (outcome is Some <==> call),
        DiagnosisStage::Finished => false,
    }
}

fn offers_tool(names: &Vec<String>, wanted: &str) -> (r: bool)
    ensures
        r == texts_view(names@).contains(wanted@),
{
    let mut i: usize = 0;
    while i < names.len()
        invariant
            i <= names.len(),
            forall|j: int| 0 <= j < i ==> names@[j]@ != wanted@,
        decreases names.len() - i,
    {
        if same_text(names[i].as_str(), wanted) {
            assert(texts_view(names@)[i as int] == wanted@);
            return true;
        }
        i = i + 1;
    }
    assert forall|j: int| 0 <= j < texts_view(names@).len() implies texts_view(names@)[j]
        != wanted@ by {
        assert(texts_view(names@)[j] == names@[j]@);
    }
    false
}

/// One step of a diagnosis: each stage records a step; a failure ends the diagnosis
/// (reporting the handshake's attempts when the handshake failed, one otherwise), and the
/// authentication step ends it with its own outcome.
pub open spec fn advanced_as(
    steps: Seq<StepView>,
    attempts: u32,
    event: DiagnosisEvent,
    d: Diagnosis,
    a: DiagnosisAction,
) -> bool {
    &&& d.handshake_attempts == attempts
    &&& match event {
        DiagnosisEvent::Connected { elapsed_ms } => d.stage == DiagnosisStage::Discovery
            && a is ListTools && steps_view(d.steps@) == steps.push(
            StepView {
                name: "MCP 握手"@,
                success: true,
                detail: "子进程启动并完成 initialize"@,
                duration_ms: elapsed_ms,
            },
        ),
        DiagnosisEvent::ConnectFailed { error, elapsed_ms } => d.stage == DiagnosisStage::Finished
            && reports(
            a,
            false,
            attempts,
            steps.push(
                StepView { name: "MCP 握手"@, success: false, detail: error@, duration_ms: elapsed_ms },
            ),
        ),
        DiagnosisEvent::ToolsListed { names, elapsed_ms } => {
            let call = texts_view(names@).contains("list_datasources"@);
            &&& d.stage == DiagnosisStage::Auth(call)
            &&& a == DiagnosisAction::CheckAuth { call }
            &&& steps_view(d.steps@) == steps.push(
                StepView {
                    name: "工具发现"@,
                    success: true,
                    detail: "发现 "@ + decimal(names@.len()) + " 个工具"@,
                    duration_ms: elapsed_ms,
                },
            )
        },
        DiagnosisEvent::ToolsFailed { error, elapsed_ms } => d.stage == DiagnosisStage::Finished
            && reports(
            a,
            false,
            1,
            steps.push(
                StepView { name: "工具发现"@, success: false, detail: error@, duration_ms: elapsed_ms },
            ),
        ),
        DiagnosisEvent::AuthChecked { outcome, elapsed_ms } => d.stage == DiagnosisStage::Finished
            && match outcome {
            Some(Ok(())) => reports(
                a,
                true,
                1,
                steps.push(
                    StepView {
                        name: "Grafana 鉴权"@,
                        success: true,
                        detail: "Grafana API 鉴权成功"@,
                        duration_ms: elapsed_ms,
                    },
                ),
            ),
            Some(Err(e)) => reports(
                a,
                false,
                1,
                steps.push(
                    StepView { name: "Grafana 鉴权"@, success: false, detail: e@, duration_ms: elapsed_ms },
                ),
            ),
            None => reports(
                a,
                false,
                1,
                steps.push(
                    StepView {
                        name: "Grafana 鉴权"@,
                        success: false,
                        detail: "MCP 未提供 list_datasources，无法验证 Grafana 鉴权"@,
                        duration_ms: elapsed_ms,
                    },
                ),
            ),
        },
    }
}

/// The next step of a diagnosis (see `advanced_as`).
pub fn diagnosis_next(d: Diagnosis, event: DiagnosisEvent) -> (r: (Diagnosis, DiagnosisAction))
    requires
        fits(d.stage, event),
    ensures
        advanced_as(steps_view(d.steps@), d.handshake_attempts, event, r.0, r.1),
{
    let attempts = d.handshake_attempts;
    let mut steps = d.steps;
    let ghost before = steps_view(steps@);
    match event {
        DiagnosisEvent::Connected { elapsed_ms } => {
            steps.push(step("MCP 握手", true, String::from_str("子进程启动并完成 initialize"), elapsed_ms));
            assert(steps_view(steps@) =~= before.push(steps@.last()@));
            (Diagnosis { stage: DiagnosisStage::Discovery, handshake_attempts: attempts, steps }, DiagnosisAction::ListTools)
        },
        DiagnosisEvent::ConnectFailed { error, elapsed_ms } => {
            steps.push(step("MCP 握手", false, error, elapsed_ms));
            assert(steps_view(steps@) =~= before.push(steps@.last()@));
            (
                Diagnosis { stage: DiagnosisStage::Finished, handshake_attempts: attempts, steps: Vec::new() },
                DiagnosisAction::Report(ConnectionDiagnostic { success: false, attempts, steps }),
            )
        },
        DiagnosisEvent::ToolsListed { names, elapsed_ms } => {
            let detail = String::from_str("发现 ").concat(u64_text(names.len() as u64).as_str()).concat(" 个工具");
            steps.push(step("工具发现", true, detail, elapsed_ms));
            assert(steps_view(steps@) =~= before.push(steps@.last()@));
            let call = offers_tool(&names, "list_datasources");
            (
                Diagnosis { stage: DiagnosisStage::Auth(call), handshake_attempts: attempts, steps },
                DiagnosisAction::CheckAuth { call },
            )
        },
        DiagnosisEvent::ToolsFailed { error, elapsed_ms } => {
            steps.push(step("工具发现", false, error, elapsed_ms));
            assert(steps_view(steps@) =~= before.push(steps@.last()@));
            (
                Diagnosis { stage: DiagnosisStage::Finished, handshake_attempts: attempts, steps: Vec::new() },
                DiagnosisAction::Report(ConnectionDiagnostic { success: false, attempts: 1, steps }),
            )
        },
        DiagnosisEvent::AuthChecked { outcome, elapsed_ms } => {
            let (success, detail) = match outcome {
                Some(Ok(())) => (true, String::from_str("Grafana API 鉴权成功")),
                Some(Err(e)) => (false, e),
                None => (false, String::from_str("MCP 未提供 list_datasources，无法验证 Grafana 鉴权")),
            };
            steps.push(step("Grafana 鉴权", success, detail, elapsed_ms));
            assert(steps_view(steps@) =~= before.push(steps@.last()@));
            (
                Diagnosis { stage: DiagnosisStage::Finished, handshake_attempts: attempts, steps: Vec::new() },
                DiagnosisAction::Report(ConnectionDiagnostic { success, attempts: 1, steps }),
            )
        },
    }
}

pub open spec fn auth_passed(event: DiagnosisEvent) -> bool {
    match event {
        DiagnosisEvent::AuthChecked { outcome: Some(Ok(())), .. } => true,
        _ => false,
    }
}

/// A diagnosis reports success only when authentication succeeded, which it reaches only
/// after the configuration check, the handshake and the tool discovery passed; every step
/// it reports then succeeded.
pub proof fn law_success_needs_every_stage(
    steps: Seq<StepView>,
    attempts: u32,
    event: DiagnosisEvent,
    d: Diagnosis,
    a: DiagnosisAction,
)
    requires
        advanced_as(steps, attempts, event, d, a),
        forall|i: int| 0 <= i < steps.len() ==> #[trigger] steps[i].success,
        a matches DiagnosisAction::Report(x) && x.success,
    ensures
        auth_passed(event),
        forall|i: int|
            0 <= i < steps_view(a->Report_0.steps@).len() ==> #[trigger] steps_view(
                a->Report_0.steps@,
            )[i].success,
{
    match event {
        DiagnosisEvent::AuthChecked { outcome, elapsed_ms } => {
            match outcome {
                Some(Ok(())) => {},
                Some(Err(_)) => {},
                None => {},
            }
        },
        _ => {},
    }
    let all = steps_view(a->Report_0.steps@);
    assert forall|i: int| 0 <= i < all.len() implies #[trigger] all[i].success by {
        if i < steps.len() {
            assert(all[i] == steps[i]);
        }
    }
}

/// A diagnosis goes past the configuration check only with a Grafana address, a token
/// and a read-only server: a blank address stops it at once, whatever else is set,
/// reporting that the address is empty, no handshake attempt and the failed check alone;
/// then a blank token; then missing `--disable-write`.
pub proof fn law_configuration_gates_the_diagnosis(s: SettingsView, elapsed_ms: u128, d: Diagnosis, a: DiagnosisAction)
    requires
        started_as(s, elapsed_ms, d, a),
    ensures
        is_blank_text(s.grafana_url) ==> reports(
            a,
            false,
            0,
            seq![StepView { name: "配置检查"@, success: false, detail: "Grafana 地址为空"@, duration_ms: elapsed_ms }],
        ),
        !is_blank_text(s.grafana_url) && is_blank_text(s.grafana_token) ==> reports(
            a,
            false,
            0,
            seq![StepView { name: "配置检查"@, success: false, detail: "Grafana Token 为空"@, duration_ms: elapsed_ms }],
        ),
        a is Connect ==> !is_blank_text(s.grafana_url) && !is_blank_text(s.grafana_token)
            && words(s.mcp_args).contains("--disable-write"@),
{
}

} // verus!
