//! Installing the official `mcp-grafana`: reuse an installed binary, else run it through
//! `uvx`, else install it with Go into the application's tools directory.
use vstd::prelude::*;
use vstd::string::*;
use crate::text::{texts_view, trim, trimmed};

verus! {

/// The Go package `go install` fetches.
pub const GO_PACKAGE: &'static str = "github.com/grafana/mcp-grafana/cmd/mcp-grafana@latest";

/// How the server is started once installed.
#[derive(Debug)]
pub struct InstallResult {
    pub command: String,
    pub args_prefix: Vec<String>,
    pub method: String,
    pub message: String,
}

#[derive(Clone, Copy, PartialEq, Eq, Structural, Debug)]
pub enum InstallStage {
    CheckExisting,
    CheckUvx,
    CheckGo,
    Installing,
    Locating,
    Done,
}

/// What the last action produced.
#[derive(Debug)]
pub enum InstallEvent {
    /// Whether the probed command ran and succeeded.
    Probed(bool),
    DirectoryFailed(String),
    LaunchFailed(String),
    Installed { succeeded: bool, stderr: String },
    Located { exists: bool, path: String },
}

/// What to do next.
#[derive(Debug)]
pub enum InstallAction {
    /// Run `program args`, output discarded, and report whether it succeeded.
    Probe { program: String, args: Vec<String> },
    /// Create the tools directory and run `go install GO_PACKAGE` with `GOBIN` set to it.
    RunGoInstall,
    /// Look for the installed binary in the tools directory.
    LocateBinary,
    Finish(Result<InstallResult, String>),
}

pub open spec fn fits(stage: InstallStage, event: InstallEvent) -> bool {
    match stage {
        InstallStage::CheckExisting | InstallStage::CheckUvx | InstallStage::CheckGo => event is Probed,
        InstallStage::Installing => event is DirectoryFailed || event is LaunchFailed || event is Installed,
        InstallStage::Locating => event is Located,
        InstallStage::Done => false,
    }
}

/// The stage an event leads to.
pub open spec fn next_stage(stage: InstallStage, event: InstallEvent) -> InstallStage {
    match (stage, event) {
        (InstallStage::CheckExisting, InstallEvent::Probed(false)) => InstallStage::CheckUvx,
        (InstallStage::CheckUvx, InstallEvent::Probed(false)) => InstallStage::CheckGo,
        (InstallStage::CheckGo, InstallEvent::Probed(true)) => InstallStage::Installing,
        (InstallStage::Installing, InstallEvent::Installed { succeeded: true, .. }) => InstallStage::Locating,
        _ => InstallStage::Done,
    }
}

pub open spec fn is_probe(a: InstallAction, program: Seq<char>, args: Seq<Seq<char>>) -> bool {
    a matches InstallAction::Probe { program: p, args: xs } && p@ == program && texts_view(xs@) == args
}

pub open spec fn is_ready(
    a: InstallAction,
    command: Seq<char>,
    prefix: Seq<Seq<char>>,
    method: Seq<char>,
    message: Seq<char>,
) -> bool {
    a matches InstallAction::Finish(Ok(r)) && r.command@ == command && texts_view(r.args_prefix@)
        == prefix && r.method@ == method && r.message@ == message
}

pub open spec fn is_failure(a: InstallAction, message: Seq<char>) -> bool {
    a matches InstallAction::Finish(Err(e)) && e@ == message
}

fn words2(a: &str, b: &str) -> (v: Vec<String>)
    ensures
        texts_view(v@) == seq![a@, b@],
{
    let v = vec![String::from_str(a), String::from_str(b)];
    assert(texts_view(v@) =~= seq![a@, b@]);
    v
}

fn word1(a: &str) -> (v: Vec<String>)
    ensures
        texts_view(v@) == seq![a@],
{
    let v = vec![String::from_str(a)];
    assert(texts_view(v@) =~= seq![a@]);
    v
}

/// The first step: check whether `mcp-grafana` is already installed.
pub fn install_start() -> (r: (InstallStage, InstallAction))
    ensures
        r.0 == InstallStage::CheckExisting,
        is_probe(r.1, "mcp-grafana"@, seq!["--help"@]),
{
    (
        InstallStage::CheckExisting,
        InstallAction::Probe { program: String::from_str("mcp-grafana"), args: word1("--help") },
    )
}

/// The step after `event`.
pub fn install_next(stage: InstallStage, event: InstallEvent) -> (r: (InstallStage, InstallAction))
    requires
        fits(stage, event),
    ensures
        r.0 == next_stage(stage, event),
        stage == InstallStage::CheckExisting && event == InstallEvent::Probed(true) ==> is_ready(
            r.1,
            "mcp-grafana"@,
            seq![],
            "existing"@,
            "mcp-grafana 已安装，无需重复安装"@,
        ),
        stage == InstallStage::CheckExisting && event == InstallEvent::Probed(false) ==> is_probe(
            r.1,
            "uvx"@,
            seq!["mcp-grafana"@, "--help"@],
        ),
        stage == InstallStage::CheckUvx && event == InstallEvent::Probed(true) ==> is_ready(
            r.1,
            "uvx"@,
            seq!["mcp-grafana"@],
            "uvx"@,
            "已通过官方 uvx 方式准备 mcp-grafana"@,
        ),
        stage == InstallStage::CheckUvx && event == InstallEvent::Probed(false) ==> is_probe(
            r.1,
            "go"@,
            seq!["version"@],
        ),
        stage == InstallStage::CheckGo && event == InstallEvent::Probed(false) ==> is_failure(
            r.1,
            "未找到 uvx 或 Go。请先安装 uv（推荐）或 Go，然后再次点击安装。"@,
        ),
        stage == InstallStage::CheckGo && event == InstallEvent::Probed(true) ==> r.1
            is RunGoInstall,
        event matches InstallEvent::DirectoryFailed(e) ==> is_failure(r.1, "无法创建工具目录："@ + e@),
        event matches InstallEvent::LaunchFailed(e) ==> is_failure(r.1, "无法启动 go install："@ + e@),
        event matches InstallEvent::Installed { succeeded, stderr } ==> (if succeeded {
            r.1 is LocateBinary
        } else {
            is_failure(r.1, "安装 mcp-grafana 失败："@ + trimmed(stderr@))
        }),
        event matches InstallEvent::Located { exists, path } ==> (if exists {
            is_ready(r.1, path@, seq![], "go"@, "已将官方 mcp-grafana 安装到应用工具目录"@)
        } else {
            is_failure(r.1, "go install 已完成，但没有找到 mcp-grafana 二进制文件"@)
        }),
{
    match event {
        InstallEvent::Probed(ok) => {
            match stage {
                InstallStage::CheckExisting => {
                    if ok {
                        let result = InstallResult {
                            command: String::from_str("mcp-grafana"),
                            args_prefix: Vec::new(),
                            method: String::from_str("existing"),
                            message: String::from_str("mcp-grafana 已安装，无需重复安装"),
                        };
                        assert(texts_view(result.args_prefix@) =~= seq![]);
                        (InstallStage::Done, InstallAction::Finish(Ok(result)))
                    } else {
                        (
                            InstallStage::CheckUvx,
                            InstallAction::Probe {
                                program: String::from_str("uvx"),
                                args: words2("mcp-grafana", "--help"),
                            },
                        )
                    }
                },
                InstallStage::CheckUvx => {
                    if ok {
                        let result = InstallResult {
                            command: String::from_str("uvx"),
                            args_prefix: word1("mcp-grafana"),
                            method: String::from_str("uvx"),
                            message: String::from_str("已通过官方 uvx 方式准备 mcp-grafana"),
                        };
                        (InstallStage::Done, InstallAction::Finish(Ok(result)))
                    } else {
                        (
                            InstallStage::CheckGo,
                            InstallAction::Probe {
                                program: String::from_str("go"),
                                args: word1("version"),
                            },
                        )
                    }
                },
                _ => {
                    if ok {
                        (InstallStage::Installing, InstallAction::RunGoInstall)
                    } else {
                        (
                            InstallStage::Done,
                            InstallAction::Finish(
                                Err(
                                    String::from_str(
                                        "未找到 uvx 或 Go。请先安装 uv（推荐）或 Go，然后再次点击安装。",
                                    ),
                                ),
                            ),
                        )
                    }
                },
            }
        },
        InstallEvent::DirectoryFailed(e) => (
            InstallStage::Done,
            InstallAction::Finish(Err(String::from_str("无法创建工具目录：").concat(e.as_str()))),
        ),
        InstallEvent::LaunchFailed(e) => (
            InstallStage::Done,
            InstallAction::Finish(Err(String::from_str("无法启动 go install：").concat(e.as_str()))),
        ),
        InstallEvent::Installed { succeeded, stderr } => {
            if succeeded {
                (InstallStage::Locating, InstallAction::LocateBinary)
            } else {
                let detail = trim(stderr.as_str());
                (
                    InstallStage::Done,
                    InstallAction::Finish(
                        Err(String::from_str("安装 mcp-grafana 失败：").concat(detail.as_str())),
                    ),
                )
            }
        },
        InstallEvent::Located { exists, path } => {
            if exists {
                let result = InstallResult {
                    command: path,
                    args_prefix: Vec::new(),
                    method: String::from_str("go"),
                    message: String::from_str("已将官方 mcp-grafana 安装到应用工具目录"),
                };
                assert(texts_view(result.args_prefix@) =~= seq![]);
                (InstallStage::Done, InstallAction::Finish(Ok(result)))
            } else {
                (
                    InstallStage::Done,
                    InstallAction::Finish(
                        Err(String::from_str("go install 已完成，但没有找到 mcp-grafana 二进制文件")),
                    ),
                )
            }
        },
    }
}

/// An installed binary is preferred to `uvx`, and `uvx` to a Go install: the checks run
/// in that order, and `go install` runs only after `mcp-grafana` and `uvx` were both
/// unavailable and Go was found.
pub proof fn law_install_preference(stage: InstallStage, event: InstallEvent)
    requires
        fits(stage, event),
    ensures
        next_stage(stage, event) == InstallStage::CheckUvx ==> stage == InstallStage::CheckExisting
            && event == InstallEvent::Probed(false),
        next_stage(stage, event) == InstallStage::CheckGo ==> stage == InstallStage::CheckUvx
            && event == InstallEvent::Probed(false),
        next_stage(stage, event) == InstallStage::Installing ==> stage == InstallStage::CheckGo
            && event == InstallEvent::Probed(true),
        next_stage(stage, event) == InstallStage::Locating ==> stage == InstallStage::Installing,
{
}

} // verus!
