//! Why there is no boot performance data: one verdict from two facts, the
//! policy switch (is recording allowed?) and the log (was anything
//! recorded?), each verdict with what to do next. Only reads.

use vstd::prelude::*;
use crate::diag::boot_log::{BootLogOutcome, RawEvent};
use crate::text::{chars_eq, chars_of, decimal, opt_chars, owned, push_decimal, push_str};

verus! {

/// The policy key of the boot performance diagnostic scenario.
pub const SCENARIO_KEY: &'static str = "SOFTWARE\\Policies\\Microsoft\\Windows\\WDI\\{67144949-5132-4859-8036-a737b43825d8}";

/// The policy value: 0 disabled, 1 detection and troubleshooting, 2 with repair.
pub const SCENARIO_VALUE: &'static str = "ScenarioExecutionEnabled";

/// The level turned on: detection and troubleshooting, no repair prompts.
pub const LEVEL_DETECT: u32 = 1;

pub const LEVEL_DISABLED: u32 = 0;

/// How long the policy stays changed before it is put back, in seconds.
pub const REVERT_AFTER_SECS: u64 = 900;

/// The log the verdict is about.
pub const CHANNEL: &'static str = "Microsoft-Windows-Diagnostics-Performance/Operational";

/// The state of the recording switch.
#[derive(Debug, Clone)]
pub struct BootRecordStatus {
    /// `allowed`, `disabled` or `unreadable`.
    pub state: &'static str,
    /// The explanation for the user; empty when allowed.
    pub message: String,
}

pub const DISABLED_MESSAGE: &'static str = "系统策略明确禁用了开机性能诊断，需要先恢复才能记录开机耗时。";

/// Whether the policy allows recording: a missing key or value means the
/// policy is not set, and the system records by default; only 0 disables.
pub fn policy_allows(value: Option<u32>) -> (r: bool)
    ensures
        r == (value != Some(0u32)),
{
    match value {
        Some(v) => v != 0,
        None => true,
    }
}

/// The switch's state from what the policy probe gave.
pub fn record_status(probe: Result<bool, String>) -> (r: BootRecordStatus)
    ensures
        match probe {
            Ok(true) => r.state@ == "allowed"@ && r.message@.len() == 0,
            Ok(false) => r.state@ == "disabled"@ && r.message@ == DISABLED_MESSAGE@,
            Err(e) => r.state@ == "unreadable"@ && r.message@ == "无法读取「开机记录」的开关状态："@ + e@,
        },
{
    match probe {
        Ok(true) => BootRecordStatus { state: "allowed", message: String::new() },
        Ok(false) => BootRecordStatus { state: "disabled", message: owned(DISABLED_MESSAGE) },
        Err(e) => {
            let mut m = owned("无法读取「开机记录」的开关状态：");
            push_str(&mut m, e.as_str());
            BootRecordStatus { state: "unreadable", message: m }
        },
    }
}

/// Whether turning recording on has to change the policy: only when it is
/// set to 0; an unset policy or any other level already allows it.
pub fn enable_needed(current: Option<u32>) -> (r: bool)
    ensures
        r == (current == Some(0u32)),
{
    match current {
        Some(v) => v == 0,
        None => false,
    }
}

/// Putting the policy back.
#[derive(Debug, Clone, Copy, PartialEq, Eq, Structural)]
pub enum RestoreAction {
    /// The value was not set: remove it again.
    DeleteValue,
    /// Write the level that was read back.
    SetValue(u32),
}

/// How the policy is put back exactly as it was read before recording was
/// turned on: a value that was absent is removed, any value that was set
/// (0 included, which disables recording) is written back as it was.
pub open spec fn restore_spec(original: Option<u32>) -> RestoreAction {
    match original {
        Some(v) => RestoreAction::SetValue(v),
        None => RestoreAction::DeleteValue,
    }
}

pub fn restore_action(original: Option<u32>) -> (r: RestoreAction)
    ensures
        r == restore_spec(original),
{
    match original {
        Some(v) => RestoreAction::SetValue(v),
        None => RestoreAction::DeleteValue,
    }
}

/// The verdict, with what to do next.
#[derive(Debug, Clone)]
pub struct BootPerformanceDiagnosis {
    pub verdict: &'static str,
    pub summary: String,
    pub action: &'static str,
    /// Whether the next step needs administrator rights.
    pub needs_elevation: bool,
    pub record_count: usize,
    /// When the last full boot was recorded.
    pub last_boot_at: Option<String>,
    pub channel: &'static str,
    /// The switch's state.
    pub record_switch: &'static str,
}

pub const FAST_STARTUP_SUMMARY: &'static str = "日志里有记录，但没找到开机主事件（Event 100）。这通常说明「快速启动」一直在生效——关机再开时系统没有真正跑一遍完整的引导流程，所以不写入开机性能主事件。";
pub const FAST_STARTUP_ACTION: &'static str = "用「完整重启」代替「关机再开」，或临时关闭快速启动（控制面板 → 电源选项 → 选择电源按钮的功能 → 取消勾选快速启动）。";
pub const DENIED_SUMMARY: &'static str = "Windows 没有向普通账户开放开机性能日志的读取权限，你目前以普通权限运行，读不到这个日志。";
pub const DENIED_ACTION: &'static str = "以管理员身份重新打开 BootFlow（首次打开时选择『以管理员身份运行』），启动后会自动读到开机性能数据。";
pub const POLICY_OFF_SUMMARY: &'static str = "系统策略显式关闭了开机性能诊断（ScenarioExecutionEnabled=0），所以即使重启也不会记录。";
pub const POLICY_OFF_ACTION: &'static str = "在 BootFlow 的「每次开机都记录」引导里点一键开启（会临时改回允许，15 分钟后自动还原），或自行用管理员运行 PowerShell 恢复策略值。";
pub const SWITCH_UNKNOWN_SUMMARY: &'static str = "无法读取「开机性能诊断」的开关状态（权限不足或策略键异常），同时系统日志里也没有数据。";
pub const SWITCH_UNKNOWN_ACTION: &'static str = "请以管理员身份运行 BootFlow 后重试本诊断。";
pub const NOT_YET_SUMMARY: &'static str = "系统已经允许记录，但日志里目前没有开机性能事件。Windows 通常在开机偏慢时才写入 Event 100，连续几次都很快时就会一直空白。";
pub const NOT_YET_ACTION: &'static str = "这大多不是故障。想主动让数据出现：做一次「完整重启」（不是关机再开）。重启后一般就能读到；如果仍没有，检查一下「快速启动」是否开着。";

/// The first boot event (id 100) of the log, if any.
pub open spec fn first_main(events: Seq<RawEvent>) -> Option<int>
    decreases events.len(),
{
    if events.len() == 0 {
        None
    } else if events[0].event_id == 100 {
        Some(0)
    } else {
        match first_main(events.drop_first()) {
            Some(i) => Some(i + 1),
            None => None,
        }
    }
}

/// A verdict as verdict, summary, action, elevation, count, last boot and switch.
pub type VerdictView = (Seq<char>, Seq<char>, Seq<char>, bool, nat, Option<Seq<char>>, Seq<char>);

pub open spec fn verdict_view(d: BootPerformanceDiagnosis) -> VerdictView {
    (d.verdict@, d.summary@, d.action@, d.needs_elevation, d.record_count as nat, opt_chars(d.last_boot_at), d.record_switch@)
}

/// The verdict of the two facts:
/// - events with a boot event: all is well, the last boot and the count;
/// - events without one: fast startup keeps the full boot from running;
/// - no permission: run as administrator;
/// - no events, the policy disables recording: turn it on;
/// - no events, the switch unreadable: run as administrator and retry;
/// - no events, recording allowed: nothing recorded yet, which is usual.
pub open spec fn diagnose_spec(switch: Seq<char>, outcome: BootLogOutcome) -> VerdictView {
    match outcome {
        BootLogOutcome::Events(events) => {
            let n = events@.len();
            match first_main(events@) {
                Some(i) => {
                    let at = opt_chars(events@[i].time_created);
                    let shown = match at { Some(t) => t, None => "未知"@ };
                    ("正常"@, "系统一直在记录开机性能，最近一次开机主事件："@ + shown + "（共 "@ + decimal(n) + " 条相关记录）。"@,
                        "无需操作，启动时序图已可用。"@, false, n, at, switch)
                },
                None => ("快速启动生效"@, FAST_STARTUP_SUMMARY@, FAST_STARTUP_ACTION@, false, n, None, switch),
            }
        },
        BootLogOutcome::AccessDenied => ("没有读取权限"@, DENIED_SUMMARY@, DENIED_ACTION@, true, 0, None, switch),
        BootLogOutcome::Unavailable(_) => if switch == "disabled"@ {
            ("记录被策略禁用"@, POLICY_OFF_SUMMARY@, POLICY_OFF_ACTION@, true, 0, None, switch)
        } else if switch == "unreadable"@ {
            ("开关状态无法读取"@, SWITCH_UNKNOWN_SUMMARY@, SWITCH_UNKNOWN_ACTION@, true, 0, None, switch)
        } else {
            ("还没有开机性能记录"@, NOT_YET_SUMMARY@, NOT_YET_ACTION@, false, 0, None, switch)
        },
    }
}

fn find_main(events: &Vec<RawEvent>) -> (r: Option<usize>)
    ensures
        match r {
            Some(i) => i < events@.len() && first_main(events@) == Some(i as int),
            None => first_main(events@) is None,
        },
{
    let mut i: usize = 0;
    assert(events@.skip(0) =~= events@);
    while i < events.len()
        invariant
            i <= events.len(),
            first_main(events@) == match first_main(events@.skip(i as int)) {
                Some(k) => Some(k + i),
                None => None,
            },
        decreases events.len() - i,
    {
        let ghost rest = events@.skip(i as int);
        assert(rest[0] == events@[i as int]);
        assert(rest.drop_first() =~= events@.skip(i + 1));
        if events[i].event_id == 100 {
            return Some(i);
        }
        i = i + 1;
    }
    None
}

fn diagnosis(verdict: &'static str, summary: String, action: &'static str, needs_elevation: bool, record_count: usize, last_boot_at: Option<String>, record_switch: &'static str) -> (r: BootPerformanceDiagnosis)
    ensures
        verdict_view(r) == (verdict@, summary@, action@, needs_elevation, record_count as nat, opt_chars(last_boot_at), record_switch@),
        r.channel@ == CHANNEL@,
{
    BootPerformanceDiagnosis { verdict, summary, action, needs_elevation, record_count, last_boot_at, channel: CHANNEL, record_switch }
}

/// The verdict for the switch's state and what reading the log gave.
pub fn diagnose(record_switch: &'static str, outcome: &BootLogOutcome) -> (r: BootPerformanceDiagnosis)
    ensures
        verdict_view(r) == diagnose_spec(record_switch@, *outcome),
        r.channel@ == CHANNEL@,
{
    match outcome {
        BootLogOutcome::Events(events) => {
            let n = events.len();
            match find_main(events) {
                Some(i) => {
                    let at = crate::text::owned_opt(&events[i].time_created);
                    let mut s = owned("系统一直在记录开机性能，最近一次开机主事件：");
                    match &at {
                        Some(t) => push_str(&mut s, t.as_str()),
                        None => push_str(&mut s, "未知"),
                    }
                    push_str(&mut s, "（共 ");
                    push_decimal(&mut s, n as u64);
                    push_str(&mut s, " 条相关记录）。");
                    diagnosis("正常", s, "无需操作，启动时序图已可用。", false, n, at, record_switch)
                },
                None => diagnosis("快速启动生效", owned(FAST_STARTUP_SUMMARY), FAST_STARTUP_ACTION, false, n, None, record_switch),
            }
        },
        BootLogOutcome::AccessDenied => diagnosis("没有读取权限", owned(DENIED_SUMMARY), DENIED_ACTION, true, 0, None, record_switch),
        BootLogOutcome::Unavailable(_) => {
            let sw = chars_of(record_switch);
            if chars_eq(sw.as_slice(), chars_of("disabled").as_slice()) {
                diagnosis("记录被策略禁用", owned(POLICY_OFF_SUMMARY), POLICY_OFF_ACTION, true, 0, None, record_switch)
            } else if chars_eq(sw.as_slice(), chars_of("unreadable").as_slice()) {
                diagnosis("开关状态无法读取", owned(SWITCH_UNKNOWN_SUMMARY), SWITCH_UNKNOWN_ACTION, true, 0, None, record_switch)
            } else {
                diagnosis("还没有开机性能记录", owned(NOT_YET_SUMMARY), NOT_YET_ACTION, false, 0, None, record_switch)
            }
        },
    }
}

/// A log that could not be read for lack of permission always asks for
/// administrator rights; one that was read never does.
pub proof fn lemma_elevation_only_without_permission_or_switch(switch: Seq<char>, outcome: BootLogOutcome)
    ensures
        outcome is AccessDenied ==> diagnose_spec(switch, outcome).3,
        outcome is Events ==> !diagnose_spec(switch, outcome).3,
{
}

/// Turning recording on is undone exactly: it changes the policy only when
/// the policy was read as 0, and putting it back then writes 0 again, so the
/// policy ends as it was read.
pub proof fn lemma_enable_is_undone(current: Option<u32>)
    ensures
        current == Some(0u32) ==> restore_spec(current) == RestoreAction::SetValue(LEVEL_DISABLED),
        forall|v: u32| current == Some(v) ==> restore_spec(current) == RestoreAction::SetValue(v),
{
}

} // verus!
