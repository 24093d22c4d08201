//! Reference tables of what is known to be the factory state.
//!
//! Each entry must be checkable on a clean system: its factory default is
//! clear, changing it has a concrete consequence, and tuning tools do change
//! it. Services that are manual by design (`BITS`, `wuauserv`) are not
//! listed, or every normal machine would get a false alarm.

use vstd::prelude::*;
use crate::model::RiskLevel;
use crate::text::{chars_of, eq_ignore_case, lower_seq};

verus! {

/// A service whose factory start type is automatic.
#[derive(Debug, Clone, Copy)]
pub struct KnownAutoService {
    /// The service name (`SERVICE_NAME`, not the display name).
    pub name: &'static str,
    /// The factory start type, said to the user as the reason.
    pub default_start: &'static str,
    /// What it does, in plain words.
    pub purpose: &'static str,
    /// What concretely happens when it is set to manual or disabled.
    pub consequence: &'static str,
    pub severity: RiskLevel,
}

/// The names of the services that should start automatically, in table order.
pub open spec fn auto_service_names() -> Seq<Seq<char>> {
    seq!["ClickToRunSvc"@, "WinDefend"@, "wscsvc"@, "Schedule"@, "EventLog"@]
}

/// Their severities, in the same order.
pub open spec fn auto_service_severities() -> Seq<RiskLevel> {
    seq![RiskLevel::Medium, RiskLevel::High, RiskLevel::High, RiskLevel::High, RiskLevel::High]
}

/// The rows of the table, as characters: name, default start, purpose,
/// consequence.
pub open spec fn auto_service_texts() -> Seq<(Seq<char>, Seq<char>, Seq<char>, Seq<char>)> {
    seq![
        ("ClickToRunSvc"@, "自动（延迟启动）"@, "让 Microsoft Office 按需启动与更新"@,
            "开机是快了一点，但每次第一次打开 Office 都要等它爬起来，会明显卡顿；Office 的自动更新也会一并停掉"@),
        ("WinDefend"@, "自动"@, "Microsoft Defender 防病毒的实时防护"@,
            "这台电脑在开机后的一段时间里没有实时病毒防护"@),
        ("wscsvc"@, "自动（延迟启动）"@, "安全中心——汇总并上报杀毒、防火墙、更新状态"@,
            "安全中心不再工作，Windows 设置里会显示「你的设备可能存在风险」"@),
        ("Schedule"@, "自动"@, "任务计划程序——所有计划任务（含系统维护、驱动更新）都由它调起"@,
            "所有计划任务都不会按时运行，包括磁盘检查与系统维护"@),
        ("EventLog"@, "自动"@, "Windows 事件日志"@, "系统无法记录事件，出问题时没有任何日志可查"@),
    ]
}

pub open spec fn auto_row(k: KnownAutoService, i: int) -> bool {
    &&& (k.name@, k.default_start@, k.purpose@, k.consequence@) == auto_service_texts()[i]
    &&& k.severity == auto_service_severities()[i]
}

/// The services that are worth pointing out when they do not start
/// automatically. The table stays silent on a normal machine.
pub fn should_be_auto_services() -> (r: Vec<KnownAutoService>)
    ensures
        r@.len() == 5,
        forall|i: int| 0 <= i < 5 ==> auto_row(#[trigger] r@[i], i),
{
    let mut v: Vec<KnownAutoService> = Vec::new();
    v.push(KnownAutoService {
        name: "ClickToRunSvc",
        default_start: "自动（延迟启动）",
        purpose: "让 Microsoft Office 按需启动与更新",
        consequence: "开机是快了一点，但每次第一次打开 Office 都要等它爬起来，会明显卡顿；Office 的自动更新也会一并停掉",
        severity: RiskLevel::Medium,
    });
    v.push(KnownAutoService {
        name: "WinDefend",
        default_start: "自动",
        purpose: "Microsoft Defender 防病毒的实时防护",
        consequence: "这台电脑在开机后的一段时间里没有实时病毒防护",
        severity: RiskLevel::High,
    });
    v.push(KnownAutoService {
        name: "wscsvc",
        default_start: "自动（延迟启动）",
        purpose: "安全中心——汇总并上报杀毒、防火墙、更新状态",
        consequence: "安全中心不再工作，Windows 设置里会显示「你的设备可能存在风险」",
        severity: RiskLevel::High,
    });
    v.push(KnownAutoService {
        name: "Schedule",
        default_start: "自动",
        purpose: "任务计划程序——所有计划任务（含系统维护、驱动更新）都由它调起",
        consequence: "所有计划任务都不会按时运行，包括磁盘检查与系统维护",
        severity: RiskLevel::High,
    });
    v.push(KnownAutoService {
        name: "EventLog",
        default_start: "自动",
        purpose: "Windows 事件日志",
        consequence: "系统无法记录事件，出问题时没有任何日志可查",
        severity: RiskLevel::High,
    });
    v
}

/// The first row, from `i` on, whose service name equals `name`
/// ignoring ASCII case.
pub open spec fn auto_index_from(name: Seq<char>, i: int) -> Option<int>
    decreases 5 - i,
{
    if i < 0 || i >= 5 {
        None
    } else if lower_seq(auto_service_names()[i]) == lower_seq(name) {
        Some(i)
    } else {
        auto_index_from(name, i + 1)
    }
}

/// The row of a service, by name ignoring ASCII case.
pub open spec fn auto_index(name: Seq<char>) -> Option<int> {
    auto_index_from(name, 0)
}

proof fn lemma_auto_index_from(name: Seq<char>, i: int)
    requires
        0 <= i <= 5,
    ensures
        auto_index_from(name, i) is None <==> (forall|j: int| i <= j < 5 ==> lower_seq(#[trigger] auto_service_names()[j]) != lower_seq(name)),
        auto_index_from(name, i) matches Some(k) ==> i <= k < 5,
    decreases 5 - i,
{
    if i < 5 {
        lemma_auto_index_from(name, i + 1);
    }
}

/// Looks a service up by name, ignoring ASCII case.
pub fn lookup_auto_service(name: &str) -> (r: Option<KnownAutoService>)
    ensures
        match r {
            Some(k) => exists|i: int| 0 <= i < 5 && #[trigger] auto_row(k, i) && lower_seq(
                auto_service_names()[i],
            ) == lower_seq(name@) && auto_index(name@) == Some(i),
            None => forall|i: int| 0 <= i < 5 ==> lower_seq(#[trigger] auto_service_names()[i])
                != lower_seq(name@),
        },
        r is None <==> auto_index(name@) is None,
{
    proof {
        lemma_auto_index_from(name@, 0);
    }
    let table = should_be_auto_services();
    let n = chars_of(name);
    let mut i: usize = 0;
    while i < table.len()
        invariant
            i <= table.len(),
            table@.len() == 5,
            n@ == name@,
            forall|j: int| 0 <= j < 5 ==> auto_row(#[trigger] table@[j], j),
            forall|j: int| 0 <= j < i ==> lower_seq(#[trigger] auto_service_names()[j]) != lower_seq(name@),
            auto_index(name@) == auto_index_from(name@, i as int),
        decreases table.len() - i,
    {
        let k = table[i];
        assert(auto_row(table@[i as int], i as int));
        assert(k.name@ == auto_service_names()[i as int]);
        if eq_ignore_case(chars_of(k.name).as_slice(), n.as_slice()) {
            return Some(k);
        }
        i = i + 1;
    }
    proof {
        lemma_auto_index_from(name@, 0);
    }
    None
}

/// A scheduled task that is enabled by default.
#[derive(Debug, Clone, Copy)]
pub struct KnownEnabledTask {
    /// The task's full path.
    pub path: &'static str,
    /// What it does, in plain words.
    pub purpose: &'static str,
}

/// Paths and purposes of Office's background tasks.
pub open spec fn office_task_texts() -> Seq<(Seq<char>, Seq<char>)> {
    seq![
        ("\\Microsoft\\Office\\Office Automatic Updates 2.0"@, "检查并下载 Office 更新"@),
        ("\\Microsoft\\Office\\Office Feature Updates Logon"@, "登录后补齐 Office 功能更新"@),
        ("\\Microsoft\\Office\\Office Background Push Maintenance"@, "维护 Office 的后台推送通道"@),
        ("\\Microsoft\\Office\\Office Actions Server"@, "为 Office 提供后台动作服务"@),
        ("\\Microsoft\\Office\\Office Startup Maintenance"@, "启动时整理 Office 的缓存与组件"@),
    ]
}

/// The background tasks that Microsoft Office installs. Turning them off is
/// often deliberate, so they are described, not flagged as broken.
pub fn office_background_tasks() -> (r: Vec<KnownEnabledTask>)
    ensures
        r@.len() == 5,
        forall|i: int| 0 <= i < 5 ==> ((#[trigger] r@[i]).path@, r@[i].purpose@) == office_task_texts()[i],
{
    let mut v: Vec<KnownEnabledTask> = Vec::new();
    v.push(KnownEnabledTask { path: "\\Microsoft\\Office\\Office Automatic Updates 2.0", purpose: "检查并下载 Office 更新" });
    v.push(KnownEnabledTask { path: "\\Microsoft\\Office\\Office Feature Updates Logon", purpose: "登录后补齐 Office 功能更新" });
    v.push(KnownEnabledTask { path: "\\Microsoft\\Office\\Office Background Push Maintenance", purpose: "维护 Office 的后台推送通道" });
    v.push(KnownEnabledTask { path: "\\Microsoft\\Office\\Office Actions Server", purpose: "为 Office 提供后台动作服务" });
    v.push(KnownEnabledTask { path: "\\Microsoft\\Office\\Office Startup Maintenance", purpose: "启动时整理 Office 的缓存与组件" });
    v
}

/// Whether `path` names one of Office's background tasks, ignoring ASCII case.
pub open spec fn is_office_task(path: Seq<char>) -> bool {
    exists|i: int| 0 <= i < 5 && lower_seq(#[trigger] office_task_texts()[i].0) == lower_seq(path)
}

/// The first Office background task, from row `i` on, whose path equals
/// `path` ignoring ASCII case.
pub open spec fn office_entry_from(path: Seq<char>, i: int) -> Option<(Seq<char>, Seq<char>)>
    decreases 5 - i,
{
    if i < 0 || i >= 5 {
        None
    } else if lower_seq(office_task_texts()[i].0) == lower_seq(path) {
        Some(office_task_texts()[i])
    } else {
        office_entry_from(path, i + 1)
    }
}

/// The Office background task with this path, ignoring ASCII case.
pub open spec fn office_entry(path: Seq<char>) -> Option<(Seq<char>, Seq<char>)> {
    office_entry_from(path, 0)
}

proof fn lemma_office_entry_from(path: Seq<char>, i: int)
    requires
        0 <= i <= 5,
    ensures
        office_entry_from(path, i) is None <==> (forall|j: int| i <= j < 5 ==> lower_seq(#[trigger] office_task_texts()[j].0) != lower_seq(path)),
    decreases 5 - i,
{
    if i < 5 {
        lemma_office_entry_from(path, i + 1);
    }
}

/// Looks an Office background task up by its full path, ignoring ASCII
/// case; sub-paths and prefixes do not match.
pub fn lookup_office_task(path: &str) -> (r: Option<KnownEnabledTask>)
    ensures
        match r {
            Some(k) => office_entry(path@) == Some((k.path@, k.purpose@)),
            None => office_entry(path@) is None,
        },
        r is Some <==> is_office_task(path@),
{
    let table = office_background_tasks();
    let p = chars_of(path);
    let mut i: usize = 0;
    proof {
        lemma_office_entry_from(path@, 0);
    }
    while i < table.len()
        invariant
            i <= table.len(),
            table@.len() == 5,
            p@ == path@,
            forall|j: int| 0 <= j < 5 ==> ((#[trigger] table@[j]).path@, table@[j].purpose@) == office_task_texts()[j],
            forall|j: int| 0 <= j < i ==> lower_seq(#[trigger] office_task_texts()[j].0) != lower_seq(path@),
            office_entry(path@) == office_entry_from(path@, i as int),
        decreases table.len() - i,
    {
        let k = table[i];
        assert(((table@[i as int]).path@, table@[i as int].purpose@) == office_task_texts()[i as int]);
        if eq_ignore_case(chars_of(k.path).as_slice(), p.as_slice()) {
            return Some(k);
        }
        i = i + 1;
    }
    proof {
        lemma_office_entry_from(path@, 5);
    }
    None
}

/// An Office background task disabled at the task level (a disabled
/// trigger does not count).
pub fn is_office_task_disabled(task_path: &str, task_enabled: bool) -> (r: bool)
    ensures
        r == (is_office_task(task_path@) && !task_enabled),
{
    match lookup_office_task(task_path) {
        Some(_) => !task_enabled,
        None => false,
    }
}

} // verus!
