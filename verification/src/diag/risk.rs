//! Risk rating.
//!
//! `Locked` is not a degree of risk but a guard: such items are never
//! offered for changes, and no further reason is added to them. The other
//! levels rate the reach of an item (how many accounts and processes it
//! affects), not how suspicious it looks.

use vstd::prelude::*;
use crate::diag::codes::{GLOBAL_HOOK, IFEO_HIJACK, MANUAL_BUT_SHOULD_AUTO, OFFICE_TASKS_DISABLED, SLOW_START};
use crate::model::{
    is_broken_spec, DiagnosticInfo, ItemKind, RiskLevel, Scope, SourceKind, StartupItem,
};
use crate::text::{chars_of, eq_ignore_case, lower_seq, push_str};

verus! {

/// Severity order: `Locked` first, `Safe` last.
pub open spec fn risk_rank(l: RiskLevel) -> int {
    match l {
        RiskLevel::Locked => 0,
        RiskLevel::High => 1,
        RiskLevel::Medium => 2,
        RiskLevel::Safe => 3,
    }
}

fn risk_rank_exec(l: RiskLevel) -> (r: u8)
    ensures
        r == risk_rank(l),
{
    match l {
        RiskLevel::Locked => 0,
        RiskLevel::High => 1,
        RiskLevel::Medium => 2,
        RiskLevel::Safe => 3,
    }
}

/// Services whose loss keeps Windows from starting or logging on normally.
pub open spec fn core_services() -> Seq<Seq<char>> {
    seq![
        "RpcSs"@, "RpcEptMapper"@, "DcomLaunch"@, "BrokerInfrastructure"@, "SystemEventsBroker"@,
        "SamSs"@, "LSM"@, "ProfSvc"@, "UserManager"@, "gpsvc"@, "Power"@, "Themes"@, "EventLog"@,
        "Schedule"@, "AudioSrv"@, "AudioEndpointBuilder"@,
    ]
}

fn core_service_list() -> (r: Vec<&'static str>)
    ensures
        r@.len() == core_services().len(),
        forall|i: int| 0 <= i < r@.len() ==> (#[trigger] r@[i])@ == core_services()[i],
{
    let v: Vec<&'static str> = vec![
        "RpcSs", "RpcEptMapper", "DcomLaunch", "BrokerInfrastructure", "SystemEventsBroker",
        "SamSs", "LSM", "ProfSvc", "UserManager", "gpsvc", "Power", "Themes", "EventLog",
        "Schedule", "AudioSrv", "AudioEndpointBuilder",
    ];
    v
}

pub open spec fn is_core_service(name: Seq<char>) -> bool {
    exists|i: int| 0 <= i < core_services().len() && lower_seq(#[trigger] core_services()[i]) == lower_seq(name)
}

pub const OS_COMPONENT_REASON: &'static str = "这是 Windows 自带的组件。改动它可能影响系统启动甚至无法进桌面，因此不提供修改入口。";

pub const CORE_SERVICE_REASON: &'static str = "这是维持 Windows 正常运行的基础服务。它不是可以被安排的对象，关掉它会让系统出问题，因此不提供修改入口。";

/// Why an item is in the locked zone: a Windows component, or a core
/// service by name (ASCII case ignored).
pub open spec fn locked_reason_spec(it: StartupItem) -> Option<Seq<char>> {
    if it.signer.is_os_component {
        Some(OS_COMPONENT_REASON@)
    } else if it.source is Service && is_core_service(it.name@) {
        Some(CORE_SERVICE_REASON@)
    } else {
        None
    }
}

pub fn locked_reason(item: &StartupItem) -> (r: Option<String>)
    ensures
        match r {
            Some(s) => locked_reason_spec(*item) == Some(s@),
            None => locked_reason_spec(*item) is None,
        },
{
    if item.signer.is_os_component {
        let mut m = String::new();
        push_str(&mut m, OS_COMPONENT_REASON);
        return Some(m);
    }
    if item.source == SourceKind::Service {
        let names = core_service_list();
        let n = chars_of(item.name.as_str());
        let mut i: usize = 0;
        while i < names.len()
            invariant
                i <= names.len(),
                names@.len() == core_services().len(),
                forall|k: int| 0 <= k < names@.len() ==> (#[trigger] names@[k])@ == core_services()[k],
                n@ == item.name@,
                !item.signer.is_os_component,
                item.source is Service,
                forall|k: int| 0 <= k < i ==> lower_seq(#[trigger] core_services()[k]) != lower_seq(item.name@),
            decreases names.len() - i,
        {
            assert(names@[i as int]@ == core_services()[i as int]);
            if eq_ignore_case(chars_of(names[i]).as_slice(), n.as_slice()) {
                assert(lower_seq(core_services()[i as int]) == lower_seq(item.name@));
                assert(is_core_service(item.name@));
                let mut m = String::new();
                push_str(&mut m, CORE_SERVICE_REASON);
                assert(m@ =~= CORE_SERVICE_REASON@);
                return Some(m);
            }
            i = i + 1;
        }
    }
    None
}

/// What the hook diagnostics contribute, in order.
pub open spec fn hook_contribs(ds: Seq<DiagnosticInfo>) -> Seq<(RiskLevel, Seq<char>)>
    decreases ds.len(),
{
    if ds.len() == 0 {
        Seq::empty()
    } else {
        let d = ds.last();
        let a: Seq<(RiskLevel, Seq<char>)> = if d.code@ == GLOBAL_HOOK@ {
            seq![(RiskLevel::High, "它会被加载进其它程序里一起运行，影响范围远超它自己"@)]
        } else {
            Seq::empty()
        };
        let b: Seq<(RiskLevel, Seq<char>)> = if d.code@ == IFEO_HIJACK@ {
            seq![(RiskLevel::High, "有一个程序的启动方式被改写了——可能是调试工具，也可能是别的东西"@)]
        } else {
            Seq::empty()
        };
        hook_contribs(ds.drop_last()) + a + b
    }
}

/// What the configuration diagnostics contribute, in order.
pub open spec fn config_contribs(ds: Seq<DiagnosticInfo>) -> Seq<(RiskLevel, Seq<char>)>
    decreases ds.len(),
{
    if ds.len() == 0 {
        Seq::empty()
    } else {
        let d = ds.last();
        let a: Seq<(RiskLevel, Seq<char>)> = if d.code@ == MANUAL_BUT_SHOULD_AUTO@ {
            seq![(d.severity, "它的启动方式被改过了，和出厂状态不一致"@)]
        } else {
            Seq::empty()
        };
        let b: Seq<(RiskLevel, Seq<char>)> = if d.code@ == OFFICE_TASKS_DISABLED@ {
            seq![(RiskLevel::Medium, "它被关闭了，Office 的一些后台功能会受影响"@)]
        } else {
            Seq::empty()
        };
        config_contribs(ds.drop_last()) + a + b
    }
}

pub open spec fn has_code(ds: Seq<DiagnosticInfo>, code: Seq<char>) -> bool {
    exists|i: int| 0 <= i < ds.len() && (#[trigger] ds[i]).code@ == code
}

/// Every finding about an unlocked item with its level, in rule order.
pub open spec fn risk_contribs(it: StartupItem) -> Seq<(RiskLevel, Seq<char>)> {
    let ds = it.diagnostics@;
    (if it.kind is Hook { hook_contribs(ds) } else { Seq::empty() })
    + (if has_code(ds, SLOW_START@) {
        seq![(RiskLevel::High, "上次开机时系统实测到它启动很慢，直接拖长了开机时间"@)]
    } else {
        Seq::empty()
    })
    + config_contribs(ds)
    + (if is_broken_spec(it.validity) {
        seq![(RiskLevel::Medium, "它指向的程序已经不在电脑上了"@)]
    } else {
        Seq::empty()
    })
    + (if !it.signer.is_signed {
        if it.scope is Machine {
            seq![(RiskLevel::High, "无法核验它的发布者，而它位于对本机所有账户都生效的位置"@)]
        } else {
            seq![(RiskLevel::Medium, "无法核验它的发布者"@)]
        }
    } else {
        Seq::empty()
    })
}

/// The most serious level among the findings, `Safe` when there is none.
pub open spec fn worst_level(cs: Seq<(RiskLevel, Seq<char>)>) -> RiskLevel
    decreases cs.len(),
{
    if cs.len() == 0 {
        RiskLevel::Safe
    } else {
        let rest = worst_level(cs.drop_last());
        if risk_rank(cs.last().0) < risk_rank(rest) {
            cs.last().0
        } else {
            rest
        }
    }
}

pub open spec fn reasons_of(cs: Seq<(RiskLevel, Seq<char>)>) -> Seq<Seq<char>> {
    cs.map_values(|c: (RiskLevel, Seq<char>)| c.1)
}

pub open spec fn strings_view(v: Seq<String>) -> Seq<Seq<char>> {
    v.map_values(|s: String| s@)
}

/// What `assess` gives for an item.
pub open spec fn assessed(it: StartupItem, level: RiskLevel, reasons: Seq<Seq<char>>) -> bool {
    match locked_reason_spec(it) {
        Some(why) => level == RiskLevel::Locked && reasons == seq![why],
        None => {
            let cs = risk_contribs(it);
            &&& level == worst_level(cs)
            &&& reasons == if cs.len() == 0 {
                seq!["没有发现值得注意的地方"@]
            } else {
                reasons_of(cs)
            }
        },
    }
}

struct Findings {
    level: RiskLevel,
    reasons: Vec<String>,
    seen: Ghost<Seq<(RiskLevel, Seq<char>)>>,
}

impl Findings {
    spec fn ok(&self) -> bool {
        &&& self.level == worst_level(self.seen@)
        &&& strings_view(self.reasons@) == reasons_of(self.seen@)
    }

    fn bump(&mut self, l: RiskLevel, why: &str)
        requires
            old(self).ok(),
        ensures
            final(self).ok(),
            final(self).seen@ == old(self).seen@.push((l, why@)),
    {
        let ghost s = self.seen@;
        if risk_rank_exec(l) < risk_rank_exec(self.level) {
            self.level = l;
        }
        let mut m = String::new();
        push_str(&mut m, why);
        let ghost before = self.reasons@;
        self.reasons.push(m);
        self.seen = Ghost(s.push((l, why@)));
        assert(s.push((l, why@)).drop_last() =~= s);
        assert(strings_view(self.reasons@) =~= strings_view(before).push(why@));
        assert(reasons_of(s.push((l, why@))) =~= reasons_of(s).push(why@));
    }
}

fn code_is(d: &DiagnosticInfo, code: &str) -> (r: bool)
    ensures
        r == (d.code@ == code@),
{
    d.code == code.to_string()
}

fn add_hook_findings(f: &mut Findings, ds: &Vec<DiagnosticInfo>)
    requires
        old(f).ok(),
    ensures
        final(f).ok(),
        final(f).seen@ == old(f).seen@ + hook_contribs(ds@),
{
    let ghost dv = ds@;
    let ghost start = f.seen@;
    let mut i: usize = 0;
    assert(dv.take(0) =~= Seq::<DiagnosticInfo>::empty());
    assert(start + hook_contribs(dv.take(0)) =~= start);
    while i < ds.len()
        invariant
            i <= ds.len(),
            dv == ds@,
            f.ok(),
            f.seen@ == start + hook_contribs(dv.take(i as int)),
        decreases ds.len() - i,
    {
        assert(dv.take(i + 1).drop_last() =~= dv.take(i as int));
        if code_is(&ds[i], GLOBAL_HOOK) {
            f.bump(RiskLevel::High, "它会被加载进其它程序里一起运行，影响范围远超它自己");
        }
        if code_is(&ds[i], IFEO_HIJACK) {
            f.bump(RiskLevel::High, "有一个程序的启动方式被改写了——可能是调试工具，也可能是别的东西");
        }
        i = i + 1;
        assert(f.seen@ =~= start + hook_contribs(dv.take(i as int)));
    }
    assert(dv.take(ds.len() as int) =~= dv);
}

fn add_config_findings(f: &mut Findings, ds: &Vec<DiagnosticInfo>)
    requires
        old(f).ok(),
    ensures
        final(f).ok(),
        final(f).seen@ == old(f).seen@ + config_contribs(ds@),
{
    let ghost dv = ds@;
    let ghost start = f.seen@;
    let mut i: usize = 0;
    assert(dv.take(0) =~= Seq::<DiagnosticInfo>::empty());
    assert(start + config_contribs(dv.take(0)) =~= start);
    while i < ds.len()
        invariant
            i <= ds.len(),
            dv == ds@,
            f.ok(),
            f.seen@ == start + config_contribs(dv.take(i as int)),
        decreases ds.len() - i,
    {
        assert(dv.take(i + 1).drop_last() =~= dv.take(i as int));
        if code_is(&ds[i], MANUAL_BUT_SHOULD_AUTO) {
            f.bump(ds[i].severity, "它的启动方式被改过了，和出厂状态不一致");
        }
        if code_is(&ds[i], OFFICE_TASKS_DISABLED) {
            f.bump(RiskLevel::Medium, "它被关闭了，Office 的一些后台功能会受影响");
        }
        i = i + 1;
        assert(f.seen@ =~= start + config_contribs(dv.take(i as int)));
    }
    assert(dv.take(ds.len() as int) =~= dv);
}

/// Whether some diagnostic has the given code.
pub fn has_code_exec(ds: &Vec<DiagnosticInfo>, code: &str) -> (r: bool)
    ensures
        r == has_code(ds@, code@),
{
    let mut i: usize = 0;
    while i < ds.len()
        invariant
            i <= ds.len(),
            forall|k: int| 0 <= k < i ==> (#[trigger] ds@[k]).code@ != code@,
        decreases ds.len() - i,
    {
        if code_is(&ds[i], code) {
            assert(ds@[i as int].code@ == code@);
            return true;
        }
        i = i + 1;
    }
    false
}

fn finish(f: Findings, ghost_item: Ghost<StartupItem>) -> (r: (RiskLevel, Vec<String>))
    requires
        f.ok(),
        f.seen@ == risk_contribs(ghost_item@),
        locked_reason_spec(ghost_item@) is None,
    ensures
        assessed(ghost_item@, r.0, strings_view(r.1@)),
{
    let ghost seen = f.seen@;
    assert(reasons_of(seen).len() == seen.len());
    assert(strings_view(f.reasons@).len() == f.reasons@.len());
    if f.reasons.len() == 0 {
        let mut v: Vec<String> = Vec::new();
        let mut m = String::new();
        push_str(&mut m, "没有发现值得注意的地方");
        v.push(m);
        assert(strings_view(v@) =~= seq!["没有发现值得注意的地方"@]);
        return (f.level, v);
    }
    (f.level, f.reasons)
}

/// Rates an item: the level of its most serious finding and every finding
/// in plain words; a locked item gets its one reason and nothing else.
pub fn assess(item: &StartupItem) -> (r: (RiskLevel, Vec<String>))
    ensures
        assessed(*item, r.0, strings_view(r.1@)),
{
    match locked_reason(item) {
        Some(why) => {
            let mut v: Vec<String> = Vec::new();
            v.push(why);
            assert(strings_view(v@) =~= seq![v@[0]@]);
            return (RiskLevel::Locked, v);
        },
        None => {},
    }
    let mut f = Findings { level: RiskLevel::Safe, reasons: Vec::new(), seen: Ghost(Seq::empty()) };
    assert(strings_view(f.reasons@) =~= reasons_of(f.seen@));
    let ghost s0 = f.seen@;
    if item.kind == ItemKind::Hook {
        add_hook_findings(&mut f, &item.diagnostics);
    }
    let ghost s1 = f.seen@;
    if has_code_exec(&item.diagnostics, SLOW_START) {
        f.bump(RiskLevel::High, "上次开机时系统实测到它启动很慢，直接拖长了开机时间");
    }
    let ghost s2 = f.seen@;
    add_config_findings(&mut f, &item.diagnostics);
    let ghost s3 = f.seen@;
    if item.validity.is_broken() {
        f.bump(RiskLevel::Medium, "它指向的程序已经不在电脑上了");
    }
    let ghost s4 = f.seen@;
    if !item.signer.is_signed {
        if item.scope == Scope::Machine {
            f.bump(RiskLevel::High, "无法核验它的发布者，而它位于对本机所有账户都生效的位置");
        } else {
            f.bump(RiskLevel::Medium, "无法核验它的发布者");
        }
    }
    assert(f.seen@ =~= risk_contribs(*item));
    finish(f, Ghost(*item))
}

// ───────────────────────── laws ─────────────────────────

/// The level of a rating is the most serious level among its findings,
/// whatever the order of the rules or of the diagnostics: no finding is
/// more serious, and the level is `Safe` or one of the findings' levels.
pub proof fn lemma_worst_level_is_most_serious(cs: Seq<(RiskLevel, Seq<char>)>)
    ensures
        forall|i: int| 0 <= i < cs.len() ==> risk_rank(worst_level(cs)) <= risk_rank(#[trigger] cs[i].0),
        worst_level(cs) == RiskLevel::Safe || exists|i: int| 0 <= i < cs.len() && (#[trigger] cs[i]).0 == worst_level(cs),
    decreases cs.len(),
{
    if cs.len() > 0 {
        lemma_worst_level_is_most_serious(cs.drop_last());
        let rest = cs.drop_last();
        assert forall|i: int| 0 <= i < cs.len() implies risk_rank(worst_level(cs)) <= risk_rank(#[trigger] cs[i].0) by {
            if i < cs.len() - 1 {
                assert(cs[i] == rest[i]);
            }
        }
        if worst_level(cs) != RiskLevel::Safe {
            if worst_level(cs) == cs.last().0 {
                assert(cs[cs.len() - 1].0 == worst_level(cs));
            } else {
                let i = choose|i: int| 0 <= i < rest.len() && (#[trigger] rest[i]).0 == worst_level(rest);
                assert(cs[i] == rest[i]);
            }
        }
    }
}

/// A rating always comes with at least one reason.
pub proof fn lemma_reasons_never_empty(it: StartupItem, level: RiskLevel, reasons: Seq<Seq<char>>)
    requires
        assessed(it, level, reasons),
    ensures
        reasons.len() > 0,
{
}

} // verus!
