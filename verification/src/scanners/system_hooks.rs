//! Hooks: code that Windows loads into other processes, or that takes the
//! place of a program when it starts.
//!
//! An `AppInit_DLLs` value is not an active hook: the `LoadAppInit_DLLs`
//! switch decides, and a missing switch is off. Its paths are 8.3 short
//! names by design (the list is separated by blanks), shown in long form.
//! Reading the registry is the caller's; the items are made here.

use vstd::prelude::*;
use crate::diag::codes;
use crate::diag::item_cost::{diag_views, DiagView};
use crate::model::{
    derive_kind_spec, BootPhase, DiagnosticInfo, ItemKind, RiskLevel, Scope, SourceDetail, SourceKind, StartupItem,
    ValidityStatus,
};
use crate::scanners::builder::{fresh_item, FileMeta, ItemBuilder};
use crate::text::{
    after_last, after_last_exec, chars_of, decimal, has_char, opt_chars, owned, push_decimal,
    push_str, slice_of, starts_with, starts_with_exec, string_of, two_chars,
};

verus! {

/// One reading of the `AppInit_DLLs` configuration in one registry view.
#[derive(Debug, Clone)]
pub struct AppInitEntry {
    pub dll: String,
    /// `LoadAppInit_DLLs`; `None` when the value is absent.
    pub load_enabled: Option<u32>,
    /// Whether this is the 32-bit view's copy.
    pub is_32bit: bool,
}

impl AppInitEntry {
    /// Whether the injection really takes effect: only when
    /// `LoadAppInit_DLLs` is present and not 0. An absent value was never
    /// switched on.
    pub fn is_active(&self) -> (r: bool)
        ensures
            r == (self.load_enabled matches Some(v) && v != 0),
    {
        match self.load_enabled {
            Some(v) => v != 0,
            None => false,
        }
    }
}

/// Where the configuration lives (the 32-bit copy is reached by the
/// registry's redirection, not by a path).
pub const APPINIT_KEY: &'static str = "SOFTWARE\\Microsoft\\Windows NT\\CurrentVersion\\Windows";

/// Where program start rewrites live.
pub const IFEO_KEY: &'static str = "SOFTWARE\\Microsoft\\Windows NT\\CurrentVersion\\Image File Execution Options";

/// The path shown for a DLL: a short name (with `~`) in its long form when
/// it could be resolved, without the `\\?\` prefix; as written otherwise.
pub open spec fn long_path_spec(path: Seq<char>, resolved: Option<Seq<char>>) -> Seq<char> {
    if !path.contains('~') {
        path
    } else {
        match resolved {
            Some(c) => if starts_with(c, "\\\\?\\"@) { c.skip(4) } else { c },
            None => path,
        }
    }
}

/// Whether a path is worth resolving: only 8.3 short names are.
pub fn needs_long_name(path: &str) -> (r: bool)
    ensures
        r == path@.contains('~'),
{
    let v = chars_of(path);
    has_char(v.as_slice(), '~')
}

/// The path shown, given what resolving it gave (`None`: not found).
pub fn long_path_of(path: &str, resolved: Option<String>) -> (r: String)
    ensures
        r@ == long_path_spec(path@, opt_chars(resolved)),
{
    proof {
        reveal_strlit("\\\\?\\");
    }
    if !needs_long_name(path) {
        return owned(path);
    }
    match resolved {
        Some(c) => {
            let v = chars_of(c.as_str());
            if starts_with_exec(v.as_slice(), chars_of("\\\\?\\").as_slice()) {
                string_of(slice_of(v.as_slice(), 4, v.len()).as_slice())
            } else {
                c
            }
        },
        None => owned(path),
    }
}

pub const GLOBAL_HOOK_TEXT: &'static str = "这段代码不是一个独立程序，而是会被装进每一个带界面的程序里一起运行。它的影响范围是这台电脑上几乎所有软件——出问题时影响面也一样大。";
pub const HOOK_OFF_TEXT: &'static str = "这里登记了一段要被装进其它程序的代码，但**注入开关是关闭的**，它现在不会生效。多半是某个程序卸载时留下没清干净的记录。";
pub const HOOK_ON_SUMMARY: &'static str = "它会被加载进几乎所有带界面的程序";
pub const HOOK_OFF_SUMMARY: &'static str = "这里有一段注入记录，但注入开关是关的，当前不生效";

/// What every hook item has in common: a system hook, enabled or not as
/// given, validity unknown (it is loaded, not started), with the file's
/// own name and signature.
pub open spec fn hook_item(
    r: StartupItem,
    name: Seq<char>,
    location: Seq<char>,
    command: Seq<char>,
    target: Seq<char>,
    enabled: bool,
    phase: BootPhase,
    diags: Seq<DiagView>,
    summary: Seq<char>,
    meta: FileMeta,
) -> bool {
    &&& r.source == SourceKind::SystemHook
    &&& r.kind == ItemKind::Hook
    &&& r.name@ == name
    &&& r.location@ == location
    &&& r.command@ == command
    &&& r.resolved_path@ == target
    &&& r.enabled == enabled
    &&& r.boot_phase == phase
    &&& diag_views(r.diagnostics@) == diags
    &&& opt_chars(r.summary) == Some(summary)
    &&& r.validity == ValidityStatus::Unknown
    &&& r.display_name == meta.display_name
    &&& r.name_from == meta.name_from
    &&& r.validity_detail is None
    &&& r.scope == Scope::User
    &&& r.signer.is_os_component == meta.signer.is_os_component
    &&& r.raw.start_type is None && r.raw.task_enabled is None && r.raw.trigger_enabled is None
        && r.raw.value_name is None
    &&& fresh_item(r, meta)
}

pub open spec fn appinit_diag(e: AppInitEntry) -> DiagView {
    let load = match e.load_enabled { Some(v) => v, None => 0 };
    if e.load_enabled matches Some(v) && v != 0 {
        (codes::GLOBAL_HOOK@, RiskLevel::High, GLOBAL_HOOK_TEXT@,
            Some("AppInit_DLLs = "@ + e.dll@ + "，LoadAppInit_DLLs = "@ + decimal(load as nat)))
    } else {
        (codes::HOOK_NOT_ACTIVE@, RiskLevel::Safe, HOOK_OFF_TEXT@,
            Some("AppInit_DLLs = "@ + e.dll@ + "，LoadAppInit_DLLs = "@ + decimal(load as nat) + "（0 表示未启用）"@))
    }
}

pub open spec fn view_word(is_32bit: bool) -> Seq<char> {
    if is_32bit { "32 位"@ } else { "64 位"@ }
}

fn diag_of(code: &str, severity: RiskLevel, message: String, evidence: Option<String>) -> (d: DiagnosticInfo)
    ensures
        crate::scanners::scheduled_task::diag_view(d) == (code@, severity, message@, opt_chars(evidence)),
{
    DiagnosticInfo { code: owned(code), severity, message, evidence }
}

fn finish(b: ItemBuilder, meta: FileMeta, summary: &str) -> (r: StartupItem)
    requires
        b.source == SourceKind::SystemHook,
    ensures
        r.source == SourceKind::SystemHook,
        r.kind == ItemKind::Hook,
        r.name == b.name,
        r.location == b.location,
        r.command == b.command,
        r.resolved_path == b.resolved_path,
        r.args == b.args,
        r.enabled == b.enabled,
        r.boot_phase == b.boot_phase,
        r.diagnostics == b.diagnostics,
        opt_chars(r.summary) == Some(summary@),
        r.validity == ValidityStatus::Unknown,
        r.validity_detail is None,
        r.display_name == (match b.display_name { Some((n, _)) => Some(n), None => meta.display_name }),
        r.name_from == (match b.display_name { Some((_, f)) => Some(f), None => meta.name_from }),
        r.scope == b.scope,
        r.raw == b.raw,
        r.signer.is_os_component == (meta.signer.is_os_component || b.force_os_component),
        fresh_item(r, meta),
{
    let mut item = b.build(meta);
    item.summary = Some(owned(summary));
    item.validity = ValidityStatus::Unknown;
    item.validity_detail = None;
    item
}

/// An `AppInit_DLLs` entry as an item, given the DLL's path as shown and
/// what was read from that file. An active one is a high-risk note; an
/// inactive one says that the switch is off (reporting it as an active
/// hook would be a false alarm).
pub fn build_appinit_item(entry: &AppInitEntry, long_path: String, meta: FileMeta) -> (r: Option<StartupItem>)
    ensures
        r matches Some(item) && hook_item(
            item,
            after_last(long_path@, seq!['\\', '/']),
            "系统全局注入 · AppInit_DLLs（"@ + view_word(entry.is_32bit) + "程序）"@,
            entry.dll@,
            long_path@,
            entry.load_enabled matches Some(v) && v != 0,
            BootPhase::UserInit,
            seq![appinit_diag(*entry)],
            if entry.load_enabled matches Some(v) && v != 0 { HOOK_ON_SUMMARY@ } else { HOOK_OFF_SUMMARY@ },
            meta,
        ) && item.display_name == meta.display_name && item.args@.len() == 0
            && (item.raw.detail matches SourceDetail::AppInit { dll, load_enabled, is_32bit }
            && dll@ == entry.dll@ && load_enabled == entry.load_enabled && is_32bit == entry.is_32bit),
{
    let active = entry.is_active();
    let seps = two_chars('\\', '/');
    let file_name = string_of(after_last_exec(chars_of(long_path.as_str()).as_slice(), seps.as_slice()).as_slice());
    let mut location = owned("系统全局注入 · AppInit_DLLs（");
    push_str(&mut location, if entry.is_32bit { "32 位" } else { "64 位" });
    push_str(&mut location, "程序）");
    let load: u32 = match entry.load_enabled {
        Some(v) => v,
        None => 0,
    };
    let mut evidence = owned("AppInit_DLLs = ");
    push_str(&mut evidence, entry.dll.as_str());
    push_str(&mut evidence, "，LoadAppInit_DLLs = ");
    push_decimal(&mut evidence, load as u64);
    let d = if active {
        diag_of(codes::GLOBAL_HOOK, RiskLevel::High, owned(GLOBAL_HOOK_TEXT), Some(evidence))
    } else {
        push_str(&mut evidence, "（0 表示未启用）");
        diag_of(codes::HOOK_NOT_ACTIVE, RiskLevel::Safe, owned(HOOK_OFF_TEXT), Some(evidence))
    };
    let mut b = ItemBuilder::new(SourceKind::SystemHook, file_name);
    b.location = location;
    b.command = owned(entry.dll.as_str());
    b.resolved_path = long_path;
    b.enabled = active;
    b.boot_phase = BootPhase::UserInit;
    b.raw.detail = SourceDetail::AppInit { dll: owned(entry.dll.as_str()), load_enabled: entry.load_enabled, is_32bit: entry.is_32bit };
    let mut ds: Vec<DiagnosticInfo> = Vec::new();
    ds.push(d);
    assert(diag_views(ds@) =~= seq![appinit_diag(*entry)]);
    b.diagnostics = ds;
    let item = finish(b, meta, if active { HOOK_ON_SUMMARY } else { HOOK_OFF_SUMMARY });
    Some(item)
}

/// An `Image File Execution Options` debugger as an item: starting
/// `exe_name` runs the debugger instead. It is always a high-risk note
/// (debuggers and malware use it alike). `target` and `args` are the
/// debugger command split into program and arguments.
pub fn build_ifeo_debugger_item(exe_name: &str, debugger: &str, target: String, args: Vec<String>, meta: FileMeta) -> (r: StartupItem)
    ensures
        hook_item(
            r,
            exe_name@,
            "程序启动改写 · 当 "@ + exe_name@ + " 启动时"@,
            debugger@,
            target@,
            true,
            BootPhase::Unknown,
            seq![(codes::IFEO_HIJACK@, RiskLevel::High,
                "有人改写了 "@ + exe_name@ + " 的启动方式：它被启动时，实际运行的是上面那个程序。调试工具与恶意软件都会用这个机制，所以值得你确认一下是不是自己装的。"@,
                Some("Debugger = "@ + debugger@))],
            exe_name@ + " 的启动被指向了另一个程序"@,
            meta,
        ),
        r.args == args,
        r.raw.detail matches SourceDetail::IfeoDebugger { target_exe, debugger: d }
            && target_exe@ == exe_name@ && d@ == debugger@,
{
    let mut location = owned("程序启动改写 · 当 ");
    push_str(&mut location, exe_name);
    push_str(&mut location, " 启动时");
    let mut msg = owned("有人改写了 ");
    push_str(&mut msg, exe_name);
    push_str(&mut msg, " 的启动方式：它被启动时，实际运行的是上面那个程序。调试工具与恶意软件都会用这个机制，所以值得你确认一下是不是自己装的。");
    let mut evidence = owned("Debugger = ");
    push_str(&mut evidence, debugger);
    let mut summary = owned(exe_name);
    push_str(&mut summary, " 的启动被指向了另一个程序");
    let mut b = ItemBuilder::new(SourceKind::SystemHook, owned(exe_name));
    b.location = location;
    b.command = owned(debugger);
    b.resolved_path = target;
    b.args = args;
    b.enabled = true;
    b.boot_phase = BootPhase::Unknown;
    b.raw.detail = SourceDetail::IfeoDebugger { target_exe: owned(exe_name), debugger: owned(debugger) };
    let mut ds: Vec<DiagnosticInfo> = Vec::new();
    ds.push(diag_of(codes::IFEO_HIJACK, RiskLevel::High, msg, Some(evidence)));
    b.diagnostics = ds;
    let ghost d0 = diag_views(b.diagnostics@);
    assert(d0 =~= seq![(codes::IFEO_HIJACK@, RiskLevel::High,
        "有人改写了 "@ + exe_name@ + " 的启动方式：它被启动时，实际运行的是上面那个程序。调试工具与恶意软件都会用这个机制，所以值得你确认一下是不是自己装的。"@,
        Some("Debugger = "@ + debugger@))]);
    let item = finish(b, meta, summary.as_str());
    item
}

/// A CPU priority class in plain words.
pub open spec fn cpu_phrase_spec(cpu: Option<u32>) -> Seq<char> {
    match cpu {
        Some(1) => "最低（Idle）"@,
        Some(2) => "普通（Normal）"@,
        Some(3) => "高（High）"@,
        Some(4) => "实时（RealTime）"@,
        Some(_) => "未知档位"@,
        None => "未设置"@,
    }
}

pub fn cpu_phrase(cpu: Option<u32>) -> (r: &'static str)
    ensures
        r@ == cpu_phrase_spec(cpu),
{
    match cpu {
        Some(1) => "最低（Idle）",
        Some(2) => "普通（Normal）",
        Some(3) => "高（High）",
        Some(4) => "实时（RealTime）",
        Some(_) => "未知档位",
        None => "未设置",
    }
}

pub open spec fn opt_number(v: Option<u32>) -> Seq<char> {
    match v {
        Some(x) => decimal(x as nat),
        None => "-"@,
    }
}

fn push_opt_number(s: &mut String, v: Option<u32>)
    ensures
        final(s)@ == old(s)@ + opt_number(v),
{
    match v {
        Some(x) => push_decimal(s, x as u64),
        None => push_str(s, "-"),
    }
}

/// The note of a priority rewrite: real time is the one level never to
/// use (it takes the processor even from the sound driver); any other is
/// worth checking.
pub open spec fn priority_diag(exe: Seq<char>, cpu: Option<u32>, io: Option<u32>, page: Option<u32>) -> DiagView {
    (
        codes::IFEO_PRIORITY@,
        if cpu == Some(4u32) { RiskLevel::High } else { RiskLevel::Medium },
        if cpu == Some(4u32) {
            exe + " 被设成了「实时」优先级。这一档会让它抢在所有程序——包括声卡驱动——之前占用处理器，典型后果是音频爆音、鼠标卡顿，严重时整个系统失去响应。这是所有优先级设置里唯一不建议使用的一档。"@
        } else {
            exe + " 每次启动时都会被自动设成「"@ + cpu_phrase_spec(cpu) + "」优先级。这通常是为了让它跑得更顺（或者更不打扰），但如果不是你特意设的，建议确认一下来源。"@
        },
        Some("CpuPriorityClass="@ + opt_number(cpu) + "，IoPriority="@ + opt_number(io) + "，PagePriority="@ + opt_number(page)),
    )
}

/// An `Image File Execution Options` priority rewrite as an item; `None`
/// when no priority is set.
pub fn build_ifeo_priority_item(exe_name: &str, cpu: Option<u32>, io: Option<u32>, page: Option<u32>, meta: FileMeta) -> (r: Option<StartupItem>)
    ensures
        (cpu is None && io is None && page is None) <==> r is None,
        r matches Some(item) ==> hook_item(
            item,
            exe_name@,
            "程序启动改写 · "@ + exe_name@ + " 的优先级"@,
            exe_name@,
            Seq::empty(),
            true,
            BootPhase::Unknown,
            seq![priority_diag(exe_name@, cpu, io, page)],
            "启动 "@ + exe_name@ + " 时会被自动设为"@ + cpu_phrase_spec(cpu) + "优先级"@,
            meta,
        ) && item.args@.len() == 0
            && (item.raw.detail matches SourceDetail::IfeoPriority { target_exe, cpu: c, io: i, page: p }
            && target_exe@ == exe_name@ && c == cpu && i == io && p == page),
{
    if cpu.is_none() && io.is_none() && page.is_none() {
        return None;
    }
    let realtime = match cpu {
        Some(v) => v == 4,
        None => false,
    };
    let phrase = cpu_phrase(cpu);
    let mut msg = owned(exe_name);
    if realtime {
        push_str(&mut msg, " 被设成了「实时」优先级。这一档会让它抢在所有程序——包括声卡驱动——之前占用处理器，典型后果是音频爆音、鼠标卡顿，严重时整个系统失去响应。这是所有优先级设置里唯一不建议使用的一档。");
    } else {
        push_str(&mut msg, " 每次启动时都会被自动设成「");
        push_str(&mut msg, phrase);
        push_str(&mut msg, "」优先级。这通常是为了让它跑得更顺（或者更不打扰），但如果不是你特意设的，建议确认一下来源。");
    }
    let mut evidence = owned("CpuPriorityClass=");
    push_opt_number(&mut evidence, cpu);
    push_str(&mut evidence, "，IoPriority=");
    push_opt_number(&mut evidence, io);
    push_str(&mut evidence, "，PagePriority=");
    push_opt_number(&mut evidence, page);
    let mut location = owned("程序启动改写 · ");
    push_str(&mut location, exe_name);
    push_str(&mut location, " 的优先级");
    let mut summary = owned("启动 ");
    push_str(&mut summary, exe_name);
    push_str(&mut summary, " 时会被自动设为");
    push_str(&mut summary, phrase);
    push_str(&mut summary, "优先级");
    let mut b = ItemBuilder::new(SourceKind::SystemHook, owned(exe_name));
    b.location = location;
    b.command = owned(exe_name);
    b.enabled = true;
    b.boot_phase = BootPhase::Unknown;
    b.raw.detail = SourceDetail::IfeoPriority { target_exe: owned(exe_name), cpu, io, page };
    let mut ds: Vec<DiagnosticInfo> = Vec::new();
    ds.push(diag_of(codes::IFEO_PRIORITY, if realtime { RiskLevel::High } else { RiskLevel::Medium }, msg, Some(evidence)));
    b.diagnostics = ds;
    let ghost d0 = diag_views(b.diagnostics@);
    assert(d0 =~= seq![priority_diag(exe_name@, cpu, io, page)]);
    let item = finish(b, meta, summary.as_str());
    assert(item.resolved_path@ =~= Seq::<char>::empty());
    Some(item)
}

} // verus!
