//! Scheduled tasks triggered at boot or at logon.
//!
//! Only boot and logon triggers make a task a startup item; a disabled
//! trigger is not a disabled task; an action that is not a program (a COM
//! handler) gives no path; Windows' own tasks live under
//! `\Microsoft\Windows\`.

use vstd::prelude::*;
use crate::diag::codes;
use crate::diag::known::{is_office_task, lookup_office_task, office_entry};
use crate::model::{
    derive_kind_spec, BootPhase, DiagnosticInfo, ItemKind, NameSource, RawFields, RiskLevel, Scope, SourceDetail,
    SourceKind, StartupItem,
};
use crate::scanners::builder::{FileMeta, ItemBuilder};
use crate::text::{
    after_last, after_last_exec, chars_eq, chars_of, decimal, lower_chars, lower_seq, opt_chars,
    parse_u64, parse_u64_spec, push_decimal, push_str, starts_with, starts_with_exec, trim,
    trim_chars, two_chars, trim_matches, trim_matches_chars, string_of,
};

verus! {

/// Boot triggers run before logon ones.
pub open spec fn phase_rank_spec(p: BootPhase) -> u8 {
    match p {
        BootPhase::Smss => 0,
        _ => 1,
    }
}

pub fn phase_rank(p: BootPhase) -> (r: u8)
    ensures
        r == phase_rank_spec(p),
{
    match p {
        BootPhase::Smss => 0,
        _ => 1,
    }
}

/// Task paths under `\Microsoft\Windows\` (ASCII case ignored) are
/// Windows' own component tasks; `\Microsoft\Office\` is an application.
pub open spec fn is_windows_component_spec(path: Seq<char>) -> bool {
    starts_with(lower_seq(path), "\\microsoft\\windows\\"@)
}

pub fn is_windows_component_task(task_path: &str) -> (r: bool)
    ensures
        r == is_windows_component_spec(task_path@),
{
    let p = lower_chars(chars_of(task_path).as_slice());
    starts_with_exec(p.as_slice(), chars_of("\\microsoft\\windows\\").as_slice())
}

/// Programs that host other work and say nothing about the task.
pub open spec fn host_programs() -> Seq<Seq<char>> {
    seq![
        "cmd.exe"@, "powershell.exe"@, "pwsh.exe"@, "wscript.exe"@, "cscript.exe"@,
        "rundll32.exe"@, "mshta.exe"@, "msiexec.exe"@, "explorer.exe"@,
    ]
}

pub open spec fn is_host_spec(path: Seq<char>) -> bool {
    host_programs().contains(lower_seq(after_last(path, seq!['\\', '/'])))
}

/// The programs that host other work are exactly the command shells
/// (`cmd.exe`, `powershell.exe`, `pwsh.exe`), the script hosts
/// (`wscript.exe`, `cscript.exe`), `rundll32.exe`, `mshta.exe`,
/// `msiexec.exe` and `explorer.exe`, matched by the file name after the
/// last `\` or `/`, in any case; no other program is one.
pub proof fn lemma_host_programs_are_the_known_hosts(path: Seq<char>)
    ensures
        is_host_spec(path) <==> {
            let n = lower_seq(after_last(path, seq!['\\', '/']));
            ||| n == "cmd.exe"@
            ||| n == "powershell.exe"@
            ||| n == "pwsh.exe"@
            ||| n == "wscript.exe"@
            ||| n == "cscript.exe"@
            ||| n == "rundll32.exe"@
            ||| n == "mshta.exe"@
            ||| n == "msiexec.exe"@
            ||| n == "explorer.exe"@
        },
{
    let n = lower_seq(after_last(path, seq!['\\', '/']));
    let h = host_programs();
    if h.contains(n) {
        let i = choose|i: int| 0 <= i < h.len() && h[i] == n;
        assert(0 <= i < 9);
    }
    if n == "cmd.exe"@ { assert(h[0] == n); }
    if n == "powershell.exe"@ { assert(h[1] == n); }
    if n == "pwsh.exe"@ { assert(h[2] == n); }
    if n == "wscript.exe"@ { assert(h[3] == n); }
    if n == "cscript.exe"@ { assert(h[4] == n); }
    if n == "rundll32.exe"@ { assert(h[5] == n); }
    if n == "mshta.exe"@ { assert(h[6] == n); }
    if n == "msiexec.exe"@ { assert(h[7] == n); }
    if n == "explorer.exe"@ { assert(h[8] == n); }
}

fn contains_text(list: &Vec<&'static str>, x: &[char]) -> (r: bool)
    ensures
        r == list@.map_values(|s: &str| s@).contains(x@),
{
    let ghost l = list@.map_values(|s: &str| s@);
    let mut i: usize = 0;
    while i < list.len()
        invariant
            i <= list.len(),
            l == list@.map_values(|s: &str| s@),
            forall|k: int| 0 <= k < i ==> l[k] != x@,
        decreases list.len() - i,
    {
        if chars_eq(chars_of(list[i]).as_slice(), x) {
            assert(l[i as int] == x@);
            return true;
        }
        i = i + 1;
    }
    false
}

/// Whether the target's file name is a hosting program (`cmd.exe`,
/// `rundll32.exe`, ...), whose version information says nothing about the
/// task; the task's own name is used then.
pub fn is_host_program(path: &str) -> (r: bool)
    ensures
        r == is_host_spec(path@),
{
    let seps = two_chars('\\', '/');
    let base = lower_chars(after_last_exec(chars_of(path).as_slice(), seps.as_slice()).as_slice());
    let list: Vec<&'static str> = vec![
        "cmd.exe", "powershell.exe", "pwsh.exe", "wscript.exe", "cscript.exe", "rundll32.exe",
        "mshta.exe", "msiexec.exe", "explorer.exe",
    ];
    assert(list@.map_values(|s: &str| s@) =~= host_programs());
    contains_text(&list, base.as_slice())
}

/// The ways a system account is written in a task definition.
pub open spec fn system_accounts() -> Seq<Seq<char>> {
    seq![
        "system"@, "localsystem"@, "local system"@, "local service"@, "networkservice"@,
        "network service"@, "s-1-5-18"@, "s-1-5-19"@, "s-1-5-20"@,
    ]
}

/// A task run by a system account is machine-wide; any other (or an
/// unknown account) is user scope.
pub open spec fn scope_spec(user_id: Seq<char>) -> Scope {
    let u = lower_seq(trim(user_id));
    if system_accounts().contains(u) || starts_with(u, "nt authority\\"@) {
        Scope::Machine
    } else {
        Scope::User
    }
}

pub fn scope_of(user_id: &str) -> (r: Scope)
    ensures
        r == scope_spec(user_id@),
{
    let u = lower_chars(trim_chars(chars_of(user_id).as_slice()).as_slice());
    let list: Vec<&'static str> = vec![
        "system", "localsystem", "local system", "local service", "networkservice",
        "network service", "s-1-5-18", "s-1-5-19", "s-1-5-20",
    ];
    assert(list@.map_values(|s: &str| s@) =~= system_accounts());
    if contains_text(&list, u.as_slice()) || starts_with_exec(
        u.as_slice(),
        chars_of("nt authority\\").as_slice(),
    ) {
        Scope::Machine
    } else {
        Scope::User
    }
}

/// The state of reading an ISO 8601 duration: seconds so far, pending
/// digits, and whether the time part (`T`) has started; `None` once the
/// text cannot be read or the sum leaves `u64`.
pub open spec fn duration_scan(body: Seq<char>, n: int) -> Option<(int, Seq<char>, bool)>
    decreases n,
{
    if n <= 0 {
        Some((0, Seq::empty(), false))
    } else {
        match duration_scan(body, n - 1) {
            None => None,
            Some((total, digits, in_time)) => {
                let c = body[n - 1];
                let unit: int = if c == 'D' && !in_time {
                    86400
                } else if c == 'H' && in_time {
                    3600
                } else if c == 'M' && in_time {
                    60
                } else if c == 'S' && in_time {
                    1
                } else {
                    0
                };
                if c == 'T' {
                    Some((total, digits, true))
                } else if unit > 0 {
                    match parse_u64_spec(digits) {
                        Some(v) => if total + v * unit <= u64::MAX {
                            Some((total + v * unit, Seq::empty(), in_time))
                        } else {
                            None
                        },
                        None => None,
                    }
                } else if '0' <= c <= '9' {
                    Some((total, digits.push(c), in_time))
                } else {
                    None
                }
            },
        }
    }
}

/// Some character of the body is a unit letter (not `T`, not a digit).
pub open spec fn has_component(body: Seq<char>) -> bool {
    exists|j: int| 0 <= j < body.len() && body[j] != 'T' && !('0' <= #[trigger] body[j] <= '9')
}

/// Seconds of a task scheduler delay (`PT30S`, `PT1M30S`, `P1DT2H`). Months
/// and anything else are not guessed: the answer is `None`, and so is a
/// duration with no component (`PT`) or with digits and no unit (`PT30`).
pub open spec fn iso_duration_spec(input: Seq<char>) -> Option<u64> {
    let s = trim(input);
    if s.len() == 0 || s[0] != 'P' {
        None
    } else {
        let body = trim(s.drop_first());
        if body.len() == 0 {
            None
        } else {
            match duration_scan(body, body.len() as int) {
                Some((total, digits, _)) => if digits.len() == 0 && has_component(body) {
                    Some(total as u64)
                } else {
                    None
                },
                None => None,
            }
        }
    }
}

proof fn lemma_duration_none_stays(body: Seq<char>, n: int, m: int)
    requires
        n <= m,
        duration_scan(body, n) is None,
    ensures
        duration_scan(body, m) is None,
    decreases m - n,
{
    if n < m {
        lemma_duration_none_stays(body, n, m - 1);
    }
}

proof fn lemma_duration_total(body: Seq<char>, n: int)
    ensures
        duration_scan(body, n) matches Some((t, _, _)) ==> 0 <= t <= u64::MAX,
    decreases n,
{
    if n > 0 {
        lemma_duration_total(body, n - 1);
    }
}

pub fn parse_iso_duration_sec(input: &str) -> (r: Option<u64>)
    ensures
        r == iso_duration_spec(input@),
{
    let s = trim_chars(chars_of(input).as_slice());
    if s.len() == 0 || s[0] != 'P' {
        return None;
    }
    let rest = crate::text::slice_of(s.as_slice(), 1, s.len());
    assert(rest@ =~= s@.drop_first());
    let body = trim_chars(rest.as_slice());
    if body.len() == 0 {
        return None;
    }
    let mut total: u64 = 0;
    let mut digits: Vec<char> = Vec::new();
    let mut in_time = false;
    let mut read_one = false;
    let mut i: usize = 0;
    while i < body.len()
        invariant
            i <= body.len(),
            duration_scan(body@, i as int) == Some((total as int, digits@, in_time)),
            read_one <==> exists|j: int| 0 <= j < i && body@[j] != 'T' && !('0' <= #[trigger] body@[j] <= '9'),
            iso_duration_spec(input@) == match duration_scan(body@, body@.len() as int) {
                Some((t, d, _)) => if d.len() == 0 && has_component(body@) { Some(t as u64) } else { None::<u64> },
                None => None::<u64>,
            },
        decreases body.len() - i,
    {
        let c = body[i];
        let unit: u64 = if c == 'D' && !in_time {
            86400
        } else if c == 'H' && in_time {
            3600
        } else if c == 'M' && in_time {
            60
        } else if c == 'S' && in_time {
            1
        } else {
            0
        };
        if c == 'T' {
            in_time = true;
        } else if unit > 0 {
            let v = match parse_u64(digits.as_slice()) {
                Some(v) => v,
                None => {
                    proof {
                        lemma_duration_none_stays(body@, i + 1, body@.len() as int);
                    }
                    return None;
                },
            };
            if v > (u64::MAX - total) / unit {
                assert(total + v * unit > u64::MAX) by (nonlinear_arith)
                    requires
                        v > ((u64::MAX - total) as u64) / unit,
                        unit > 0,
                        total <= u64::MAX,
                ;
                proof {
                    lemma_duration_none_stays(body@, i + 1, body@.len() as int);
                }
                return None;
            }
            assert(total + v * unit <= u64::MAX) by (nonlinear_arith)
                requires
                    v <= ((u64::MAX - total) as u64) / unit,
                    unit > 0,
                    total <= u64::MAX,
            ;
            total = total + v * unit;
            digits = Vec::new();
            read_one = true;
        } else if '0' <= c && c <= '9' {
            digits.push(c);
        } else {
            proof {
                lemma_duration_none_stays(body@, i + 1, body@.len() as int);
            }
            return None;
        }
        proof {
            assert(body@[i as int] == c);
        }
        i = i + 1;
    }
    if digits.len() > 0 || !read_one {
        return None;
    }
    Some(total)
}

// ───────────────────────── one task as a startup item ─────────────────────────

/// The kinds of trigger that matter here; any other kind does not make a
/// task a startup item.
#[derive(Debug, Clone, Copy, PartialEq, Eq, Structural)]
pub enum TriggerKind {
    Boot,
    Logon,
    Other,
}

/// One trigger of a task. A trigger whose state cannot be read counts as
/// enabled: an unset trigger is enabled by the scheduler's own rule.
#[derive(Debug, Clone, Copy)]
pub struct TriggerFacts {
    pub kind: TriggerKind,
    pub enabled: bool,
}

/// Whether a path has a folder part; a bare program name has none.
pub open spec fn has_separator(s: Seq<char>) -> bool {
    s.contains('\\') || s.contains('/')
}

/// An action's program with its variables expanded, without the blanks and
/// quotes around it.
pub open spec fn unquoted_target(expanded: Seq<char>) -> Seq<char> {
    trim(trim_matches(trim(expanded), '"'))
}

/// Whether the program is a bare name, to be looked up on the search path.
pub open spec fn is_bare_name(t: Seq<char>) -> bool {
    t.len() > 0 && !has_separator(t)
}

/// The program without blanks and quotes around it.
pub fn unquote_target(expanded: &str) -> (r: String)
    ensures
        r@ == unquoted_target(expanded@),
{
    let t = trim_chars(chars_of(expanded).as_slice());
    let u = trim_matches_chars(t.as_slice(), '"');
    string_of(trim_chars(u.as_slice()).as_slice())
}

/// Whether a search of the search path is wanted for the program.
pub fn bare_name(target: &str) -> (r: bool)
    ensures
        r == is_bare_name(target@),
{
    let v = chars_of(target);
    let mut i: usize = 0;
    while i < v.len()
        invariant
            i <= v.len(),
            v@ == target@,
            forall|j: int| 0 <= j < i ==> v@[j] != '\\' && v@[j] != '/',
        decreases v.len() - i,
    {
        if v[i] == '\\' || v[i] == '/' {
            assert(v@[i as int] == v@[i as int]);
            return false;
        }
        i = i + 1;
    }
    v.len() > 0
}

/// The path an action's program is checked at: the program as written,
/// variables expanded and quotes removed; a bare name completed to where
/// the search path found it (`found`), and kept as written when it was not
/// found, so that the validity check reports it missing rather than a
/// path being made up.
pub fn normalize_target(expanded: &str, found: Option<String>) -> (r: String)
    ensures
        r@ == (if is_bare_name(unquoted_target(expanded@)) && found is Some {
            found.unwrap()@
        } else {
            unquoted_target(expanded@)
        }),
{
    let t = unquote_target(expanded);
    if bare_name(t.as_str()) {
        match found {
            Some(f) => return f,
            None => {},
        }
    }
    t
}

/// A program action of a task (other actions have no path and are left out).
#[derive(Debug, Clone)]
pub struct ExecAction {
    pub path: String,
    pub arguments: String,
}

/// What was read from one registered task.
#[derive(Debug, Clone)]
pub struct TaskFacts {
    /// The task's full path in the scheduler's library.
    pub full_path: String,
    pub name: String,
    pub triggers: Vec<TriggerFacts>,
    pub actions: Vec<ExecAction>,
    /// Whether the task as a whole is enabled.
    pub task_enabled: bool,
    /// The account the task runs as.
    pub user_id: String,
    /// The first action's arguments, split into words.
    pub first_args: Vec<String>,
}

pub open spec fn is_startup_trigger(t: TriggerFacts) -> bool {
    t.kind is Boot || t.kind is Logon
}

pub open spec fn has_startup_trigger(ts: Seq<TriggerFacts>) -> bool {
    exists|i: int| 0 <= i < ts.len() && is_startup_trigger(#[trigger] ts[i])
}

/// Some boot or logon trigger is on.
pub open spec fn startup_trigger_on(ts: Seq<TriggerFacts>) -> bool {
    exists|i: int| 0 <= i < ts.len() && is_startup_trigger(#[trigger] ts[i]) && ts[i].enabled
}

pub open spec fn has_boot_trigger(ts: Seq<TriggerFacts>) -> bool {
    exists|i: int| 0 <= i < ts.len() && (#[trigger] ts[i]).kind is Boot
}

/// The earlier of the task's phases: boot triggers run before logon.
pub open spec fn task_phase(ts: Seq<TriggerFacts>) -> BootPhase {
    if has_boot_trigger(ts) {
        BootPhase::Smss
    } else {
        BootPhase::Logon
    }
}

/// A task is enabled only when the task and one of its startup triggers are.
pub open spec fn task_effective_enabled(f: TaskFacts) -> bool {
    f.task_enabled && startup_trigger_on(f.triggers@)
}

pub open spec fn primary_target(acts: Seq<ExecAction>) -> Seq<char> {
    if acts.len() > 0 {
        acts[0].path@
    } else {
        Seq::empty()
    }
}

/// The first action as one command line: path, a space and the arguments.
pub open spec fn task_command(acts: Seq<ExecAction>) -> Seq<char> {
    if acts.len() == 0 {
        Seq::empty()
    } else if acts[0].arguments@.len() > 0 {
        acts[0].path@ + seq![' '] + acts[0].arguments@
    } else {
        acts[0].path@
    }
}

/// The task's own name is shown when there is no program, or when the
/// program is a host such as `cmd.exe`.
pub open spec fn needs_task_name(acts: Seq<ExecAction>) -> bool {
    primary_target(acts).len() == 0 || is_host_spec(primary_target(acts))
}

/// A task whose first action runs a script host or a shell (its file
/// name, in any case, is `wscript.exe`, `cscript.exe`, `cmd.exe`,
/// `powershell.exe` or `pwsh.exe`) is shown by its own name, since the
/// host's version information says nothing about what the task does.
pub proof fn lemma_script_tasks_show_their_own_name(acts: Seq<ExecAction>)
    requires
        acts.len() > 0,
        ({
            let n = lower_seq(after_last(acts[0].path@, seq!['\\', '/']));
            ||| n == "wscript.exe"@
            ||| n == "cscript.exe"@
            ||| n == "cmd.exe"@
            ||| n == "powershell.exe"@
            ||| n == "pwsh.exe"@
        }),
    ensures
        needs_task_name(acts),
{
    lemma_host_programs_are_the_known_hosts(acts[0].path@);
}

/// The paths of the actions after the first, joined by `；`.
pub open spec fn later_paths(acts: Seq<ExecAction>) -> Seq<char>
    decreases acts.len(),
{
    if acts.len() <= 1 {
        Seq::empty()
    } else if acts.len() == 2 {
        acts[1].path@
    } else {
        later_paths(acts.drop_last()) + seq!['；'] + acts.last().path@
    }
}

pub const MULTI_ACTION_HEAD: &'static str = "这个任务除了上面那个程序以外，还会一并启动 ";
pub const MULTI_ACTION_TAIL: &'static str = " 个程序——它们同属一个任务，停用或启用是整体生效的。";
pub const TRIGGER_OFF_TEXT: &'static str = "这个任务本身是启用状态，但它的开机/登录触发器被单独关掉了，所以不会运行。恢复时要展开任务的「触发器」选项卡才会看到那个开关。";
pub const TASK_OFF_TEXT: &'static str = "这个任务被整体禁用了，不会在开机或登录时运行。如果它属于你正在使用的软件，可以在任务计划程序里重新启用它。";
pub const OFFICE_HEAD: &'static str = "这是 Office 自带的后台任务，用途是";
pub const OFFICE_TAIL: &'static str = "。它现在被关闭了——好处是登录时少一点后台活动，代价是 Office 的自动更新与部分功能会一并停掉。如果这是你自己（或某个优化工具）关掉的，不用处理；如果不知道有这回事，可以在这里重新启用它。";

/// A diagnosis as code, severity, message and evidence.
pub open spec fn diag_view(d: DiagnosticInfo) -> (Seq<char>, RiskLevel, Seq<char>, Option<Seq<char>>) {
    (d.code@, d.severity, d.message@, opt_chars(d.evidence))
}

pub open spec fn bool_text(b: bool) -> Seq<char> {
    if b {
        "true"@
    } else {
        "false"@
    }
}

/// The note that a task starts more than one program.
pub open spec fn multi_action_diags(acts: Seq<ExecAction>) -> Seq<(Seq<char>, RiskLevel, Seq<char>, Option<Seq<char>>)> {
    if acts.len() > 1 {
        seq![(
            codes::MULTI_ACTION_TASK@,
            RiskLevel::Safe,
            MULTI_ACTION_HEAD@ + decimal((acts.len() - 1) as nat) + MULTI_ACTION_TAIL@,
            Some(later_paths(acts)),
        )]
    } else {
        Seq::empty()
    }
}

/// Which switch turned a disabled task off; said for tasks that are
/// neither Windows' own nor Office's background tasks.
pub open spec fn disabled_diags(f: TaskFacts, is_system: bool) -> Seq<(Seq<char>, RiskLevel, Seq<char>, Option<Seq<char>>)> {
    if !task_effective_enabled(f) && !is_system && !is_office_task(f.full_path@) {
        if f.task_enabled {
            seq![(codes::TASK_TRIGGER_DISABLED@, RiskLevel::Safe, TRIGGER_OFF_TEXT@, None)]
        } else {
            seq![(codes::TASK_DISABLED@, RiskLevel::Safe, TASK_OFF_TEXT@, None)]
        }
    } else {
        Seq::empty()
    }
}

/// An Office background task turned off at the task level: what it is for
/// and what turning it off costs, without judging.
pub open spec fn office_diags(f: TaskFacts) -> Seq<(Seq<char>, RiskLevel, Seq<char>, Option<Seq<char>>)> {
    match office_entry(f.full_path@) {
        Some((_, purpose)) => if !f.task_enabled {
            seq![(
                codes::OFFICE_TASKS_DISABLED@,
                RiskLevel::Medium,
                OFFICE_HEAD@ + purpose + OFFICE_TAIL@,
                Some("任务 "@ + f.full_path@ + "：任务本身 Enabled="@ + bool_text(f.task_enabled)),
            )]
        } else {
            Seq::empty()
        },
        None => Seq::empty(),
    }
}

pub open spec fn task_diags(f: TaskFacts, is_system: bool) -> Seq<(Seq<char>, RiskLevel, Seq<char>, Option<Seq<char>>)> {
    multi_action_diags(f.actions@) + disabled_diags(f, is_system) + office_diags(f)
}

fn push_text(v: &mut Vec<DiagnosticInfo>, code: &str, severity: RiskLevel, message: String, evidence: Option<String>)
    ensures
        final(v)@.map_values(|d: DiagnosticInfo| diag_view(d)) == old(v)@.map_values(|d: DiagnosticInfo| diag_view(d)).push(
            (code@, severity, message@, opt_chars(evidence)),
        ),
{
    let mut c = String::new();
    push_str(&mut c, code);
    let ghost before = v@;
    v.push(DiagnosticInfo { code: c, severity, message, evidence });
    assert(v@.map_values(|d: DiagnosticInfo| diag_view(d)) =~= before.map_values(|d: DiagnosticInfo| diag_view(d)).push(
        (code@, severity, message@, opt_chars(evidence)),
    ));
}

fn later_paths_exec(acts: &Vec<ExecAction>) -> (r: String)
    ensures
        r@ == later_paths(acts@),
{
    let mut out = String::new();
    let mut i: usize = 1;
    if acts.len() <= 1 {
        return out;
    }
    push_str(&mut out, acts[1].path.as_str());
    i = 2;
    assert(acts@.take(2).len() == 2);
    while i < acts.len()
        invariant
            2 <= i <= acts.len(),
            out@ == later_paths(acts@.take(i as int)),
        decreases acts.len() - i,
    {
        assert(acts@.take(i + 1).drop_last() =~= acts@.take(i as int));
        assert(acts@.take(i + 1).last() == acts@[i as int]);
        crate::text::push_char(&mut out, '；');
        push_str(&mut out, acts[i].path.as_str());
        i = i + 1;
        assert(out@ =~= later_paths(acts@.take(i as int)));
    }
    assert(acts@.take(acts.len() as int) =~= acts@);
    out
}

/// The boot and logon triggers among `ts`, in order.
pub open spec fn startup_only(ts: Seq<TriggerFacts>) -> Seq<TriggerFacts>
    decreases ts.len(),
{
    if ts.len() == 0 {
        Seq::empty()
    } else if is_startup_trigger(ts.last()) {
        startup_only(ts.drop_last()).push(ts.last())
    } else {
        startup_only(ts.drop_last())
    }
}

fn startup_triggers(ts: &Vec<TriggerFacts>) -> (r: Vec<TriggerFacts>)
    ensures
        r@ == startup_only(ts@),
{
    let mut out: Vec<TriggerFacts> = Vec::new();
    let mut i: usize = 0;
    while i < ts.len()
        invariant
            i <= ts.len(),
            out@ == startup_only(ts@.take(i as int)),
        decreases ts.len() - i,
    {
        assert(ts@.take(i + 1).drop_last() =~= ts@.take(i as int));
        let t = ts[i];
        if t.kind == TriggerKind::Boot || t.kind == TriggerKind::Logon {
            out.push(t);
        }
        i = i + 1;
    }
    assert(ts@.take(ts.len() as int) =~= ts@);
    out
}

fn trigger_summary(ts: &Vec<TriggerFacts>) -> (r: (bool, bool, bool))
    ensures
        r.0 == has_startup_trigger(ts@),
        r.1 == startup_trigger_on(ts@),
        r.2 == has_boot_trigger(ts@),
{
    let mut has_trigger = false;
    let mut any_on = false;
    let mut has_boot = false;
    let mut i: usize = 0;
    while i < ts.len()
        invariant
            i <= ts.len(),
            has_trigger == exists|j: int| 0 <= j < i && is_startup_trigger(#[trigger] ts@[j]),
            any_on == exists|j: int| 0 <= j < i && is_startup_trigger(#[trigger] ts@[j]) && ts@[j].enabled,
            has_boot == exists|j: int| 0 <= j < i && (#[trigger] ts@[j]).kind is Boot,
        decreases ts.len() - i,
    {
        let t = ts[i];
        if t.kind == TriggerKind::Boot || t.kind == TriggerKind::Logon {
            has_trigger = true;
            if t.enabled {
                any_on = true;
            }
        }
        if t.kind == TriggerKind::Boot {
            has_boot = true;
        }
        i = i + 1;
    }
    (has_trigger, any_on, has_boot)
}

/// The notes of one task, in order: more than one program, which switch
/// is off, an Office background task turned off.
fn task_notes(facts: &TaskFacts, is_system: bool) -> (v: Vec<DiagnosticInfo>)
    ensures
        v@.map_values(|d: DiagnosticInfo| diag_view(d)) == task_diags(*facts, is_system),
{
    let (_, any_on, _) = trigger_summary(&facts.triggers);
    let enabled = facts.task_enabled && any_on;
    let n_actions = facts.actions.len();
    let mut v: Vec<DiagnosticInfo> = Vec::new();
    if n_actions > 1 {
        let later = later_paths_exec(&facts.actions);
        let mut msg = String::new();
        push_str(&mut msg, MULTI_ACTION_HEAD);
        push_decimal(&mut msg, (n_actions - 1) as u64);
        push_str(&mut msg, MULTI_ACTION_TAIL);
        push_text(&mut v, codes::MULTI_ACTION_TASK, RiskLevel::Safe, msg, Some(later));
    }
    assert(v@.map_values(|d: DiagnosticInfo| diag_view(d)) =~= multi_action_diags(facts.actions@));
    let ghost v1 = v@.map_values(|d: DiagnosticInfo| diag_view(d));
    let office = lookup_office_task(facts.full_path.as_str());
    if !enabled && !is_system && office.is_none() {
        if facts.task_enabled {
            let mut msg = String::new();
            push_str(&mut msg, TRIGGER_OFF_TEXT);
            push_text(&mut v, codes::TASK_TRIGGER_DISABLED, RiskLevel::Safe, msg, None);
        } else {
            let mut msg = String::new();
            push_str(&mut msg, TASK_OFF_TEXT);
            push_text(&mut v, codes::TASK_DISABLED, RiskLevel::Safe, msg, None);
        }
    }
    assert(v@.map_values(|d: DiagnosticInfo| diag_view(d)) =~= v1 + disabled_diags(*facts, is_system));
    let ghost v2 = v@.map_values(|d: DiagnosticInfo| diag_view(d));
    match office {
        Some(k) => {
            if !facts.task_enabled {
                let mut msg = String::new();
                push_str(&mut msg, OFFICE_HEAD);
                push_str(&mut msg, k.purpose);
                push_str(&mut msg, OFFICE_TAIL);
                let mut evidence = String::new();
                push_str(&mut evidence, "任务 ");
                push_str(&mut evidence, facts.full_path.as_str());
                push_str(&mut evidence, "：任务本身 Enabled=");
                push_str(&mut evidence, "false");
                push_text(&mut v, codes::OFFICE_TASKS_DISABLED, RiskLevel::Medium, msg, Some(evidence));
            }
        },
        None => {},
    }
    assert(v@.map_values(|d: DiagnosticInfo| diag_view(d)) =~= v2 + office_diags(*facts));
    v
}

/// One registered task as a startup item, given what was read from the task
/// and from its first program's file; `None` for a task with no boot or
/// logon trigger.
///
/// The item is enabled only when the task and one of its startup triggers
/// are; a task with a boot trigger is placed in the earlier phase; the
/// task's own name is shown for a host program or no program; a disabled
/// task is not marked as a leftover, but says which switch is off.
pub fn task_item(facts: TaskFacts, meta: FileMeta) -> (r: Option<StartupItem>)
    ensures
        r is None <==> !has_startup_trigger(facts.triggers@),
        r matches Some(item) ==> {
            &&& item.source == SourceKind::ScheduledTask
            &&& item.name@ == facts.name@
            &&& item.scope == scope_spec(facts.user_id@)
            &&& item.location@ == facts.full_path@
            &&& item.command@ == task_command(facts.actions@)
            &&& item.resolved_path@ == primary_target(facts.actions@)
            &&& item.args@ == (if facts.actions@.len() > 0 && facts.actions@[0].arguments@.len() > 0 {
                facts.first_args@
            } else {
                Seq::<String>::empty()
            })
            &&& item.enabled == task_effective_enabled(facts)
            &&& item.boot_phase == task_phase(facts.triggers@)
            &&& opt_chars(item.display_name) == (if needs_task_name(facts.actions@) && trim(facts.name@).len() > 0 {
                Some(facts.name@)
            } else {
                opt_chars(meta.display_name)
            })
            &&& item.name_from == (if needs_task_name(facts.actions@) && trim(facts.name@).len() > 0 {
                Some(NameSource::TaskDescription)
            } else {
                meta.name_from
            })
            &&& item.signer.is_os_component == (meta.signer.is_os_component
                || is_windows_component_spec(facts.full_path@))
            &&& item.kind == derive_kind_spec(SourceKind::ScheduledTask, item.signer.is_os_component)
            &&& item.raw.task_enabled == Some(facts.task_enabled)
            &&& item.raw.trigger_enabled == Some(startup_trigger_on(facts.triggers@))
            &&& item.raw.start_type is None && item.raw.value_name is None
            &&& item.raw.detail matches SourceDetail::Task { user_id, triggers, actions }
                && user_id@ == facts.user_id@ && triggers@ == startup_only(facts.triggers@)
                && actions@ == facts.actions@
            &&& item.summary is None
            &&& item.validity == crate::model::ValidityStatus::Valid && item.validity_detail is None
            &&& crate::scanners::builder::fresh_item(item, meta)
            &&& item.diagnostics@.map_values(|d: DiagnosticInfo| diag_view(d)) == task_diags(
                facts,
                item.kind == ItemKind::System,
            )
        },
{
    let ghost f = facts;
    let (has_trigger, any_on, has_boot) = trigger_summary(&facts.triggers);
    if !has_trigger {
        return None;
    }
    let n_actions = facts.actions.len();
    let (target, command) = if n_actions > 0 {
        let a = &facts.actions[0];
        let mut t = String::new();
        push_str(&mut t, a.path.as_str());
        let mut c = String::new();
        push_str(&mut c, a.path.as_str());
        if chars_of(a.arguments.as_str()).len() > 0 {
            crate::text::push_char(&mut c, ' ');
            push_str(&mut c, a.arguments.as_str());
        }
        (t, c)
    } else {
        (String::new(), String::new())
    };
    assert(target@ == primary_target(f.actions@));
    assert(command@ =~= task_command(f.actions@));
    let use_args = n_actions > 0 && chars_of(facts.actions[0].arguments.as_str()).len() > 0;
    let needs_name = chars_of(target.as_str()).len() == 0 || is_host_program(target.as_str());
    let mut location = String::new();
    push_str(&mut location, facts.full_path.as_str());
    let mut task_name = String::new();
    push_str(&mut task_name, facts.name.as_str());
    let is_component = is_windows_component_task(facts.full_path.as_str());
    let is_system = meta.signer.is_os_component || is_component;
    let notes = task_notes(&facts, is_system);
    let startup = startup_triggers(&facts.triggers);
    let TaskFacts { full_path: _, name, triggers: _, actions, task_enabled, user_id, first_args } = facts;
    let mut b = ItemBuilder::new(SourceKind::ScheduledTask, name);
    b.scope = scope_of(user_id.as_str());
    b.location = location;
    b.command = command;
    b.resolved_path = target;
    b.args = if use_args { first_args } else { Vec::new() };
    b.enabled = task_enabled && any_on;
    b.boot_phase = if has_boot { BootPhase::Smss } else { BootPhase::Logon };
    b.raw = RawFields {
        start_type: None,
        task_enabled: Some(task_enabled),
        trigger_enabled: Some(any_on),
        value_name: None,
        detail: SourceDetail::Task { user_id, triggers: startup, actions },
    };
    b.diagnostics = notes;
    if needs_name {
        b.set_display_name(task_name, NameSource::TaskDescription);
    }
    if is_component {
        b.force_os_component = true;
    }
    let item = b.build(meta);
    assert(item.kind == ItemKind::System <==> is_system);
    Some(item)
}

} // verus!
