//! Stand-alone restore scripts made from a snapshot: a PowerShell script
//! for every source, and a `.reg` file for the registry sources, so that a
//! state can be restored even after the program is gone.
//!
//! The scripts only call tools that come with Windows (`reg`, `schtasks`,
//! `sc`), say which snapshot they restore, and never delete anything: a
//! disabled entry was only switched off, so restoring switches it back.

use vstd::prelude::*;
use crate::error::AppError;
use crate::snapshot::model::{Snapshot, SnapshotRecord, SnapshotTarget};
use crate::text::{chars_of, lower_chars, lower_seq, opt_chars, push_char, push_str, starts_with, starts_with_exec, slice_of, string_of};

verus! {

/// The two scripts.
#[derive(Debug, Clone)]
pub struct ExportBundle {
    /// The PowerShell script, for every source.
    pub ps1: String,
    /// The `.reg` file, for the registry sources; empty when there are none.
    pub reg: String,
}

/// The PowerShell script's opening: what it is, how to run it, and a check
/// that it runs as administrator.
pub const PS1_HEADER: &'static str = r#"
# ------------------------------------------------------------
#  BootFlow 独立回滚脚本
#  本脚本把启动项恢复到一个 BootFlow 快照记录的状态。
#  仅调用 Windows 自带命令（reg / schtasks / sc），
#  可在卸载 BootFlow 之后继续使用。
#
#  用法：右键「以管理员身份运行」这个 .ps1，或在管理员 PowerShell 里：
#    powershell -ExecutionPolicy Bypass -File .\rollback.ps1
# ------------------------------------------------------------

# 管理员检查
if (-not ([Security.Principal.WindowsPrincipal][Security.Principal.WindowsIdentity]::GetCurrent()).IsInRole([Security.Principal.WindowsBuiltInRole]::Administrator)) {
    Write-Host "请以管理员身份运行此脚本。" -ForegroundColor Red
    exit 1
}
Write-Host "正在恢复启动项……" -ForegroundColor Cyan
"#;

pub const PS1_NOTHING_ELSE: &'static str = "# （本快照无计划任务 / 服务改动）\n";
pub const PS1_FOOTER: &'static str = "\nWrite-Host \"恢复完成。\" -ForegroundColor Green\n";
pub const REG_HEADER: &'static str = "Windows Registry Editor Version 5.00\n\n";

// ───────────────────────── hexadecimal bytes ─────────────────────────

/// Hexadecimal text cut into pairs, lower-cased and joined by commas.
pub open spec fn hex_dots_spec(h: Seq<char>) -> Seq<char>
    decreases h.len(),
{
    if h.len() <= 2 {
        lower_seq(h)
    } else {
        lower_seq(h.take(2)) + seq![','] + hex_dots_spec(h.skip(2))
    }
}

/// `0202` becomes `02,02`: the form `reg` takes binary data in.
pub fn hex_dots(hex: &str) -> (r: String)
    ensures
        r@ == hex_dots_spec(hex@),
{
    let v = lower_chars(chars_of(hex).as_slice());
    let ghost h = hex@;
    let mut out = String::new();
    let mut i: usize = 0;
    assert(h.skip(0) =~= h);
    while v.len() - i > 2
        invariant
            i <= v.len(),
            v@ == lower_seq(h),
            h.len() == v.len(),
            out@ + hex_dots_spec(h.skip(i as int)) == hex_dots_spec(h),
        decreases v.len() - i,
    {
        let ghost rest = h.skip(i as int);
        assert(rest.take(2) =~= h.subrange(i as int, i + 2));
        assert(rest.skip(2) =~= h.skip(i + 2));
        assert(lower_seq(rest.take(2)) =~= v@.subrange(i as int, i + 2));
        push_char(&mut out, v[i]);
        push_char(&mut out, v[i + 1]);
        push_char(&mut out, ',');
        assert(out@ + hex_dots_spec(h.skip(i + 2)) =~= hex_dots_spec(h));
        i = i + 2;
    }
    let ghost rest = h.skip(i as int);
    assert(lower_seq(rest) =~= v@.skip(i as int));
    let tail = slice_of(v.as_slice(), i, v.len());
    assert(tail@ =~= v@.skip(i as int));
    push_str(&mut out, string_of(tail.as_slice()).as_str());
    assert(out@ =~= hex_dots_spec(h));
    out
}

// ───────────────────────── which records ─────────────────────────

pub open spec fn reg_sources() -> Seq<Seq<char>> {
    seq![
        "RunUser"@, "RunMachine"@, "RunMachine32"@, "RunOnceUser"@, "RunOnceMachine"@,
        "RunOnceMachine32"@, "StartupFolderUser"@, "StartupFolderMachine"@,
    ]
}

/// The sources whose state is the `StartupApproved` registry value: every
/// Run, RunOnce and startup-folder source, 32-bit views included.
pub open spec fn is_reg_source_spec(source: Seq<char>) -> bool {
    reg_sources().contains(source)
}

fn is_reg_source(t: &SnapshotTarget) -> (r: bool)
    ensures
        r == is_reg_source_spec(t.source@),
{
    let s = chars_of(t.source.as_str());
    let list: Vec<&'static str> = vec![
        "RunUser", "RunMachine", "RunMachine32", "RunOnceUser", "RunOnceMachine",
        "RunOnceMachine32", "StartupFolderUser", "StartupFolderMachine",
    ];
    let ghost l = list@.map_values(|x: &str| x@);
    assert(l =~= reg_sources());
    let mut i: usize = 0;
    while i < list.len()
        invariant
            i <= list.len(),
            l == list@.map_values(|x: &str| x@),
            l == reg_sources(),
            s@ == t.source@,
            forall|k: int| 0 <= k < i ==> l[k] != s@,
        decreases list.len() - i,
    {
        if crate::text::chars_eq(chars_of(list[i]).as_slice(), s.as_slice()) {
            assert(l[i as int] == s@);
            return true;
        }
        i = i + 1;
    }
    false
}

fn text_is(s: &str, t: &str) -> (r: bool)
    ensures
        r == (s@ == t@),
{
    crate::text::chars_eq(chars_of(s).as_slice(), chars_of(t).as_slice())
}

// ───────────────────────── the .reg file ─────────────────────────

/// A key path as a `.reg` root and the rest: `HKCU\` and `HKLM\` (or the
/// full root names) are recognised; a bare path takes its root from the
/// scope.
pub open spec fn split_root_spec(location: Seq<char>, scope: Seq<char>) -> (Seq<char>, Seq<char>) {
    if starts_with(location, "HKCU\\"@) {
        ("HKEY_CURRENT_USER"@, location.skip(5))
    } else if starts_with(location, "HKLM\\"@) {
        ("HKEY_LOCAL_MACHINE"@, location.skip(5))
    } else if starts_with(location, "HKEY_CURRENT_USER\\"@) {
        ("HKEY_CURRENT_USER"@, location.skip(18))
    } else if starts_with(location, "HKEY_LOCAL_MACHINE\\"@) {
        ("HKEY_LOCAL_MACHINE"@, location.skip(19))
    } else if scope == "machine"@ {
        ("HKEY_LOCAL_MACHINE"@, location)
    } else {
        ("HKEY_CURRENT_USER"@, location)
    }
}

fn strip(location: &[char], prefix: &str) -> (r: Option<Vec<char>>)
    ensures
        match r {
            Some(rest) => starts_with(location@, prefix@) && rest@ == location@.skip(prefix@.len() as int),
            None => !starts_with(location@, prefix@),
        },
{
    let p = chars_of(prefix);
    if starts_with_exec(location, p.as_slice()) {
        Some(slice_of(location, p.len(), location.len()))
    } else {
        None
    }
}

/// Splits a key path into its `.reg` root and the rest.
pub fn split_root(location: &str, scope: &str) -> (r: (String, String))
    ensures
        (r.0@, r.1@) == split_root_spec(location@, scope@),
{
    proof {
        reveal_strlit("HKCU\\");
        reveal_strlit("HKLM\\");
        reveal_strlit("HKEY_CURRENT_USER\\");
        reveal_strlit("HKEY_LOCAL_MACHINE\\");
    }
    let loc = chars_of(location);
    if let Some(rest) = strip(loc.as_slice(), "HKCU\\") {
        return (string_of(chars_of("HKEY_CURRENT_USER").as_slice()), string_of(rest.as_slice()));
    }
    if let Some(rest) = strip(loc.as_slice(), "HKLM\\") {
        return (string_of(chars_of("HKEY_LOCAL_MACHINE").as_slice()), string_of(rest.as_slice()));
    }
    if let Some(rest) = strip(loc.as_slice(), "HKEY_CURRENT_USER\\") {
        return (string_of(chars_of("HKEY_CURRENT_USER").as_slice()), string_of(rest.as_slice()));
    }
    if let Some(rest) = strip(loc.as_slice(), "HKEY_LOCAL_MACHINE\\") {
        return (string_of(chars_of("HKEY_LOCAL_MACHINE").as_slice()), string_of(rest.as_slice()));
    }
    let root = if text_is(scope, "machine") { "HKEY_LOCAL_MACHINE" } else { "HKEY_CURRENT_USER" };
    (string_of(chars_of(root).as_slice()), string_of(loc.as_slice()))
}

pub open spec fn value_name_of(t: SnapshotTarget) -> Seq<char> {
    match opt_chars(t.value_name) {
        Some(n) => n,
        None => Seq::empty(),
    }
}

/// One `.reg` value: the key in brackets, then the value name and its
/// bytes.
pub open spec fn reg_value_spec(rec: SnapshotRecord, raw: Seq<char>) -> Seq<char> {
    let (root, path) = split_root_spec(rec.target.location@, rec.scope@);
    "["@ + root + "\\"@ + path + "]\n\""@ + value_name_of(rec.target) + "\"=hex:"@ + hex_dots_spec(raw) + "\n"@
}

/// A record's part of the `.reg` file: registry sources with a recorded
/// value only, each followed by an empty line.
pub open spec fn reg_part(rec: SnapshotRecord) -> Seq<char> {
    match opt_chars(rec.approved_raw) {
        Some(raw) => if is_reg_source_spec(rec.target.source@) {
            reg_value_spec(rec, raw) + "\n"@
        } else {
            Seq::empty()
        },
        None => Seq::empty(),
    }
}

pub open spec fn reg_body(recs: Seq<SnapshotRecord>) -> Seq<char>
    decreases recs.len(),
{
    if recs.len() == 0 {
        Seq::empty()
    } else {
        reg_body(recs.drop_last()) + reg_part(recs.last())
    }
}

/// The `.reg` file: the header and the values, or nothing at all when no
/// record is a registry value.
pub open spec fn make_reg_spec(s: Snapshot) -> Seq<char> {
    let body = reg_body(s.records@);
    if body.len() == 0 {
        Seq::empty()
    } else {
        REG_HEADER@ + body
    }
}

fn reg_part_exec(rec: &SnapshotRecord) -> (r: String)
    ensures
        r@ == reg_part(*rec),
{
    let mut s = String::new();
    match &rec.approved_raw {
        Some(raw) => {
            if is_reg_source(&rec.target) {
                let (root, path) = split_root(rec.target.location.as_str(), rec.scope.as_str());
                push_str(&mut s, "[");
                push_str(&mut s, root.as_str());
                push_str(&mut s, "\\");
                push_str(&mut s, path.as_str());
                push_str(&mut s, "]\n\"");
                match &rec.target.value_name {
                    Some(n) => push_str(&mut s, n.as_str()),
                    None => {},
                }
                push_str(&mut s, "\"=hex:");
                push_str(&mut s, hex_dots(raw.as_str()).as_str());
                push_str(&mut s, "\n");
                push_str(&mut s, "\n");
                assert(s@ =~= reg_part(*rec));
            }
        },
        None => {},
    }
    s
}

/// The `.reg` file of a snapshot.
pub fn make_reg(snapshot: &Snapshot) -> (r: String)
    ensures
        r@ == make_reg_spec(*snapshot),
{
    let recs = &snapshot.records;
    let mut body = String::new();
    let mut i: usize = 0;
    while i < recs.len()
        invariant
            i <= recs.len(),
            body@ == reg_body(recs@.take(i as int)),
        decreases recs.len() - i,
    {
        assert(recs@.take(i + 1).drop_last() =~= recs@.take(i as int));
        assert(recs@.take(i + 1).last() == recs@[i as int]);
        let part = reg_part_exec(&recs[i]);
        push_str(&mut body, part.as_str());
        i = i + 1;
    }
    assert(recs@.take(recs.len() as int) =~= recs@);
    if chars_of(body.as_str()).len() == 0 {
        return String::new();
    }
    let mut s = String::new();
    push_str(&mut s, REG_HEADER);
    push_str(&mut s, body.as_str());
    s
}

// ───────────────────────── the PowerShell script ─────────────────────────

pub open spec fn bool_word(b: bool) -> Seq<char> {
    if b {
        "true"@
    } else {
        "false"@
    }
}

/// A record's lines: `reg add` of the recorded value for a registry source;
/// `schtasks /Change` of the task's own switch and a note about the
/// trigger switch for a task; `sc.exe config` back to automatic or on
/// demand for a service. Nothing else is touched.
pub open spec fn ps1_part(rec: SnapshotRecord) -> Seq<char> {
    let t = rec.target;
    if is_reg_source_spec(t.source@) && rec.approved_raw is Some {
        "reg add \""@ + t.location@ + "\" /v \""@ + value_name_of(t) + "\" /t REG_BINARY /d "@
            + hex_dots_spec(opt_chars(rec.approved_raw).unwrap()) + " /f\n"@
    } else if t.source@ == "ScheduledTask"@ {
        (match rec.task_enabled {
            Some(v) => "schtasks /Change /TN \""@ + t.location@ + "\" /"@ + (if v { "enable"@ } else { "disable"@ })
                + "   # 任务级恢复\n"@,
            None => Seq::empty(),
        }) + (match rec.trigger_enabled {
            Some(v) => "# 触发器级状态（"@ + bool_word(v) + "）需用任务计划程序手动调整；本版不直接改触发器\n"@,
            None => Seq::empty(),
        })
    } else if t.source@ == "Service"@ {
        match rec.service_start_type {
            Some(2) => "sc.exe config \""@ + t.location@ + "\" start= auto\n"@,
            Some(3) => "sc.exe config \""@ + t.location@ + "\" start= demand\n"@,
            _ => Seq::empty(),
        }
    } else {
        Seq::empty()
    }
}

/// Whether the record restores a task or a service.
pub open spec fn ps1_touches(rec: SnapshotRecord) -> bool {
    let t = rec.target;
    if is_reg_source_spec(t.source@) && rec.approved_raw is Some {
        false
    } else if t.source@ == "ScheduledTask"@ {
        rec.task_enabled is Some
    } else if t.source@ == "Service"@ {
        rec.service_start_type == Some(2u32) || rec.service_start_type == Some(3u32)
    } else {
        false
    }
}

pub open spec fn ps1_body(recs: Seq<SnapshotRecord>) -> Seq<char>
    decreases recs.len(),
{
    if recs.len() == 0 {
        Seq::empty()
    } else {
        ps1_body(recs.drop_last()) + ps1_part(recs.last())
    }
}

pub open spec fn ps1_any_touch(recs: Seq<SnapshotRecord>) -> bool {
    exists|i: int| 0 <= i < recs.len() && ps1_touches(#[trigger] recs[i])
}

/// The PowerShell script: the header with the administrator check, the
/// snapshot it follows, the lines of every record, a note when no task or
/// service is restored, and a closing message.
pub open spec fn make_ps1_spec(s: Snapshot) -> Seq<char> {
    PS1_HEADER@ + "# 依据快照："@ + s.id@ + "  ("@ + s.created_at@ + ")\n"@ + "# 恢复以下启动项的启停状态：\n\n"@
        + ps1_body(s.records@) + (if ps1_any_touch(s.records@) { Seq::empty() } else { PS1_NOTHING_ELSE@ })
        + PS1_FOOTER@
}

fn ps1_part_exec(rec: &SnapshotRecord) -> (r: (String, bool))
    ensures
        r.0@ == ps1_part(*rec),
        r.1 == ps1_touches(*rec),
{
    let mut s = String::new();
    let t = &rec.target;
    let is_reg = is_reg_source(t);
    if is_reg {
        if let Some(hex) = &rec.approved_raw {
            push_str(&mut s, "reg add \"");
            push_str(&mut s, t.location.as_str());
            push_str(&mut s, "\" /v \"");
            match &t.value_name {
                Some(n) => push_str(&mut s, n.as_str()),
                None => {},
            }
            push_str(&mut s, "\" /t REG_BINARY /d ");
            push_str(&mut s, hex_dots(hex.as_str()).as_str());
            push_str(&mut s, " /f\n");
            assert(s@ =~= ps1_part(*rec));
            return (s, false);
        }
    }
    if text_is(t.source.as_str(), "ScheduledTask") {
        match rec.task_enabled {
            Some(v) => {
                push_str(&mut s, "schtasks /Change /TN \"");
                push_str(&mut s, t.location.as_str());
                push_str(&mut s, "\" /");
                push_str(&mut s, if v { "enable" } else { "disable" });
                push_str(&mut s, "   # 任务级恢复\n");
            },
            None => {},
        }
        match rec.trigger_enabled {
            Some(v) => {
                push_str(&mut s, "# 触发器级状态（");
                push_str(&mut s, if v { "true" } else { "false" });
                push_str(&mut s, "）需用任务计划程序手动调整；本版不直接改触发器\n");
            },
            None => {},
        }
        assert(s@ =~= ps1_part(*rec));
        return (s, rec.task_enabled.is_some());
    }
    if text_is(t.source.as_str(), "Service") {
        match rec.service_start_type {
            Some(st) => {
                if st == 2 || st == 3 {
                    push_str(&mut s, "sc.exe config \"");
                    push_str(&mut s, t.location.as_str());
                    push_str(&mut s, if st == 2 { "\" start= auto\n" } else { "\" start= demand\n" });
                    assert(s@ =~= ps1_part(*rec));
                    return (s, true);
                }
            },
            None => {},
        }
        return (s, false);
    }
    (s, false)
}

/// The PowerShell script of a snapshot.
pub fn make_ps1(snapshot: &Snapshot) -> (r: String)
    ensures
        r@ == make_ps1_spec(*snapshot),
{
    let mut s = String::new();
    push_str(&mut s, PS1_HEADER);
    push_str(&mut s, "# 依据快照：");
    push_str(&mut s, snapshot.id.as_str());
    push_str(&mut s, "  (");
    push_str(&mut s, snapshot.created_at.as_str());
    push_str(&mut s, ")\n");
    push_str(&mut s, "# 恢复以下启动项的启停状态：\n\n");
    let ghost start = s@;
    let recs = &snapshot.records;
    let mut touched = false;
    let mut i: usize = 0;
    while i < recs.len()
        invariant
            i <= recs.len(),
            s@ == start + ps1_body(recs@.take(i as int)),
            touched == exists|j: int| 0 <= j < i && ps1_touches(#[trigger] recs@[j]),
        decreases recs.len() - i,
    {
        assert(recs@.take(i + 1).drop_last() =~= recs@.take(i as int));
        assert(recs@.take(i + 1).last() == recs@[i as int]);
        let (part, t) = ps1_part_exec(&recs[i]);
        push_str(&mut s, part.as_str());
        if t {
            touched = true;
        }
        assert(s@ =~= start + ps1_body(recs@.take(i + 1)));
        i = i + 1;
    }
    assert(recs@.take(recs.len() as int) =~= recs@);
    if !touched {
        push_str(&mut s, PS1_NOTHING_ELSE);
    }
    push_str(&mut s, PS1_FOOTER);
    assert(s@ =~= make_ps1_spec(*snapshot));
    s
}

/// Both scripts of a snapshot. Nothing is written here: the caller puts
/// the texts into files. This never fails.
pub fn export(snapshot: &Snapshot) -> (r: Result<ExportBundle, AppError>)
    ensures
        r matches Ok(b) && b.ps1@ == make_ps1_spec(*snapshot) && b.reg@ == make_reg_spec(*snapshot),
{
    let ps1 = make_ps1(snapshot);
    let reg = make_reg(snapshot);
    Ok(ExportBundle { ps1, reg })
}

/// A `.reg` file is written only when some record is a registry value to
/// write back: with none, it is empty.
pub proof fn lemma_reg_empty_without_registry_values(s: Snapshot)
    requires
        forall|i: int| 0 <= i < s.records@.len() ==> reg_part(#[trigger] s.records@[i]).len() == 0,
    ensures
        make_reg_spec(s).len() == 0,
{
    lemma_reg_body_empty(s.records@);
}

proof fn lemma_reg_body_empty(recs: Seq<SnapshotRecord>)
    requires
        forall|i: int| 0 <= i < recs.len() ==> reg_part(#[trigger] recs[i]).len() == 0,
    ensures
        reg_body(recs).len() == 0,
    decreases recs.len(),
{
    if recs.len() > 0 {
        let t = recs.drop_last();
        assert forall|i: int| 0 <= i < t.len() implies reg_part(#[trigger] t[i]).len() == 0 by {
            assert(t[i] == recs[i]);
        }
        lemma_reg_body_empty(t);
        assert(reg_part(recs[recs.len() - 1]).len() == 0);
    }
}

proof fn lemma_prefix(a: Seq<char>, p: Seq<char>, rest: Seq<char>)
    requires
        p.len() <= a.len(),
        a.subrange(0, p.len() as int) == p,
    ensures
        starts_with(a + rest, p),
{
    assert((a + rest).subrange(0, p.len() as int) =~= a.subrange(0, p.len() as int));
}

/// The restore script never deletes anything: every record's lines begin
/// with `reg add`, `schtasks /Change` or `sc.exe config`, or are a comment,
/// or there are none.
pub proof fn lemma_script_only_writes_back(rec: SnapshotRecord)
    ensures
        ({
            let p = ps1_part(rec);
            ||| p.len() == 0
            ||| starts_with(p, "reg add "@)
            ||| starts_with(p, "schtasks /Change "@)
            ||| starts_with(p, "sc.exe config "@)
            ||| starts_with(p, "# "@)
        }),
{
    reveal_strlit("reg add ");
    reveal_strlit("reg add \"");
    reveal_strlit("schtasks /Change ");
    reveal_strlit("schtasks /Change /TN \"");
    reveal_strlit("sc.exe config ");
    reveal_strlit("sc.exe config \"");
    reveal_strlit("# ");
    reveal_strlit("# 触发器级状态（");
    let t = rec.target;
    if is_reg_source_spec(t.source@) && rec.approved_raw is Some {
        assert("reg add \""@.subrange(0, "reg add "@.len() as int) =~= "reg add "@);
        lemma_prefix("reg add \""@, "reg add "@, ps1_part(rec).skip(9));
        assert(ps1_part(rec) =~= "reg add \""@ + ps1_part(rec).skip(9));
    } else if t.source@ == "ScheduledTask"@ {
        match rec.task_enabled {
            Some(_) => {
                assert("schtasks /Change /TN \""@.subrange(0, "schtasks /Change "@.len() as int) =~= "schtasks /Change "@);
                lemma_prefix("schtasks /Change /TN \""@, "schtasks /Change "@, ps1_part(rec).skip(22));
                assert(ps1_part(rec) =~= "schtasks /Change /TN \""@ + ps1_part(rec).skip(22));
            },
            None => match rec.trigger_enabled {
                Some(_) => {
                    assert("# 触发器级状态（"@.subrange(0, "# "@.len() as int) =~= "# "@);
                    lemma_prefix("# 触发器级状态（"@, "# "@, ps1_part(rec).skip(9));
                    assert(ps1_part(rec) =~= "# 触发器级状态（"@ + ps1_part(rec).skip(9));
                },
                None => {},
            },
        }
    } else if t.source@ == "Service"@ {
        match rec.service_start_type {
            Some(2) | Some(3) => {
                assert("sc.exe config \""@.subrange(0, "sc.exe config "@.len() as int) =~= "sc.exe config "@);
                lemma_prefix("sc.exe config \""@, "sc.exe config "@, ps1_part(rec).skip(15));
                assert(ps1_part(rec) =~= "sc.exe config \""@ + ps1_part(rec).skip(15));
            },
            _ => {},
        }
    }
}

/// `needle` occurs in `hay` as one contiguous piece.
pub open spec fn occurs_in(needle: Seq<char>, hay: Seq<char>) -> bool {
    exists|k: int| 0 <= k && k + needle.len() <= hay.len() && #[trigger] hay.subrange(k, k + needle.len()) == needle
}

proof fn lemma_occurs_at(needle: Seq<char>, hay: Seq<char>, k: int)
    requires
        0 <= k,
        k + needle.len() <= hay.len(),
        hay.subrange(k, k + needle.len()) == needle,
    ensures
        occurs_in(needle, hay),
{
}

proof fn lemma_occurs_in_concat(needle: Seq<char>, a: Seq<char>, b: Seq<char>)
    ensures
        occurs_in(needle, a) ==> occurs_in(needle, a + b),
        occurs_in(needle, b) ==> occurs_in(needle, a + b),
{
    let n = needle.len() as int;
    if occurs_in(needle, a) {
        let k = choose|k: int| 0 <= k && k + n <= a.len() && #[trigger] a.subrange(k, k + n) == needle;
        assert((a + b).subrange(k, k + n) =~= a.subrange(k, k + n));
        lemma_occurs_at(needle, a + b, k);
    }
    if occurs_in(needle, b) {
        let k = choose|k: int| 0 <= k && k + n <= b.len() && #[trigger] b.subrange(k, k + n) == needle;
        assert((a + b).subrange(a.len() + k, a.len() + k + n) =~= b.subrange(k, k + n));
        lemma_occurs_at(needle, a + b, a.len() + k);
    }
}

proof fn lemma_occurs_self(x: Seq<char>)
    ensures
        occurs_in(x, x),
{
    assert(x.subrange(0, x.len() as int) =~= x);
    lemma_occurs_at(x, x, 0);
}

proof fn lemma_reg_body_has(recs: Seq<SnapshotRecord>, i: int)
    requires
        0 <= i < recs.len(),
    ensures
        occurs_in(reg_part(recs[i]), reg_body(recs)),
    decreases recs.len(),
{
    let t = recs.drop_last();
    if i == recs.len() - 1 {
        lemma_occurs_self(reg_part(recs[i]));
        lemma_occurs_in_concat(reg_part(recs[i]), reg_body(t), reg_part(recs.last()));
    } else {
        assert(t[i] == recs[i]);
        lemma_reg_body_has(t, i);
        lemma_occurs_in_concat(reg_part(recs[i]), reg_body(t), reg_part(recs.last()));
    }
}

proof fn lemma_ps1_body_has(recs: Seq<SnapshotRecord>, i: int)
    requires
        0 <= i < recs.len(),
    ensures
        occurs_in(ps1_part(recs[i]), ps1_body(recs)),
    decreases recs.len(),
{
    let t = recs.drop_last();
    if i == recs.len() - 1 {
        lemma_occurs_self(ps1_part(recs[i]));
        lemma_occurs_in_concat(ps1_part(recs[i]), ps1_body(t), ps1_part(recs.last()));
    } else {
        assert(t[i] == recs[i]);
        lemma_ps1_body_has(t, i);
        lemma_occurs_in_concat(ps1_part(recs[i]), ps1_body(t), ps1_part(recs.last()));
    }
}

/// Every record of a `Run`, `RunOnce` or startup-folder source (user,
/// machine and 32-bit views alike) with a recorded `StartupApproved` value
/// is restored by both scripts: the `.reg` file is not empty and holds its
/// key with the value name and bytes, and the PowerShell script holds its
/// `reg add` line.
pub proof fn lemma_export_restores_every_approved_value(s: Snapshot, i: int)
    requires
        0 <= i < s.records@.len(),
        s.records@[i].approved_raw is Some,
        ({
            let src = s.records@[i].target.source@;
            ||| src == "RunUser"@
            ||| src == "RunMachine"@
            ||| src == "RunMachine32"@
            ||| src == "RunOnceUser"@
            ||| src == "RunOnceMachine"@
            ||| src == "RunOnceMachine32"@
            ||| src == "StartupFolderUser"@
            ||| src == "StartupFolderMachine"@
        }),
    ensures
        ({
            let rec = s.records@[i];
            let raw = opt_chars(rec.approved_raw).unwrap();
            let t = rec.target;
            &&& make_reg_spec(s).len() > 0
            &&& occurs_in(reg_value_spec(rec, raw), make_reg_spec(s))
            &&& occurs_in("reg add \""@ + t.location@ + "\" /v \""@ + value_name_of(t) + "\" /t REG_BINARY /d "@
                + hex_dots_spec(raw) + " /f\n"@, make_ps1_spec(s))
        }),
{
    let rec = s.records@[i];
    lemma_named_sources_are_reg_sources(rec.target.source@);
    lemma_reg_has_value(s, i);
    lemma_ps1_has_line(s, i);
}

proof fn lemma_named_sources_are_reg_sources(src: Seq<char>)
    requires
        ({
            ||| src == "RunUser"@
            ||| src == "RunMachine"@
            ||| src == "RunMachine32"@
            ||| src == "RunOnceUser"@
            ||| src == "RunOnceMachine"@
            ||| src == "RunOnceMachine32"@
            ||| src == "StartupFolderUser"@
            ||| src == "StartupFolderMachine"@
        }),
    ensures
        is_reg_source_spec(src),
{
    let l = reg_sources();
    if src == "RunUser"@ { assert(l[0] == src); }
    if src == "RunMachine"@ { assert(l[1] == src); }
    if src == "RunMachine32"@ { assert(l[2] == src); }
    if src == "RunOnceUser"@ { assert(l[3] == src); }
    if src == "RunOnceMachine"@ { assert(l[4] == src); }
    if src == "RunOnceMachine32"@ { assert(l[5] == src); }
    if src == "StartupFolderUser"@ { assert(l[6] == src); }
    if src == "StartupFolderMachine"@ { assert(l[7] == src); }
}

proof fn lemma_reg_has_value(s: Snapshot, i: int)
    requires
        0 <= i < s.records@.len(),
        s.records@[i].approved_raw is Some,
        is_reg_source_spec(s.records@[i].target.source@),
    ensures
        make_reg_spec(s).len() > 0,
        occurs_in(reg_value_spec(s.records@[i], opt_chars(s.records@[i].approved_raw).unwrap()), make_reg_spec(s)),
{
    let rec = s.records@[i];
    let raw = opt_chars(rec.approved_raw).unwrap();
    let v = reg_value_spec(rec, raw);
    let part = reg_part(rec);
    assert(part == v + "\n"@);
    lemma_occurs_self(v);
    lemma_occurs_in_concat(v, v, "\n"@);
    lemma_reg_body_has(s.records@, i);
    let body = reg_body(s.records@);
    lemma_occurs_trans(v, part, body);
    lemma_occurs_self(body);
    lemma_occurs_trans(part, body, body);
    reveal_strlit("\n");
    assert(part.len() > 0);
    assert(make_reg_spec(s) == REG_HEADER@ + body);
    lemma_occurs_in_concat(v, REG_HEADER@, body);
}

proof fn lemma_occurs_trans(a: Seq<char>, b: Seq<char>, c: Seq<char>)
    requires
        occurs_in(a, b),
        occurs_in(b, c),
    ensures
        occurs_in(a, c),
        c.len() >= a.len(),
{
    let kb = choose|k: int| 0 <= k && k + b.len() <= c.len() && #[trigger] c.subrange(k, k + b.len()) == b;
    let ka = choose|k: int| 0 <= k && k + a.len() <= b.len() && #[trigger] b.subrange(k, k + a.len()) == a;
    assert(c.subrange(kb + ka, kb + ka + a.len()) =~= b.subrange(ka, ka + a.len()));
    lemma_occurs_at(a, c, kb + ka);
}

proof fn lemma_ps1_has_line(s: Snapshot, i: int)
    requires
        0 <= i < s.records@.len(),
        s.records@[i].approved_raw is Some,
        is_reg_source_spec(s.records@[i].target.source@),
    ensures
        ({
            let rec = s.records@[i];
            let t = rec.target;
            occurs_in("reg add \""@ + t.location@ + "\" /v \""@ + value_name_of(t) + "\" /t REG_BINARY /d "@
                + hex_dots_spec(opt_chars(rec.approved_raw).unwrap()) + " /f\n"@, make_ps1_spec(s))
        }),
{
    let rec = s.records@[i];
    lemma_ps1_body_has(s.records@, i);
    let head = PS1_HEADER@ + "# 依据快照："@ + s.id@ + "  ("@ + s.created_at@ + ")\n"@ + "# 恢复以下启动项的启停状态：\n\n"@;
    let tail = (if ps1_any_touch(s.records@) { Seq::empty() } else { PS1_NOTHING_ELSE@ }) + PS1_FOOTER@;
    let pb = ps1_body(s.records@);
    assert(make_ps1_spec(s) =~= head + pb + tail);
    lemma_occurs_in_concat(ps1_part(rec), head, pb);
    lemma_occurs_in_concat(ps1_part(rec), head + pb, tail);
}

} // verus!
