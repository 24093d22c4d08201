//! The registry `Run` and `RunOnce` locations.

use vstd::prelude::*;
use crate::diag::startup_info::{from_utf16, le_units, units_of, utf16_lossy};
use crate::model::{derive_kind_spec, BootPhase, RawFields, Scope, SourceDetail, SourceKind, StartupItem, ValidityStatus};
use crate::scanners::builder::{fresh_item, FileMeta, ItemBuilder};
use crate::text::{chars_eq, chars_of, owned, slice_of, string_of, trim, trim_chars};

verus! {

/// The registry view a key is opened in.
#[derive(Debug, Clone, Copy, PartialEq, Eq, Structural)]
pub enum RegView {
    /// The process's own view; `HKCU\Software` is not redirected.
    Native,
    /// The 64-bit view.
    Wow64_64,
    /// The 32-bit view, redirected to `WOW6432Node`.
    Wow64_32,
}

impl RegView {
    /// The name recorded with an item.
    pub fn label(self) -> (r: &'static str)
        ensures
            r@ == match self {
                RegView::Native => "native"@,
                RegView::Wow64_64 => "64"@,
                RegView::Wow64_32 => "32"@,
            },
    {
        match self {
            RegView::Native => "native",
            RegView::Wow64_64 => "64",
            RegView::Wow64_32 => "32",
        }
    }
}

/// A location to scan.
#[derive(Debug, Clone, Copy)]
pub struct KeySpec {
    /// `HKLM` rather than `HKCU`.
    pub machine: bool,
    pub path: &'static str,
    pub source: SourceKind,
    pub view: RegView,
    /// The location shown to the user, with its real physical path.
    pub display: &'static str,
    /// Pushed by group policy.
    pub policy: bool,
}

/// The locations as (machine, path, source, view, display, policy), in the
/// order the user sees them.
pub open spec fn key_rows() -> Seq<(bool, Seq<char>, SourceKind, RegView, Seq<char>, bool)> {
    seq![
        (false, "Software\\Microsoft\\Windows\\CurrentVersion\\Run"@, SourceKind::RunUser, RegView::Native,
            "HKCU\\Software\\Microsoft\\Windows\\CurrentVersion\\Run"@, false),
        (false, "Software\\Microsoft\\Windows\\CurrentVersion\\RunOnce"@, SourceKind::RunOnceUser, RegView::Native,
            "HKCU\\Software\\Microsoft\\Windows\\CurrentVersion\\RunOnce"@, false),
        (true, "Software\\Microsoft\\Windows\\CurrentVersion\\Run"@, SourceKind::RunMachine, RegView::Wow64_64,
            "HKLM\\Software\\Microsoft\\Windows\\CurrentVersion\\Run"@, false),
        (true, "Software\\Microsoft\\Windows\\CurrentVersion\\Run"@, SourceKind::RunMachine32, RegView::Wow64_32,
            "HKLM\\Software\\WOW6432Node\\Microsoft\\Windows\\CurrentVersion\\Run"@, false),
        (true, "Software\\Microsoft\\Windows\\CurrentVersion\\RunOnce"@, SourceKind::RunOnceMachine, RegView::Wow64_64,
            "HKLM\\Software\\Microsoft\\Windows\\CurrentVersion\\RunOnce"@, false),
        (true, "Software\\Microsoft\\Windows\\CurrentVersion\\RunOnce"@, SourceKind::RunOnceMachine32, RegView::Wow64_32,
            "HKLM\\Software\\WOW6432Node\\Microsoft\\Windows\\CurrentVersion\\RunOnce"@, false),
        (false, "Software\\WOW6432Node\\Microsoft\\Windows\\CurrentVersion\\Run"@, SourceKind::RunUser, RegView::Native,
            "HKCU\\Software\\WOW6432Node\\Microsoft\\Windows\\CurrentVersion\\Run"@, false),
        (false, "Software\\WOW6432Node\\Microsoft\\Windows\\CurrentVersion\\RunOnce"@, SourceKind::RunOnceUser, RegView::Native,
            "HKCU\\Software\\WOW6432Node\\Microsoft\\Windows\\CurrentVersion\\RunOnce"@, false),
        (false, "Software\\Microsoft\\Windows\\CurrentVersion\\Policies\\Explorer\\Run"@, SourceKind::RunUser, RegView::Native,
            "HKCU\\Software\\Microsoft\\Windows\\CurrentVersion\\Policies\\Explorer\\Run"@, true),
        (true, "Software\\Microsoft\\Windows\\CurrentVersion\\Policies\\Explorer\\Run"@, SourceKind::RunMachine, RegView::Wow64_64,
            "HKLM\\Software\\Microsoft\\Windows\\CurrentVersion\\Policies\\Explorer\\Run"@, true),
    ]
}

pub open spec fn key_view(k: KeySpec) -> (bool, Seq<char>, SourceKind, RegView, Seq<char>, bool) {
    (k.machine, k.path@, k.source, k.view, k.display@, k.policy)
}

fn key(machine: bool, path: &'static str, source: SourceKind, view: RegView, display: &'static str, policy: bool) -> (r: KeySpec)
    ensures
        key_view(r) == (machine, path@, source, view, display@, policy),
{
    KeySpec { machine, path, source, view, display, policy }
}

/// Every location the scanner reads.
pub fn keys() -> (r: Vec<KeySpec>)
    ensures
        r@.map_values(|k: KeySpec| key_view(k)) == key_rows(),
{
    let run = "Software\\Microsoft\\Windows\\CurrentVersion\\Run";
    let run_once = "Software\\Microsoft\\Windows\\CurrentVersion\\RunOnce";
    let policy_run = "Software\\Microsoft\\Windows\\CurrentVersion\\Policies\\Explorer\\Run";
    let mut v: Vec<KeySpec> = Vec::new();
    v.push(key(false, run, SourceKind::RunUser, RegView::Native, "HKCU\\Software\\Microsoft\\Windows\\CurrentVersion\\Run", false));
    v.push(key(false, run_once, SourceKind::RunOnceUser, RegView::Native, "HKCU\\Software\\Microsoft\\Windows\\CurrentVersion\\RunOnce", false));
    v.push(key(true, run, SourceKind::RunMachine, RegView::Wow64_64, "HKLM\\Software\\Microsoft\\Windows\\CurrentVersion\\Run", false));
    v.push(key(true, run, SourceKind::RunMachine32, RegView::Wow64_32, "HKLM\\Software\\WOW6432Node\\Microsoft\\Windows\\CurrentVersion\\Run", false));
    v.push(key(true, run_once, SourceKind::RunOnceMachine, RegView::Wow64_64, "HKLM\\Software\\Microsoft\\Windows\\CurrentVersion\\RunOnce", false));
    v.push(key(true, run_once, SourceKind::RunOnceMachine32, RegView::Wow64_32, "HKLM\\Software\\WOW6432Node\\Microsoft\\Windows\\CurrentVersion\\RunOnce", false));
    v.push(key(false, "Software\\WOW6432Node\\Microsoft\\Windows\\CurrentVersion\\Run", SourceKind::RunUser, RegView::Native, "HKCU\\Software\\WOW6432Node\\Microsoft\\Windows\\CurrentVersion\\Run", false));
    v.push(key(false, "Software\\WOW6432Node\\Microsoft\\Windows\\CurrentVersion\\RunOnce", SourceKind::RunOnceUser, RegView::Native, "HKCU\\Software\\WOW6432Node\\Microsoft\\Windows\\CurrentVersion\\RunOnce", false));
    v.push(key(false, policy_run, SourceKind::RunUser, RegView::Native, "HKCU\\Software\\Microsoft\\Windows\\CurrentVersion\\Policies\\Explorer\\Run", true));
    v.push(key(true, policy_run, SourceKind::RunMachine, RegView::Wow64_64, "HKLM\\Software\\Microsoft\\Windows\\CurrentVersion\\Policies\\Explorer\\Run", true));
    assert(v@.map_values(|k: KeySpec| key_view(k)) =~= key_rows());
    v
}

pub open spec fn is_run_once_spec(s: SourceKind) -> bool {
    s is RunOnceUser || s is RunOnceMachine || s is RunOnceMachine32
}

/// `RunOnce` entries run once and are gone; `Run` entries stay.
pub fn is_run_once(source: SourceKind) -> (r: bool)
    ensures
        r == is_run_once_spec(source),
{
    matches!(source, SourceKind::RunOnceUser | SourceKind::RunOnceMachine | SourceKind::RunOnceMachine32)
}

// ───────────────────────── values ─────────────────────────

/// The type of a registry value.
#[derive(Debug, Clone, Copy, PartialEq, Eq, Structural)]
pub enum RegValueType {
    Sz,
    ExpandSz,
    MultiSz,
    Dword,
    Qword,
    Binary,
    NoneType,
    Other,
}

/// What a value holds: a command line and its type's name, or not a command.
#[derive(Debug, Clone)]
pub enum Decoded {
    Command(String, &'static str),
    NotACommand(&'static str),
}

/// Trailing NULs removed, then blanks around.
pub open spec fn strip_nuls(s: Seq<char>) -> Seq<char>
    decreases s.len(),
{
    if s.len() > 0 && s.last() == '\0' {
        strip_nuls(s.drop_last())
    } else {
        s
    }
}

pub open spec fn clean_spec(s: Seq<char>) -> Seq<char> {
    trim(strip_nuls(s))
}

fn clean(v: &[char]) -> (r: Vec<char>)
    ensures
        r@ == clean_spec(v@),
{
    let mut k = v.len();
    assert(v@.take(k as int) =~= v@);
    while k > 0 && v[k - 1] == '\0'
        invariant
            k <= v.len(),
            strip_nuls(v@) == strip_nuls(v@.take(k as int)),
        decreases k,
    {
        assert(v@.take(k as int).drop_last() =~= v@.take(k - 1));
        k = k - 1;
    }
    let head = slice_of(v, 0, k);
    assert(head@ =~= v@.take(k as int));
    trim_chars(head.as_slice())
}

/// The first NUL-separated part of `s` that is not empty once cleaned.
pub open spec fn first_part(s: Seq<char>, from: int) -> Option<Seq<char>>
    decreases s.len() - from,
{
    if from < 0 || from > s.len() {
        None
    } else {
        let end = next_nul(s, from);
        let part = clean_spec(s.subrange(from, end));
        if part.len() > 0 {
            Some(part)
        } else if end >= s.len() {
            None
        } else {
            proof {
                lemma_next_nul(s, from);
            }
            first_part(s, end + 1)
        }
    }
}

/// The position of the first NUL at or after `from`, or the end.
pub open spec fn next_nul(s: Seq<char>, from: int) -> int
    decreases s.len() - from,
{
    if from >= s.len() || from < 0 {
        s.len() as int
    } else if s[from] == '\0' {
        from
    } else {
        next_nul(s, from + 1)
    }
}

pub proof fn lemma_next_nul(s: Seq<char>, from: int)
    requires
        0 <= from <= s.len(),
    ensures
        from <= next_nul(s, from) <= s.len(),
        forall|j: int| from <= j < next_nul(s, from) ==> s[j] != '\0',
        next_nul(s, from) < s.len() ==> s[next_nul(s, from)] == '\0',
    decreases s.len() - from,
{
    if from < s.len() && s[from] != '\0' {
        lemma_next_nul(s, from + 1);
    }
}

/// What a value decodes to: the string types as a command (the expandable
/// one is not expanded here), a multi-string as its first non-empty part,
/// any other type as not a command.
pub open spec fn decode_spec(bytes: Seq<u8>, t: RegValueType) -> Option<(Seq<char>, Seq<char>)> {
    let text = utf16_lossy(le_units(bytes));
    match t {
        RegValueType::Sz => Some((clean_spec(text), "REG_SZ"@)),
        RegValueType::ExpandSz => Some((clean_spec(text), "REG_EXPAND_SZ"@)),
        RegValueType::MultiSz => match first_part(text, 0) {
            Some(p) => Some((p, "REG_MULTI_SZ"@)),
            None => None,
        },
        _ => None,
    }
}

pub open spec fn not_command_name(t: RegValueType) -> Seq<char> {
    match t {
        RegValueType::MultiSz => "REG_MULTI_SZ（内容为空）"@,
        RegValueType::Dword => "REG_DWORD"@,
        RegValueType::Qword => "REG_QWORD"@,
        RegValueType::Binary => "REG_BINARY"@,
        RegValueType::NoneType => "REG_NONE"@,
        _ => "未知类型"@,
    }
}

fn first_part_exec(s: &[char]) -> (r: Option<Vec<char>>)
    ensures
        match r {
            Some(p) => first_part(s@, 0) == Some(p@),
            None => first_part(s@, 0) is None,
        },
{
    let mut from: usize = 0;
    while from <= s.len()
        invariant
            from <= s.len() + 1,
            from <= s.len() ==> first_part(s@, 0) == first_part(s@, from as int),
            from > s.len() ==> first_part(s@, 0) is None,
        decreases s.len() + 1 - from,
    {
        let mut end = from;
        proof {
            lemma_next_nul(s@, from as int);
        }
        while end < s.len() && s[end] != '\0'
            invariant
                from <= end <= s.len(),
                next_nul(s@, from as int) == next_nul(s@, end as int),
            decreases s.len() - end,
        {
            end = end + 1;
        }
        let part = clean(slice_of(s, from, end).as_slice());
        if part.len() > 0 {
            return Some(part);
        }
        if end >= s.len() {
            return None;
        }
        from = end + 1;
    }
    None
}

/// A registry value's bytes as a command line (UTF-16, little-endian; an
/// odd last byte is dropped, trailing NULs and blanks are removed).
pub fn decode_command(bytes: &[u8], vtype: RegValueType) -> (r: Decoded)
    ensures
        match r {
            Decoded::Command(c, t) => decode_spec(bytes@, vtype) == Some((c@, t@)),
            Decoded::NotACommand(t) => decode_spec(bytes@, vtype) is None && t@ == not_command_name(vtype),
        },
{
    let text = from_utf16(units_of(bytes, 0, false).as_slice());
    assert(bytes@.skip(0) =~= bytes@);
    let v = chars_of(text.as_str());
    match vtype {
        RegValueType::Sz => Decoded::Command(string_of(clean(v.as_slice()).as_slice()), "REG_SZ"),
        RegValueType::ExpandSz => Decoded::Command(string_of(clean(v.as_slice()).as_slice()), "REG_EXPAND_SZ"),
        RegValueType::MultiSz => match first_part_exec(v.as_slice()) {
            Some(p) => Decoded::Command(string_of(p.as_slice()), "REG_MULTI_SZ"),
            None => Decoded::NotACommand("REG_MULTI_SZ（内容为空）"),
        },
        RegValueType::Dword => Decoded::NotACommand("REG_DWORD"),
        RegValueType::Qword => Decoded::NotACommand("REG_QWORD"),
        RegValueType::Binary => Decoded::NotACommand("REG_BINARY"),
        RegValueType::NoneType => Decoded::NotACommand("REG_NONE"),
        RegValueType::Other => Decoded::NotACommand("未知类型"),
    }
}

/// Whether a value becomes an item: everything but a `-` in a `RunOnce`
/// key, which cancels a pending entry and runs nothing. An empty value is
/// kept, for the validity check to speak of.
pub fn keeps_value(source: SourceKind, command: &str) -> (r: bool)
    ensures
        r == !(is_run_once_spec(source) && trim(command@) == seq!['-']),
{
    let t = trim_chars(chars_of(command).as_slice());
    let dash = t.len() == 1 && t[0] == '-';
    proof {
        if t@.len() == 1 && t@[0] == '-' {
            assert(t@ =~= seq!['-']);
        }
    }
    !(is_run_once(source) && dash)
}

/// An open error in plain words: access denied (error 5) says that the
/// location needs administrator rights; anything else is shown as it is.
pub fn describe_open_error(os_error: Option<i32>, text: &str) -> (r: String)
    ensures
        r@ == (if os_error == Some(5i32) { "拒绝访问（该位置需要管理员权限才能查看）"@ } else { text@ }),
{
    if os_error == Some(5i32) {
        owned("拒绝访问（该位置需要管理员权限才能查看）")
    } else {
        owned(text)
    }
}

/// A `Run` value as an item. `target` and `args` are the command split
/// (and a bare program name or a shortcut resolved); `enabled` is what
/// `StartupApproved` says of the value. The name shown is the value name
/// without blanks around; the value name as written is kept, since
/// `StartupApproved` and every write go by it byte for byte.
pub fn build_item(spec: &KeySpec, value_name: &str, command: &str, target: String, args: Vec<String>, enabled: bool, meta: FileMeta) -> (r: StartupItem)
    ensures
        r.source == spec.source,
        r.name@ == trim(value_name@),
        r.scope == (if spec.machine { Scope::Machine } else { Scope::User }),
        r.location@ == spec.display@,
        r.command@ == command@,
        r.resolved_path == target,
        r.args == args,
        r.enabled == enabled,
        r.boot_phase == BootPhase::Logon,
        crate::text::opt_chars(r.raw.value_name) == Some(value_name@),
        r.raw.start_type is None && r.raw.task_enabled is None && r.raw.trigger_enabled is None,
        r.raw.detail matches SourceDetail::RunValue { key_path, policy, run_once }
            && key_path@ == spec.path@ && policy == spec.policy && run_once == is_run_once_spec(spec.source),
        r.display_name == meta.display_name,
        r.name_from == meta.name_from,
        r.summary is None,
        r.signer.is_os_component == meta.signer.is_os_component,
        r.kind == derive_kind_spec(spec.source, meta.signer.is_os_component),
        r.validity == ValidityStatus::Valid && r.validity_detail is None,
        r.diagnostics@.len() == 0,
        fresh_item(r, meta),
{
    let name = string_of(trim_chars(chars_of(value_name).as_slice()).as_slice());
    let mut b = ItemBuilder::new(spec.source, name);
    b.scope = if spec.machine { Scope::Machine } else { Scope::User };
    b.location = owned(spec.display);
    b.command = owned(command);
    b.resolved_path = target;
    b.args = args;
    b.enabled = enabled;
    b.boot_phase = BootPhase::Logon;
    b.raw = RawFields {
        start_type: None,
        task_enabled: None,
        trigger_enabled: None,
        value_name: Some(owned(value_name)),
        detail: SourceDetail::RunValue { key_path: owned(spec.path), policy: spec.policy, run_once: is_run_once(spec.source) },
    };
    b.build(meta)
}

} // verus!
