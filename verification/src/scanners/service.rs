//! Services that start by themselves.
//!
//! A service is collected when it starts automatically (delayed or not),
//! when it is started on demand by a trigger, or when it is one of the
//! services that should start automatically (so that a changed start type
//! can be pointed out even when the service is set to manual or
//! disabled). A manual service without triggers and a disabled one are
//! not startup items. Reading the service manager is the caller's.

use vstd::prelude::*;
use crate::diag::codes;
use crate::diag::item_cost::{diag_views, DiagView};
use crate::diag::known::{auto_index, auto_service_severities, auto_service_texts, lookup_auto_service};
use crate::model::{
    derive_kind_spec, BootPhase, DiagnosticInfo, NameSource, RawFields, RiskLevel, Scope, SourceDetail, SourceKind, StartupItem,
    ValidityStatus,
};
use crate::scanners::builder::{fresh_item, FileMeta, ItemBuilder};
use crate::text::{
    chars_of, decimal, lower_chars, lower_seq, opt_chars, owned, push_decimal, push_str, slice_of,
    starts_with, starts_with_exec, string_of, trim, trim_chars,
};

verus! {

/// What was read of one service.
#[derive(Debug, Clone)]
pub struct ServiceRecord {
    pub name: String,
    pub display_name: String,
    /// 2 automatic, 3 on demand, 4 disabled.
    pub start_type: u32,
    /// Delayed automatic start (meaningful for automatic services only).
    pub delayed: bool,
    pub image_path: String,
    /// How many triggers start it.
    pub trigger_count: u32,
    /// Whether a trigger reacts to a change of the system's state.
    pub has_system_state_trigger: bool,
}

pub const AUTO_PHRASE: &'static str = "开机时由系统自动启动";
pub const DELAYED_PHRASE: &'static str = "开机时自动启动，但会等关键服务先起来之后再启动";
pub const DISABLED_PHRASE: &'static str = "已禁用，不会启动";
pub const TRIGGERED_PHRASE: &'static str = "平时不启动，由系统事件（如设备接入、网络可用）触发";
pub const MANUAL_PHRASE: &'static str = "需要时手动启动";

/// When the service starts, in plain words.
pub open spec fn timing_phrase_spec(r: ServiceRecord) -> Seq<char> {
    if r.start_type == 4 {
        DISABLED_PHRASE@
    } else if r.start_type == 2 {
        if r.delayed { DELAYED_PHRASE@ } else { AUTO_PHRASE@ }
    } else if r.trigger_count > 0 {
        TRIGGERED_PHRASE@
    } else {
        MANUAL_PHRASE@
    }
}

impl ServiceRecord {
    pub fn is_auto(&self) -> (r: bool)
        ensures
            r == (self.start_type == 2),
    {
        self.start_type == 2
    }

    pub fn is_disabled(&self) -> (r: bool)
        ensures
            r == (self.start_type == 4),
    {
        self.start_type == 4
    }

    /// Not automatic; a delayed automatic start is automatic.
    pub fn not_auto(&self) -> (r: bool)
        ensures
            r == (self.start_type != 2),
    {
        !self.is_auto()
    }

    pub fn timing_phrase(&self) -> (r: String)
        ensures
            r@ == timing_phrase_spec(*self),
    {
        if self.is_disabled() {
            return owned(DISABLED_PHRASE);
        }
        if self.is_auto() {
            return if self.delayed { owned(DELAYED_PHRASE) } else { owned(AUTO_PHRASE) };
        }
        if self.trigger_count > 0 {
            return owned(TRIGGERED_PHRASE);
        }
        owned(MANUAL_PHRASE)
    }
}

/// Why a service is collected.
#[derive(Debug, Clone, Copy, PartialEq, Eq, Structural)]
pub enum CollectReason {
    /// It starts automatically.
    AutoStart,
    /// A system event starts it (or it should start automatically).
    Triggered,
}

pub open spec fn collect_reason_spec(r: ServiceRecord) -> Option<CollectReason> {
    if r.start_type == 2 {
        Some(CollectReason::AutoStart)
    } else if r.start_type != 4 && r.trigger_count > 0 {
        Some(CollectReason::Triggered)
    } else if auto_index(r.name@) is Some {
        Some(CollectReason::Triggered)
    } else {
        None
    }
}

/// Whether a service is a startup item, and why.
pub fn collect_reason(rec: &ServiceRecord) -> (r: Option<CollectReason>)
    ensures
        r == collect_reason_spec(*rec),
{
    if rec.is_auto() {
        return Some(CollectReason::AutoStart);
    }
    if !rec.is_disabled() && rec.trigger_count > 0 {
        return Some(CollectReason::Triggered);
    }
    if lookup_auto_service(rec.name.as_str()).is_some() {
        return Some(CollectReason::Triggered);
    }
    None
}

/// The start type in plain words.
pub open spec fn status_phrase_spec(t: u32) -> Seq<char> {
    if t == 2 { "自动"@ } else if t == 3 { "手动"@ } else if t == 4 { "已禁用"@ } else { "未知"@ }
}

pub fn status_phrase(rec: &ServiceRecord) -> (r: &'static str)
    ensures
        r@ == status_phrase_spec(rec.start_type),
{
    match rec.start_type {
        2 => "自动",
        3 => "手动",
        4 => "已禁用",
        _ => "未知",
    }
}

/// Services are machine-wide.
pub fn scope_phrase(rec: &ServiceRecord) -> (r: &'static str)
    ensures
        r@ == "全机器"@,
{
    "全机器"
}

/// Automatic services start in the session manager's phase; delayed and
/// triggered ones around logon.
pub fn service_boot_phase(rec: &ServiceRecord) -> (r: BootPhase)
    ensures
        r == (if rec.start_type == 2 && !rec.delayed { BootPhase::Smss } else { BootPhase::Logon }),
{
    if rec.is_auto() && !rec.delayed {
        BootPhase::Smss
    } else {
        BootPhase::Logon
    }
}

/// A service image path made absolute: `\SystemRoot` (any case) becomes
/// the Windows folder; the object manager prefixes `\??\` and `\\?\` are
/// removed; blanks around are trimmed.
pub open spec fn expand_image_spec(raw: Seq<char>, root: Seq<char>) -> Seq<char> {
    let t = trim(raw);
    if starts_with(lower_seq(t), "\\systemroot"@) {
        root + t.skip(11)
    } else if starts_with(t, "\\??\\"@) {
        t.skip(4)
    } else if starts_with(t, "\\\\?\\"@) {
        t.skip(4)
    } else {
        t
    }
}

pub fn expand_image_path(raw: &str, system_root: &str) -> (r: String)
    ensures
        r@ == expand_image_spec(raw@, system_root@),
{
    proof {
        reveal_strlit("\\systemroot");
        reveal_strlit("\\??\\");
        reveal_strlit("\\\\?\\");
    }
    let t = trim_chars(chars_of(raw).as_slice());
    let lower = lower_chars(t.as_slice());
    if starts_with_exec(lower.as_slice(), chars_of("\\systemroot").as_slice()) {
        let mut s = owned(system_root);
        push_str(&mut s, string_of(slice_of(t.as_slice(), 11, t.len()).as_slice()).as_str());
        return s;
    }
    if starts_with_exec(t.as_slice(), chars_of("\\??\\").as_slice()) {
        return string_of(slice_of(t.as_slice(), 4, t.len()).as_slice());
    }
    if starts_with_exec(t.as_slice(), chars_of("\\\\?\\").as_slice()) {
        return string_of(slice_of(t.as_slice(), 4, t.len()).as_slice());
    }
    string_of(t.as_slice())
}

/// The note of a service that should start automatically but does not.
pub open spec fn not_auto_diag(r: ServiceRecord, row: int) -> DiagView {
    let t = auto_service_texts()[row];
    let actual = if r.start_type == 3 { "手动"@ } else if r.start_type == 4 { "禁用"@ } else { "非自动"@ };
    (
        codes::MANUAL_BUT_SHOULD_AUTO@,
        auto_service_severities()[row],
        t.2 + " 的启动类型被设成了「"@ + actual + "」，而它出厂默认是「"@ + t.1 + "」。"@ + t.3,
        Some("服务 "@ + r.name@ + " 当前 Start="@ + decimal(r.start_type as nat) + "，预期为自动"@),
    )
}

pub open spec fn service_diags(r: ServiceRecord) -> Seq<DiagView> {
    match auto_index(r.name@) {
        Some(row) => if r.start_type != 2 { seq![not_auto_diag(r, row)] } else { Seq::empty() },
        None => Seq::empty(),
    }
}

/// Why the service is in the list, in one sentence: when it starts; for a
/// service collected only because it should start automatically, also its
/// current state.
pub open spec fn service_summary(r: ServiceRecord) -> Seq<char> {
    if r.start_type == 2 || r.trigger_count > 0 {
        timing_phrase_spec(r)
    } else {
        timing_phrase_spec(r) + "。当前状态："@ + status_phrase_spec(r.start_type)
    }
}

/// A service as a startup item, or `None` when it is not one. `target` and
/// `args` are its expanded image path split into program and arguments.
/// The display name is the service's own when it is not blank; a service
/// that should start automatically and does not gets a note saying what
/// that costs.
pub fn build_item(rec: &ServiceRecord, target: String, args: Vec<String>, meta: FileMeta) -> (r: Option<StartupItem>)
    ensures
        r is None <==> collect_reason_spec(*rec) is None,
        r matches Some(item) ==> {
            &&& item.source == SourceKind::Service
            &&& item.name@ == rec.name@
            &&& item.location@ == "服务（全机器）"@
            &&& item.command@ == rec.image_path@
            &&& item.resolved_path == target
            &&& item.args == args
            &&& item.enabled == (rec.start_type != 4)
            &&& item.boot_phase == (if rec.start_type == 2 && !rec.delayed { BootPhase::Smss } else { BootPhase::Logon })
            &&& opt_chars(item.display_name) == (if trim(rec.display_name@).len() > 0 {
                Some(rec.display_name@)
            } else {
                opt_chars(meta.display_name)
            })
            &&& diag_views(item.diagnostics@) == service_diags(*rec)
            &&& item.name_from == (if trim(rec.display_name@).len() > 0 {
                Some(NameSource::ServiceDisplayName)
            } else {
                meta.name_from
            })
            &&& item.raw.start_type == Some(rec.start_type as u64)
            &&& item.raw.task_enabled is None && item.raw.trigger_enabled is None && item.raw.value_name is None
            &&& item.raw.detail == (SourceDetail::Service {
                delayed_autostart: rec.delayed,
                trigger_count: rec.trigger_count,
                has_system_state_trigger: rec.has_system_state_trigger,
                collect_reason: collect_reason_spec(*rec)->0,
            })
            &&& opt_chars(item.summary) == Some(service_summary(*rec))
            &&& item.scope == Scope::Machine
            &&& item.signer.is_os_component == meta.signer.is_os_component
            &&& item.kind == derive_kind_spec(SourceKind::Service, meta.signer.is_os_component)
            &&& item.validity == ValidityStatus::Valid && item.validity_detail is None
            &&& fresh_item(item, meta)
        },
{
    let reason = match collect_reason(rec) {
        Some(r) => r,
        None => return None,
    };
    let known = lookup_auto_service(rec.name.as_str());
    let mut b = ItemBuilder::new(SourceKind::Service, owned(rec.name.as_str()));
    b.location = owned("服务（全机器）");
    b.command = owned(rec.image_path.as_str());
    b.resolved_path = target;
    b.args = args;
    b.enabled = !rec.is_disabled();
    b.boot_phase = service_boot_phase(rec);
    b.raw = RawFields {
        start_type: Some(rec.start_type as u64),
        task_enabled: None,
        trigger_enabled: None,
        value_name: None,
        detail: SourceDetail::Service {
            delayed_autostart: rec.delayed,
            trigger_count: rec.trigger_count,
            has_system_state_trigger: rec.has_system_state_trigger,
            collect_reason: reason,
        },
    };
    b.set_display_name(owned(rec.display_name.as_str()), NameSource::ServiceDisplayName);
    match known {
        Some(k) => {
            if rec.not_auto() {
                let actual = if rec.start_type == 3 { "手动" } else if rec.start_type == 4 { "禁用" } else { "非自动" };
                let mut m = owned(k.purpose);
                push_str(&mut m, " 的启动类型被设成了「");
                push_str(&mut m, actual);
                push_str(&mut m, "」，而它出厂默认是「");
                push_str(&mut m, k.default_start);
                push_str(&mut m, "」。");
                push_str(&mut m, k.consequence);
                let mut e = owned("服务 ");
                push_str(&mut e, rec.name.as_str());
                push_str(&mut e, " 当前 Start=");
                push_decimal(&mut e, rec.start_type as u64);
                push_str(&mut e, "，预期为自动");
                let mut ds: Vec<DiagnosticInfo> = Vec::new();
                ds.push(DiagnosticInfo { code: owned(codes::MANUAL_BUT_SHOULD_AUTO), severity: k.severity, message: m, evidence: Some(e) });
                proof {
                    let row = auto_index(rec.name@).unwrap();
                    assert(crate::diag::known::auto_row(k, row));
                    assert(diag_views(ds@) =~= seq![not_auto_diag(*rec, row)]);
                }
                b.diagnostics = ds;
            }
        },
        None => {},
    }
    assert(diag_views(b.diagnostics@) =~= service_diags(*rec));
    let mut item = b.build(meta);
    let summary = match reason {
        CollectReason::AutoStart => rec.timing_phrase(),
        CollectReason::Triggered => if rec.trigger_count > 0 {
            rec.timing_phrase()
        } else {
            let mut s = rec.timing_phrase();
            push_str(&mut s, "。当前状态：");
            push_str(&mut s, status_phrase(rec));
            s
        },
    };
    item.summary = Some(summary);
    Some(item)
}

} // verus!
