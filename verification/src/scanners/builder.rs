//! Building `StartupItem`s.
//!
//! Every scanner builds the same kind of item; what the scanner knows is
//! given through the builder's methods, and what is derived the same way
//! for every source (kind, name priority, defaults) is done in `build`.

use vstd::prelude::*;
use crate::model::{
    derive_kind, derive_kind_spec, BootPhase, DesiredState, DiagnosticInfo, ItemKind, ItemTiming,
    NameSource, RawFields, RiskLevel, Scope, SignerInfo, SourceKind, StartupItem, ValidityStatus,
};
use crate::text::{
    chars_of, eq_ignore_case, find_from, lower_seq, opt_chars, starts_with, string_of, trim,
    trim_chars,
};

verus! {

/// What was read from the target file: its signature and the friendly
/// name in its version information.
#[derive(Debug, Clone)]
pub struct FileMeta {
    pub signer: SignerInfo,
    pub display_name: Option<String>,
    pub name_from: Option<NameSource>,
}

/// What every freshly scanned item has: no id or identity yet, no icon, no
/// rating or reasons, no timing, advice, duplicate mark, wish or snapshot;
/// and the file's signature as it was read (a scanner may only add that the
/// item is a Windows component).
pub open spec fn fresh_item(r: StartupItem, meta: FileMeta) -> bool {
    &&& r.id@.len() == 0 && r.identity_key@.len() == 0
    &&& r.icon_data is None
    &&& r.risk == RiskLevel::Safe && r.risk_reasons@.len() == 0
    &&& r.timing.confidence == crate::model::Confidence::Absent && r.timing.start_estimate_ms is None
        && r.timing.duration_ms is None && r.timing.source_event_id is None
        && r.timing.observed_start_ms is None && r.timing.read_bytes is None
        && r.timing.observed_at_ms is None && r.timing.impact is None
    &&& r.recommendation is None && r.duplicate_of is None && r.snapshot_ref is None
    &&& r.desired.enabled is None && r.desired.delay_sec is None && r.desired.priority_class is None
        && r.desired.io_priority is None && r.desired.order is None && r.desired.probe is None
        && r.desired.depends_on is None
    &&& r.signer.is_signed == meta.signer.is_signed && r.signer.publisher == meta.signer.publisher
        && r.signer.is_microsoft == meta.signer.is_microsoft && r.signer.cert_valid == meta.signer.cert_valid
}

impl FileMeta {
    /// Nothing known about the file (no path, or nothing could be read).
    pub fn unknown() -> (r: FileMeta)
        ensures
            !r.signer.is_signed && r.signer.publisher is None && !r.signer.is_microsoft
                && r.signer.cert_valid is None && !r.signer.is_os_component,
            r.display_name is None,
            r.name_from is None,
    {
        FileMeta { signer: SignerInfo::default(), display_name: None, name_from: None }
    }
}

/// The default scope of a source: the machine-wide ones and services are
/// machine scope, the rest user scope.
pub open spec fn default_scope(source: SourceKind) -> Scope {
    match source {
        SourceKind::StartupFolderMachine | SourceKind::RunMachine | SourceKind::RunMachine32
        | SourceKind::RunOnceMachine | SourceKind::RunOnceMachine32 | SourceKind::Service => Scope::Machine,
        _ => Scope::User,
    }
}

pub struct ItemBuilder {
    pub source: SourceKind,
    pub name: String,
    pub scope: Scope,
    pub location: String,
    pub command: String,
    pub resolved_path: String,
    pub args: Vec<String>,
    pub enabled: bool,
    pub boot_phase: BootPhase,
    /// A friendly name given by the scanner (service display name, task
    /// description), preferred to the file's version information.
    pub display_name: Option<(String, NameSource)>,
    pub validity: ValidityStatus,
    pub validity_detail: Option<String>,
    pub diagnostics: Vec<DiagnosticInfo>,
    /// The scanner knows this is a Windows component.
    pub force_os_component: bool,
    pub raw: RawFields,
}

impl ItemBuilder {
    pub fn new(source: SourceKind, name: String) -> (r: ItemBuilder)
        ensures
            r.source == source,
            r.name == name,
            r.scope == default_scope(source),
            r.location@.len() == 0 && r.command@.len() == 0 && r.resolved_path@.len() == 0,
            r.args@.len() == 0,
            r.enabled,
            r.boot_phase == BootPhase::Unknown,
            r.display_name is None,
            r.validity == ValidityStatus::Valid,
            r.validity_detail is None,
            r.diagnostics@.len() == 0,
            !r.force_os_component,
            r.raw.start_type is None && r.raw.task_enabled is None && r.raw.trigger_enabled is None
                && r.raw.value_name is None && r.raw.detail is Plain,
    {
        let scope = match source {
            SourceKind::StartupFolderMachine | SourceKind::RunMachine | SourceKind::RunMachine32
            | SourceKind::RunOnceMachine | SourceKind::RunOnceMachine32 | SourceKind::Service => Scope::Machine,
            _ => Scope::User,
        };
        ItemBuilder {
            source,
            name,
            scope,
            location: String::new(),
            command: String::new(),
            resolved_path: String::new(),
            args: Vec::new(),
            enabled: true,
            boot_phase: BootPhase::Unknown,
            display_name: None,
            validity: ValidityStatus::Valid,
            validity_detail: None,
            diagnostics: Vec::new(),
            force_os_component: false,
            raw: RawFields::default(),
        }
    }

    /// Sets a friendly name, unless it is blank.
    pub fn set_display_name(&mut self, name: String, from: NameSource)
        ensures
            final(self).display_name == (if trim(name@).len() > 0 {
                Some((name, from))
            } else {
                old(self).display_name
            }),
            final(self).source == old(self).source,
            final(self).name == old(self).name,
            final(self).scope == old(self).scope,
            final(self).location == old(self).location,
            final(self).command == old(self).command,
            final(self).resolved_path == old(self).resolved_path,
            final(self).args == old(self).args,
            final(self).enabled == old(self).enabled,
            final(self).boot_phase == old(self).boot_phase,
            final(self).validity == old(self).validity,
            final(self).validity_detail == old(self).validity_detail,
            final(self).diagnostics == old(self).diagnostics,
            final(self).force_os_component == old(self).force_os_component,
            final(self).raw == old(self).raw,
    {
        if trim_chars(chars_of(name.as_str()).as_slice()).len() > 0 {
            self.display_name = Some((name, from));
        }
    }

    /// Builds the item from what the scanner gave and what was read from
    /// the target file. A name given by the scanner wins over the file's;
    /// a scanner's word that this is a Windows component wins over the
    /// file's location. Risk, ids, timing and advice are filled in later.
    pub fn build(self, meta: FileMeta) -> (r: StartupItem)
        ensures
            r.id@.len() == 0,
            r.identity_key@.len() == 0,
            r.source == self.source,
            r.name == self.name,
            r.display_name == (match self.display_name {
                Some((n, _)) => Some(n),
                None => meta.display_name,
            }),
            r.name_from == (match self.display_name {
                Some((_, f)) => Some(f),
                None => meta.name_from,
            }),
            r.signer.is_signed == meta.signer.is_signed,
            r.signer.publisher == meta.signer.publisher,
            r.signer.is_microsoft == meta.signer.is_microsoft,
            r.signer.cert_valid == meta.signer.cert_valid,
            r.signer.is_os_component == (meta.signer.is_os_component || self.force_os_component),
            r.kind == derive_kind_spec(self.source, r.signer.is_os_component),
            r.summary is None,
            r.command == self.command,
            r.resolved_path == self.resolved_path,
            r.args == self.args,
            r.location == self.location,
            r.scope == self.scope,
            r.enabled == self.enabled,
            r.icon_data is None,
            r.risk == RiskLevel::Safe,
            r.risk_reasons@.len() == 0,
            r.diagnostics == self.diagnostics,
            r.boot_phase == self.boot_phase,
            r.timing.confidence == crate::model::Confidence::Absent,
            fresh_item(r, meta),
            r.validity == self.validity,
            r.validity_detail == self.validity_detail,
            r.recommendation is None,
            r.duplicate_of is None,
            r.raw == self.raw,
            r.snapshot_ref is None,
    {
        let (display_name, name_from) = match self.display_name {
            Some((n, f)) => (Some(n), Some(f)),
            None => (meta.display_name, meta.name_from),
        };
        let mut signer = meta.signer;
        if self.force_os_component {
            signer.is_os_component = true;
        }
        let kind: ItemKind = derive_kind(self.source, &signer);
        StartupItem {
            id: String::new(),
            identity_key: String::new(),
            source: self.source,
            name: self.name,
            kind,
            display_name,
            name_from,
            summary: None,
            command: self.command,
            resolved_path: self.resolved_path,
            args: self.args,
            location: self.location,
            scope: self.scope,
            enabled: self.enabled,
            signer,
            icon_data: None,
            risk: RiskLevel::Safe,
            risk_reasons: Vec::new(),
            diagnostics: self.diagnostics,
            boot_phase: self.boot_phase,
            timing: ItemTiming::default(),
            validity: self.validity,
            validity_detail: self.validity_detail,
            recommendation: None,
            duplicate_of: None,
            raw: self.raw,
            desired: DesiredState::default(),
            snapshot_ref: None,
        }
    }
}

/// Files in a startup folder that are not startup items: `desktop.ini`,
/// `Thumbs.db` (ASCII case ignored) and names starting with `.`.
pub open spec fn is_ignored_spec(name: Seq<char>) -> bool {
    (name.len() > 0 && name[0] == '.') || lower_seq(name) == lower_seq("desktop.ini"@)
        || lower_seq(name) == lower_seq("thumbs.db"@)
}

pub fn is_ignored_file_name(file_name: &str) -> (r: bool)
    ensures
        r == is_ignored_spec(file_name@),
{
    let n = chars_of(file_name);
    (n.len() > 0 && n[0] == '.') || eq_ignore_case(n.as_slice(), chars_of("desktop.ini").as_slice())
        || eq_ignore_case(n.as_slice(), chars_of("thumbs.db").as_slice())
}

/// The index of the last `.` in `s`, if any.
pub open spec fn last_dot(s: Seq<char>) -> Option<int>
    decreases s.len(),
{
    if s.len() == 0 {
        None
    } else if s.last() == '.' {
        Some(s.len() - 1)
    } else {
        last_dot(s.drop_last())
    }
}

/// A file name without its extension; a name whose only dot is the first
/// character, or that has none, stays as it is.
pub open spec fn displayable_spec(name: Seq<char>) -> Seq<char> {
    match last_dot(name) {
        Some(i) if i > 0 => name.take(i),
        _ => name,
    }
}

pub fn displayable_name(file_name: &str) -> (r: String)
    ensures
        r@ == displayable_spec(file_name@),
{
    let n = chars_of(file_name);
    let mut k: usize = n.len();
    assert(n@.take(n.len() as int) =~= n@);
    while k > 0 && n[k - 1] != '.'
        invariant
            k <= n.len(),
            last_dot(n@) == last_dot(n@.take(k as int)),
        decreases k,
    {
        assert(n@.take(k as int).drop_last() =~= n@.take(k - 1));
        k = k - 1;
    }
    if k > 0 {
        assert(n@.take(k as int).last() == '.');
    } else {
        assert(n@.take(0) =~= Seq::<char>::empty());
    }
    if k > 1 {
        let stem = crate::text::slice_of(n.as_slice(), 0, k - 1);
        assert(stem@ =~= n@.take(k - 1));
        string_of(stem.as_slice())
    } else {
        string_of(n.as_slice())
    }
}

} // verus!
