//! The data model shared by scanning, diagnosis and the user interface.

use vstd::prelude::*;

verus! {

/// Where a startup item is registered.
#[derive(Debug, Clone, Copy, PartialEq, Eq, Hash, Structural)]
pub enum SourceKind {
    StartupFolderUser,
    StartupFolderMachine,
    RunUser,
    RunMachine,
    RunMachine32,
    RunOnceUser,
    RunOnceMachine,
    RunOnceMachine32,
    ScheduledTask,
    Service,
    SystemHook,
}

/// The priority for keeping an entry among duplicates; smaller is kept first.
pub open spec fn keep_rank_spec(s: SourceKind) -> u8 {
    match s {
        SourceKind::StartupFolderMachine => 0,
        SourceKind::StartupFolderUser => 1,
        SourceKind::Service => 2,
        SourceKind::ScheduledTask => 3,
        SourceKind::RunMachine => 4,
        SourceKind::RunMachine32 => 5,
        SourceKind::RunUser => 6,
        SourceKind::RunOnceMachine => 7,
        SourceKind::RunOnceMachine32 => 8,
        SourceKind::RunOnceUser => 9,
        SourceKind::SystemHook => 10,
    }
}

/// The keeping order among duplicates, most preferred first: the machine's
/// startup folder, the user's startup folder, services, tasks, the Run
/// keys (machine, its 32-bit view, user), the RunOnce keys (machine, its
/// 32-bit view, user), and system hooks last.
pub open spec fn keep_order() -> Seq<SourceKind> {
    seq![
        SourceKind::StartupFolderMachine, SourceKind::StartupFolderUser, SourceKind::Service,
        SourceKind::ScheduledTask, SourceKind::RunMachine, SourceKind::RunMachine32, SourceKind::RunUser,
        SourceKind::RunOnceMachine, SourceKind::RunOnceMachine32, SourceKind::RunOnceUser,
        SourceKind::SystemHook,
    ]
}

/// The keep rank strictly increases along `keep_order`, which lists every
/// source once: a source earlier in that order is always kept in
/// preference to a later one.
pub proof fn lemma_keep_rank_follows_keep_order()
    ensures
        forall|s: SourceKind| #[trigger] keep_order().contains(s),
        forall|i: int, j: int| 0 <= i < j < keep_order().len() ==>
            keep_rank_spec(#[trigger] keep_order()[i]) < keep_rank_spec(#[trigger] keep_order()[j]),
{
    let o = keep_order();
    assert forall|s: SourceKind| #[trigger] o.contains(s) by {
        match s {
            SourceKind::StartupFolderMachine => assert(o[0] == s),
            SourceKind::StartupFolderUser => assert(o[1] == s),
            SourceKind::Service => assert(o[2] == s),
            SourceKind::ScheduledTask => assert(o[3] == s),
            SourceKind::RunMachine => assert(o[4] == s),
            SourceKind::RunMachine32 => assert(o[5] == s),
            SourceKind::RunUser => assert(o[6] == s),
            SourceKind::RunOnceMachine => assert(o[7] == s),
            SourceKind::RunOnceMachine32 => assert(o[8] == s),
            SourceKind::RunOnceUser => assert(o[9] == s),
            SourceKind::SystemHook => assert(o[10] == s),
        }
    }
    assert forall|i: int, j: int| 0 <= i < j < o.len() implies
        keep_rank_spec(#[trigger] o[i]) < keep_rank_spec(#[trigger] o[j]) by {
        assert(forall|k: int| 0 <= k < o.len() ==> keep_rank_spec(#[trigger] o[k]) == k);
    }
}

/// Sources whose one record is one launch of a program: startup folders,
/// Run and RunOnce. Services, tasks and hooks are not.
pub open spec fn is_autostart_spec(s: SourceKind) -> bool {
    !(s is Service || s is ScheduledTask || s is SystemHook)
}

impl SourceKind {
    /// Priority for keeping an entry among duplicates, smaller first:
    /// machine startup folder, user startup folder, service, task, Run keys.
    pub fn keep_rank(self) -> (r: u8)
        ensures
            r == keep_rank_spec(self),
    {
        match self {
            SourceKind::StartupFolderMachine => 0,
            SourceKind::StartupFolderUser => 1,
            SourceKind::Service => 2,
            SourceKind::ScheduledTask => 3,
            SourceKind::RunMachine => 4,
            SourceKind::RunMachine32 => 5,
            SourceKind::RunUser => 6,
            SourceKind::RunOnceMachine => 7,
            SourceKind::RunOnceMachine32 => 8,
            SourceKind::RunOnceUser => 9,
            SourceKind::SystemHook => 10,
        }
    }

    /// Whether this source is an autostart entry (startup folder, Run,
    /// RunOnce), for which a second record of one program is redundant.
    pub fn is_autostart_entry(self) -> (r: bool)
        ensures
            r == is_autostart_spec(self),
    {
        !matches!(self, SourceKind::Service | SourceKind::ScheduledTask | SourceKind::SystemHook)
    }
}

/// What the item is, for the user; independent of where it is registered.
#[derive(Debug, Clone, Copy, PartialEq, Eq, Hash, Structural)]
pub enum ItemKind {
    App,
    Service,
    Task,
    Hook,
    System,
}

/// Where the friendly name was read from.
#[derive(Debug, Clone, Copy, PartialEq, Eq, Structural)]
pub enum NameSource {
    FileDescription,
    ProductName,
    ServiceDisplayName,
    TaskDescription,
    FileName,
    RegistryValueName,
}

/// Risk zones; `Locked` items are never offered for changes.
#[derive(Debug, Clone, Copy, PartialEq, Eq, PartialOrd, Ord, Structural)]
pub enum RiskLevel {
    Locked,
    High,
    Medium,
    Safe,
}

/// Startup impact, on Task Manager's scale.
#[derive(Debug, Clone, Copy, PartialEq, Eq, PartialOrd, Ord, Structural)]
pub enum ImpactLevel {
    Low,
    Medium,
    High,
}

/// The resources an item used in the logon window, as Windows measured them.
#[derive(Debug, Clone, PartialEq, Eq)]
pub struct ItemImpact {
    /// CPU time in the window (ms), summed over cores.
    pub cpu_ms: u64,
    /// Bytes read and written in the window.
    pub disk_bytes: u64,
    pub level: ImpactLevel,
    /// When in the trace window it was started.
    pub started_in_trace_ms: Option<u64>,
    /// How many process records were summed up.
    pub process_count: usize,
}

/// What kind of timing evidence an item has.
#[derive(Debug, Clone, Copy, PartialEq, Eq, Structural)]
pub enum Confidence {
    /// A duration recorded by the event log.
    Measured,
    /// A start time recorded by the kernel, no duration.
    Observed,
    /// A phase boundary, not a measurement.
    Estimated,
    /// Not enough information; not drawn on the time line.
    Absent,
}

/// Boot phases, in the order they happen.
#[derive(Debug, Clone, Copy, PartialEq, Eq, Hash, Structural)]
pub enum BootPhase {
    Kernel,
    Driver,
    Devices,
    Smss,
    UserAuth,
    UserInit,
    Shell,
    Logon,
    Unknown,
}

#[derive(Debug, Clone, Copy, PartialEq, Eq, Structural)]
pub enum Scope {
    User,
    Machine,
}

/// Whether an item still points at something that runs.
#[derive(Debug, Clone, Copy, PartialEq, Eq, Structural)]
pub enum ValidityStatus {
    /// The target exists and looks executable.
    Valid,
    MissingTarget,
    NotExecutable,
    Unreachable,
    Duplicate,
    DisabledRemnant,
    Unknown,
}

pub open spec fn is_broken_spec(v: ValidityStatus) -> bool {
    v is MissingTarget || v is NotExecutable
}

impl ValidityStatus {
    /// A missing or non-executable target is a problem to act on; the other
    /// states are mild or may be temporary.
    pub fn is_broken(self) -> (r: bool)
        ensures
            r == is_broken_spec(self),
    {
        matches!(self, ValidityStatus::MissingTarget | ValidityStatus::NotExecutable)
    }
}

#[derive(Debug, Clone, Copy, PartialEq, Eq, Structural)]
pub enum RecommendationAction {
    Keep,
    Disable,
    Remove,
    Review,
}

/// Advice with a reason in plain words.
#[derive(Debug, Clone)]
pub struct Recommendation {
    pub action: RecommendationAction,
    pub reason: String,
    pub confidence: Confidence,
}

#[derive(Debug, Clone)]
pub struct SignerInfo {
    pub is_signed: bool,
    pub publisher: Option<String>,
    pub is_microsoft: bool,
    pub cert_valid: Option<bool>,
    pub is_os_component: bool,
}

impl Default for SignerInfo {
    /// An unsigned file with nothing known about it.
    fn default() -> (r: SignerInfo)
        ensures
            !r.is_signed && r.publisher is None && !r.is_microsoft && r.cert_valid is None
                && !r.is_os_component,
    {
        SignerInfo {
            is_signed: false,
            publisher: None,
            is_microsoft: false,
            cert_valid: None,
            is_os_component: false,
        }
    }
}

#[derive(Debug, Clone)]
pub struct ItemTiming {
    pub confidence: Confidence,
    pub start_estimate_ms: Option<u64>,
    pub duration_ms: Option<u64>,
    pub source_event_id: Option<u32>,
    pub observed_start_ms: Option<u64>,
    pub read_bytes: Option<u64>,
    pub observed_at_ms: Option<u64>,
    pub impact: Option<ItemImpact>,
}

impl Default for ItemTiming {
    /// No timing information at all.
    fn default() -> (r: ItemTiming)
        ensures
            r.confidence == Confidence::Absent,
            r.start_estimate_ms is None,
            r.duration_ms is None,
            r.source_event_id is None,
            r.observed_start_ms is None,
            r.read_bytes is None,
            r.observed_at_ms is None,
            r.impact is None,
    {
        ItemTiming {
            confidence: Confidence::Absent,
            start_estimate_ms: None,
            duration_ms: None,
            source_event_id: None,
            observed_start_ms: None,
            read_bytes: None,
            observed_at_ms: None,
            impact: None,
        }
    }
}

#[derive(Debug, Clone)]
pub struct DiagnosticInfo {
    pub code: String,
    pub severity: RiskLevel,
    pub message: String,
    pub evidence: Option<String>,
}

/// Target state of an item; not filled in by this version.
#[derive(Debug, Clone)]
pub struct DesiredState {
    pub enabled: Option<bool>,
    pub delay_sec: Option<u64>,
    pub priority_class: Option<u8>,
    pub io_priority: Option<u8>,
    pub order: Option<u32>,
    pub probe: Option<String>,
    pub depends_on: Option<Vec<String>>,
}

impl Default for DesiredState {
    /// Nothing desired.
    fn default() -> (r: DesiredState)
        ensures
            r.enabled is None && r.delay_sec is None && r.priority_class is None
                && r.io_priority is None && r.order is None && r.probe is None
                && r.depends_on is None,
    {
        DesiredState {
            enabled: None,
            delay_sec: None,
            priority_class: None,
            io_priority: None,
            order: None,
            probe: None,
            depends_on: None,
        }
    }
}

/// The technical details of where an item is registered, by kind of
/// source, kept to be shown with the item; no decision reads them.
#[derive(Debug, Clone)]
pub enum SourceDetail {
    /// Nothing beyond the item's own fields.
    Plain,
    /// A `Run` value: the key it is under, whether group policy put it
    /// there, and whether it runs only once.
    RunValue { key_path: String, policy: bool, run_once: bool },
    /// A service: delayed automatic start, how many triggers start it,
    /// whether one reacts to the system's state, and why it was collected.
    Service {
        delayed_autostart: bool,
        trigger_count: u32,
        has_system_state_trigger: bool,
        collect_reason: crate::scanners::service::CollectReason,
    },
    /// A task: the account it runs as, its boot and logon triggers, and its
    /// program actions.
    Task {
        user_id: String,
        triggers: Vec<crate::scanners::scheduled_task::TriggerFacts>,
        actions: Vec<crate::scanners::scheduled_task::ExecAction>,
    },
    /// An `Image File Execution Options` debugger: the program it takes
    /// over and the debugger command as written.
    IfeoDebugger { target_exe: String, debugger: String },
    /// `Image File Execution Options` priorities of a program (CPU class,
    /// I/O and memory page priority), each when set.
    IfeoPriority { target_exe: String, cpu: Option<u32>, io: Option<u32>, page: Option<u32> },
    /// A file of a startup folder: its name as written and its full path.
    StartupFile { file_name: String, file_path: String },
    /// An `AppInit_DLLs` entry: the DLL as listed, `LoadAppInit_DLLs`, and
    /// whether it is the 32-bit view's copy.
    AppInit { dll: String, load_enabled: Option<u32>, is_32bit: bool },
}

/// The fields of an item's raw registration record.
#[derive(Debug, Clone)]
pub struct RawFields {
    /// A service's start type (2 automatic, 3 on demand, 4 disabled).
    pub start_type: Option<u64>,
    /// Whether a scheduled task is enabled as a whole.
    pub task_enabled: Option<bool>,
    /// Whether a task's boot or logon trigger is enabled.
    pub trigger_enabled: Option<bool>,
    /// The registry value name of a Run entry.
    pub value_name: Option<String>,
    /// What else was read of the registration.
    pub detail: SourceDetail,
}

impl Default for RawFields {
    /// A record with none of the fields.
    fn default() -> (r: RawFields)
        ensures
            r.start_type is None && r.task_enabled is None && r.trigger_enabled is None
                && r.value_name is None && r.detail is Plain,
    {
        RawFields {
            start_type: None,
            task_enabled: None,
            trigger_enabled: None,
            value_name: None,
            detail: SourceDetail::Plain,
        }
    }
}

#[derive(Debug, Clone)]
pub struct StartupItem {
    /// Stable id derived from source, identity and discriminator.
    pub id: String,
    pub source: SourceKind,
    /// Normalised path plus normalised arguments.
    pub identity_key: String,
    /// The raw name (value name, task name, file name, service name).
    pub name: String,
    pub kind: ItemKind,
    pub display_name: Option<String>,
    pub name_from: Option<NameSource>,
    pub summary: Option<String>,
    pub command: String,
    pub resolved_path: String,
    pub args: Vec<String>,
    pub location: String,
    pub scope: Scope,
    pub enabled: bool,
    pub signer: SignerInfo,
    pub icon_data: Option<String>,
    pub risk: RiskLevel,
    pub risk_reasons: Vec<String>,
    pub diagnostics: Vec<DiagnosticInfo>,
    pub boot_phase: BootPhase,
    pub timing: ItemTiming,
    pub validity: ValidityStatus,
    pub validity_detail: Option<String>,
    pub recommendation: Option<Recommendation>,
    pub duplicate_of: Option<String>,
    pub raw: RawFields,
    pub desired: DesiredState,
    pub snapshot_ref: Option<String>,
}

/// The kind shown to the user: hook, then Windows component, then service,
/// then task, else application.
pub open spec fn derive_kind_spec(source: SourceKind, is_os_component: bool) -> ItemKind {
    if source is SystemHook {
        ItemKind::Hook
    } else if is_os_component {
        ItemKind::System
    } else if source is Service {
        ItemKind::Service
    } else if source is ScheduledTask {
        ItemKind::Task
    } else {
        ItemKind::App
    }
}

/// Decides what kind of item this is for the user.
pub fn derive_kind(source: SourceKind, signer: &SignerInfo) -> (r: ItemKind)
    ensures
        r == derive_kind_spec(source, signer.is_os_component),
{
    if source == SourceKind::SystemHook {
        return ItemKind::Hook;
    }
    if signer.is_os_component {
        return ItemKind::System;
    }
    match source {
        SourceKind::Service => ItemKind::Service,
        SourceKind::ScheduledTask => ItemKind::Task,
        _ => ItemKind::App,
    }
}

#[derive(Debug, Clone, PartialEq, Eq)]
pub struct PhaseSpan {
    pub name: BootPhase,
    pub start_ms: u64,
    pub end_ms: u64,
}

#[derive(Debug, Clone)]
pub struct SlowService {
    /// The event's `Name`; for services this is the service name.
    pub name: String,
    pub friendly_name: Option<String>,
    /// `TotalTime` in ms.
    pub duration_ms: u64,
    /// `DegradationTime` in ms.
    pub degradation_ms: u64,
    /// 101 application, 102 driver, 103 service.
    pub event_id: u32,
}

/// The boot time line. Empty phases do not mean a boot of zero length:
/// `unavailable_reason` and `needs_elevation` say why nothing was read.
#[derive(Debug, Clone)]
pub struct BootTimeline {
    pub total_boot_ms: Option<u64>,
    pub phases: Vec<PhaseSpan>,
    pub slow_services: Vec<SlowService>,
    pub boot_started_at: Option<String>,
    pub unavailable_reason: Option<String>,
    pub needs_elevation: bool,
}

impl Default for BootTimeline {
    /// Nothing read: no phases, no slow services, no reason given.
    fn default() -> (r: BootTimeline)
        ensures
            r.total_boot_ms is None,
            r.phases@.len() == 0,
            r.slow_services@.len() == 0,
            r.boot_started_at is None,
            r.unavailable_reason is None,
            !r.needs_elevation,
    {
        BootTimeline {
            total_boot_ms: None,
            phases: Vec::new(),
            slow_services: Vec::new(),
            boot_started_at: None,
            unavailable_reason: None,
            needs_elevation: false,
        }
    }
}

#[derive(Debug, Clone)]
pub struct OsInfo {
    pub major: u32,
    pub minor: u32,
    pub build: u32,
    pub sku: String,
}

impl OsInfo {
    /// Windows 11 starts at build 22000.
    pub fn is_windows_11(&self) -> (r: bool)
        ensures
            r == (self.build >= 22000),
    {
        self.build >= 22000
    }
}

/// A summary of one reading of the startup-impact data.
#[derive(Debug, Clone)]
pub struct ImpactOverview {
    pub window_ms: Option<u64>,
    pub record_count: usize,
    pub matched_count: usize,
    pub source_sid: Option<String>,
    pub is_current_user: bool,
    pub source_file: Option<String>,
    pub unavailable_reason: Option<String>,
}

impl Default for ImpactOverview {
    /// No report: nothing counted, nothing matched.
    fn default() -> (r: ImpactOverview)
        ensures
            r.window_ms is None,
            r.record_count == 0,
            r.matched_count == 0,
            r.source_sid is None,
            !r.is_current_user,
            r.source_file is None,
            r.unavailable_reason is None,
    {
        ImpactOverview {
            window_ms: None,
            record_count: 0,
            matched_count: 0,
            source_sid: None,
            is_current_user: false,
            source_file: None,
            unavailable_reason: None,
        }
    }
}

/// A summary of one process sampling after boot.
#[derive(Debug, Clone)]
pub struct ItemObservation {
    pub captured_at_offset_ms: Option<u64>,
    pub process_count: usize,
    pub observed_count: usize,
    pub unavailable_reason: Option<String>,
}

#[derive(Debug, Clone)]
pub struct ScanResult {
    pub items: Vec<StartupItem>,
    pub os: OsInfo,
    pub elevated: bool,
    pub scanned_at: String,
    pub boot_timeline: BootTimeline,
    pub observation: ItemObservation,
    pub impact: ImpactOverview,
    pub errors: Vec<String>,
}

} // verus!
