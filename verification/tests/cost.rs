use bootflow::diag::codes;
use bootflow::diag::item_cost::{attribute, attribute_impact, exe_key, matches_item};
use bootflow::diag::proc_snapshot::{capture, ProcSnapshot, Snapshot, NO_BOOT_START};
use bootflow::diag::startup_info::{StartupInfoRecord, StartupInfoReport};
use bootflow::model::{
    BootPhase, BootTimeline, Confidence, DesiredState, ImpactLevel, ImpactOverview, ItemKind,
    ItemTiming, PhaseSpan, RawFields, RiskLevel, Scope, SignerInfo, SlowService, SourceKind,
    StartupItem, ValidityStatus,
};
use bootflow::pipeline::{finalize, source_key, ValidityCheck};

fn item_with(name: &str, source: SourceKind, path: &str) -> StartupItem {
    StartupItem {
        id: format!("test-{name}"),
        source,
        identity_key: name.to_string(),
        name: name.to_string(),
        kind: ItemKind::Service,
        display_name: None,
        name_from: None,
        summary: None,
        command: path.to_string(),
        resolved_path: path.to_string(),
        args: vec![],
        location: String::new(),
        scope: Scope::Machine,
        enabled: true,
        signer: SignerInfo::default(),
        icon_data: None,
        risk: RiskLevel::Safe,
        risk_reasons: vec![],
        diagnostics: vec![],
        boot_phase: BootPhase::Unknown,
        timing: ItemTiming::default(),
        validity: ValidityStatus::Valid,
        validity_detail: None,
        recommendation: None,
        duplicate_of: None,
        raw: RawFields::default(),
        desired: DesiredState::default(),
        snapshot_ref: None,
    }
}

fn svc_item(name: &str) -> StartupItem {
    item_with(name, SourceKind::Service, r"C:\Windows\System32\svchost.exe")
}

fn slow(name: &str, total: u64, degradation: u64) -> SlowService {
    SlowService { name: name.to_string(), friendly_name: None, duration_ms: total, degradation_ms: degradation, event_id: 103 }
}

fn timeline(slow_services: Vec<SlowService>, phases: Vec<PhaseSpan>) -> BootTimeline {
    BootTimeline {
        total_boot_ms: None,
        phases,
        slow_services,
        boot_started_at: None,
        unavailable_reason: None,
        needs_elevation: false,
    }
}

fn snapshot_of(procs: &[(&str, u64, u64)], captured_at: u64) -> Snapshot {
    Snapshot {
        captured_at_offset_ms: Some(captured_at),
        procs: procs
            .iter()
            .map(|(name, start, read)| ProcSnapshot { name: name.to_string(), start_offset_ms: *start, read_bytes: *read, cpu_ms: 0 })
            .collect(),
        unavailable_reason: None,
    }
}

fn no_snapshot() -> Snapshot {
    Snapshot { captured_at_offset_ms: None, procs: vec![], unavailable_reason: None }
}

#[test]
fn measured_and_observed_coexist() {
    let mut items = vec![item_with("Defender", SourceKind::Service, r"C:\ProgramData\Defender\MsMpEng.exe")];
    let tl = timeline(vec![slow("Defender", 326, 234)], vec![]);
    attribute(&mut items, &tl, &snapshot_of(&[("msmpeng.exe", 2_100, 4_000_000)], 30_000));
    assert_eq!(items[0].timing.confidence, Confidence::Measured, "以耗时为主");
    assert_eq!(items[0].timing.duration_ms, Some(326));
    assert_eq!(items[0].timing.observed_start_ms, Some(2_100), "出现时刻不该因为已经有耗时就被丢掉");
    assert_eq!(items[0].timing.read_bytes, Some(4_000_000));
}

#[test]
fn measured_without_process_keeps_duration_only() {
    let mut items = vec![svc_item("windefend")];
    attribute(&mut items, &timeline(vec![slow("windefend", 326, 234)], vec![]), &snapshot_of(&[], 30_000));
    assert_eq!(items[0].timing.confidence, Confidence::Measured);
    assert_eq!(items[0].timing.duration_ms, Some(326));
    assert_eq!(items[0].timing.observed_start_ms, None, "没匹配到进程就不该有出现时刻");
}

#[test]
fn measured_is_preferred_as_headline() {
    let mut items = vec![svc_item("windefend")];
    attribute(&mut items, &timeline(vec![slow("windefend", 326, 234)], vec![]), &snapshot_of(&[("windefend.exe", 5_000, 1_000)], 60_000));
    assert_eq!(items[0].timing.confidence, Confidence::Measured);
    assert_eq!(items[0].timing.duration_ms, Some(326));
}

#[test]
fn observation_gives_real_start_offset_not_a_duration() {
    let mut items = vec![item_with("Acme Sync", SourceKind::RunUser, r"C:\Program Files\Acme\acmesync.exe")];
    attribute(&mut items, &timeline(vec![], vec![]), &snapshot_of(&[("acmesync.exe", 12_400, 8_388_608)], 45_000));
    assert_eq!(items[0].timing.confidence, Confidence::Observed);
    assert_eq!(items[0].timing.observed_start_ms, Some(12_400));
    assert_eq!(items[0].timing.read_bytes, Some(8_388_608));
    assert_eq!(items[0].timing.observed_at_ms, Some(45_000));
    assert_eq!(items[0].timing.duration_ms, None, "观测到出现时刻 ≠ 知道它花了多久，绝不能填一个时长");
}

#[test]
fn shared_executable_is_not_attributed() {
    let mut items = vec![svc_item("windefend"), svc_item("eventlog"), svc_item("bits")];
    attribute(&mut items, &timeline(vec![], vec![]), &snapshot_of(&[("svchost.exe", 3_000, 100)], 60_000));
    for it in &items {
        assert_ne!(it.timing.confidence, Confidence::Observed, "共用宿主进程的项不能按进程归因（{}）", it.name);
    }
}

#[test]
fn exclusive_executable_is_attributed() {
    let mut items = vec![
        item_with("Defender", SourceKind::Service, r"C:\x\MsMpEng.exe"),
        item_with("Acme", SourceKind::RunUser, r"C:\y\acme.exe"),
    ];
    attribute(&mut items, &timeline(vec![], vec![]), &snapshot_of(&[("msmpeng.exe", 2_100, 999), ("acme.exe", 9_000, 123)], 30_000));
    assert_eq!(items[0].timing.observed_start_ms, Some(2_100));
    assert_eq!(items[1].timing.observed_start_ms, Some(9_000));
}

#[test]
fn missing_process_falls_back_to_phase_estimate() {
    let mut items = vec![item_with("Acme Sync", SourceKind::RunUser, r"C:\Program Files\Acme\acmesync.exe")];
    items[0].boot_phase = BootPhase::Logon;
    let tl = timeline(vec![], vec![PhaseSpan { name: BootPhase::Logon, start_ms: 30_000, end_ms: 60_000 }]);
    attribute(&mut items, &tl, &snapshot_of(&[], 45_000));
    assert_eq!(items[0].timing.confidence, Confidence::Estimated);
    assert_eq!(items[0].timing.start_estimate_ms, Some(30_000));
    assert_eq!(items[0].timing.source_event_id, Some(100));
    assert_eq!(items[0].timing.observed_start_ms, None);
}

#[test]
fn no_data_leaves_timing_none() {
    let mut items = vec![item_with("Acme", SourceKind::RunUser, r"C:\a\a.exe")];
    attribute(&mut items, &timeline(vec![], vec![]), &no_snapshot());
    assert_eq!(items[0].timing.confidence, Confidence::Absent);
    assert_eq!(items[0].timing.observed_start_ms, None);
    assert_eq!(items[0].timing.start_estimate_ms, None);
}

#[test]
fn item_cost_trivial_slowdown_does_not_produce_a_diagnostic() {
    let mut items = vec![svc_item("windefend")];
    attribute(&mut items, &timeline(vec![slow("windefend", 326, 234)], vec![]), &no_snapshot());
    assert!(items[0].diagnostics.is_empty(), "轻微的记录不该成为提示");
    assert_eq!(items[0].timing.confidence, Confidence::Measured, "但不该丢掉数据本身");
}

#[test]
fn item_cost_significant_slowdown_produces_a_diagnostic_with_evidence() {
    let mut items = vec![svc_item("windefend")];
    attribute(&mut items, &timeline(vec![slow("windefend", 5200, 4800)], vec![]), &no_snapshot());
    let d = &items[0].diagnostics[0];
    assert_eq!(d.code, codes::SLOW_START);
    assert!(d.evidence.as_deref().unwrap().contains("4800ms"));
    assert_eq!(d.message, "系统记录了它上一次开机启动花了 5.2 秒，其中 4.8 秒是超出正常水平的。");
}

#[test]
fn empty_name_slow_entry_never_matches() {
    let mut items = vec![svc_item("windefend")];
    attribute(&mut items, &timeline(vec![slow("   ", 5000, 5000)], vec![]), &no_snapshot());
    assert_eq!(items[0].timing.confidence, Confidence::Absent);
    assert!(items[0].diagnostics.is_empty());
}

#[test]
fn application_records_match_by_file_name_without_extension() {
    let it = item_with("Acme", SourceKind::RunUser, r"C:\y\Acme.EXE");
    let mut s = slow("acme", 10, 0);
    s.event_id = 101;
    assert!(matches_item(&it, &s));
    s.name = "acme.exe".into();
    assert!(matches_item(&it, &s));
    s.name = "acmex".into();
    assert!(!matches_item(&it, &s));
    assert_eq!(exe_key(r"C:\y\Acme.EXE"), Some("acme.exe".to_string()));
    assert_eq!(exe_key(r"C:\y\"), None);
}

fn slow_ev(name: &str, event_id: u32) -> SlowService {
    SlowService { name: name.into(), friendly_name: None, duration_ms: 0, degradation_ms: 0, event_id }
}

#[test]
fn item_cost_service_slow_event_matches_by_service_name() {
    assert!(matches_item(&svc_item("windefend"), &slow_ev("windefend", 103)));
    assert!(matches_item(&svc_item("WinDefend"), &slow_ev("windefend", 103)));
}

#[test]
fn item_cost_service_event_does_not_match_by_file_name() {
    let mut it = svc_item("MyService");
    it.resolved_path = r"C:\Program Files\eventlog\eventlog.exe".into();
    assert!(!matches_item(&it, &slow_ev("eventlog", 103)), "服务型事件只该按服务名匹配");
}

#[test]
fn item_cost_app_event_matches_by_file_name_with_or_without_extension() {
    let mut it = svc_item("Whatever");
    it.source = SourceKind::RunUser;
    it.resolved_path = r"C:\Program Files\App\MsMpEng.exe".into();
    assert!(matches_item(&it, &slow_ev("MsMpEng.exe", 101)));
    assert!(matches_item(&it, &slow_ev("MsMpEng", 101)));
    assert!(!matches_item(&it, &slow_ev("OtherApp.exe", 101)));
}

fn wdi(exe: &str, pid: u32, cpu_ms: u64, disk: u64, start_ms: Option<u64>) -> StartupInfoRecord {
    StartupInfoRecord { exe: exe.to_string(), image: format!(r"C:\x\{exe}"), pid, started_in_trace_ms: start_ms, cpu_ms, disk_bytes: disk }
}

fn report(records: Vec<StartupInfoRecord>) -> StartupInfoReport {
    StartupInfoReport {
        window_ms: Some(90_000),
        source_sid: Some("S-1-5-21-1-2-3-1001".into()),
        is_current_user: true,
        source_file: Some("S-1-5-21-1-2-3-1001_StartupInfo3.xml".into()),
        records,
        ..Default::default()
    }
}

#[test]
fn impact_is_attributed_to_exclusive_owner() {
    let mut items = vec![item_with("Acme Sync", SourceKind::RunUser, r"C:\Program Files\Acme\acmesync.exe")];
    let mut ov = ImpactOverview::default();
    attribute_impact(&mut items, &report(vec![wdi("acmesync.exe", 7001, 1402, 8_388_608, Some(12_400))]), &mut ov);
    let impact = items[0].timing.impact.as_ref().expect("应当归因到唯一声明者");
    assert_eq!(impact.cpu_ms, 1402);
    assert_eq!(impact.disk_bytes, 8_388_608);
    assert_eq!(impact.started_in_trace_ms, Some(12_400));
    assert_eq!(impact.process_count, 1);
    assert_eq!(ov.matched_count, 1);
    assert_eq!(ov.record_count, 1);
}

#[test]
fn multiple_processes_of_one_exe_are_summed_not_picked() {
    let mut items = vec![item_with("Acme", SourceKind::RunUser, r"C:\x\acme.exe")];
    let mut ov = ImpactOverview::default();
    attribute_impact(
        &mut items,
        &report(vec![wdi("acme.exe", 100, 400, 1_000_000, Some(9_000)), wdi("acme.exe", 200, 700, 2_000_000, Some(4_000))]),
        &mut ov,
    );
    let impact = items[0].timing.impact.as_ref().unwrap();
    assert_eq!(impact.cpu_ms, 1_100, "两次 CPU 应合计");
    assert_eq!(impact.disk_bytes, 3_000_000);
    assert_eq!(impact.process_count, 2, "界面要能说明这是合计值");
    assert_eq!(impact.started_in_trace_ms, Some(4_000), "出现时刻取最早那条——'它从第几秒开始出现'");
    assert_eq!(ov.matched_count, 1, "两条记录只对应一个启动项");
}

#[test]
fn shared_executable_gets_no_impact() {
    let mut items = vec![svc_item("windefend"), svc_item("eventlog"), svc_item("bits")];
    let mut ov = ImpactOverview::default();
    attribute_impact(&mut items, &report(vec![wdi("svchost.exe", 900, 5000, 9_000_000, None)]), &mut ov);
    assert!(items.iter().all(|i| i.timing.impact.is_none()));
    assert_eq!(ov.matched_count, 0);
    assert_eq!(ov.record_count, 1, "记录本身要算进总数，否则界面会把'没匹配上'说成'没读到'");
}

#[test]
fn only_high_impact_produces_a_diagnostic() {
    let mut items = vec![
        item_with("Heavy", SourceKind::RunUser, r"C:\x\heavy.exe"),
        item_with("Light", SourceKind::RunUser, r"C:\x\light.exe"),
    ];
    let mut ov = ImpactOverview::default();
    attribute_impact(
        &mut items,
        &report(vec![wdi("heavy.exe", 1, 1500, 100, None), wdi("light.exe", 2, 320, 500_000, None)]),
        &mut ov,
    );
    assert!(items[0].timing.impact.is_some());
    assert!(items[1].timing.impact.is_some(), "中档也要给数据");
    assert_eq!(items[0].diagnostics.len(), 1, "高档该给一条提示");
    assert_eq!(items[0].diagnostics[0].code, codes::HIGH_STARTUP_IMPACT);
    assert!(items[1].diagnostics.is_empty(), "中档不该给提示——那会让'高'这个信号贬值");
    assert_eq!(items[0].timing.impact.as_ref().unwrap().level, ImpactLevel::High);
    assert_eq!(items[1].timing.impact.as_ref().unwrap().level, ImpactLevel::Medium);
}

#[test]
fn high_impact_evidence_carries_raw_numbers() {
    let mut items = vec![item_with("Heavy", SourceKind::RunUser, r"C:\x\heavy.exe")];
    let mut ov = ImpactOverview::default();
    attribute_impact(&mut items, &report(vec![wdi("heavy.exe", 1, 1500, 8_388_608, None)]), &mut ov);
    let ev = items[0].diagnostics[0].evidence.as_deref().unwrap();
    assert!(ev.contains("CpuUsage=1500ms"), "证据要能拿去复核：{ev}");
    assert!(ev.contains("DiskUsage=8388608bytes"));
}

#[test]
fn impact_survives_the_timing_rewrite() {
    let mut items = vec![item_with("Acme", SourceKind::RunUser, r"C:\Program Files\Acme\acmesync.exe")];
    let mut ov = ImpactOverview::default();
    attribute_impact(&mut items, &report(vec![wdi("acmesync.exe", 1, 900, 4_000_000, Some(12_000))]), &mut ov);
    attribute(&mut items, &BootTimeline::default(), &Snapshot::default());
    let impact = items[0].timing.impact.as_ref().expect("影响不该被时间轴归因抹掉");
    assert_eq!(impact.cpu_ms, 900);
}

#[test]
fn no_records_means_no_impact_and_no_match() {
    let mut items = vec![item_with("Acme", SourceKind::RunUser, r"C:\x\acme.exe")];
    let mut ov = ImpactOverview::default();
    attribute_impact(&mut items, &StartupInfoReport::unavailable("需要管理员权限".to_string()), &mut ov);
    assert!(items[0].timing.impact.is_none());
    assert_eq!(ov.matched_count, 0);
    assert_eq!(ov.record_count, 0);
    assert!(ov.unavailable_reason.is_none(), "这份 overview 由调用方从报告生成；这里只验证归因不清空已有原因");
}

#[test]
fn impact_and_timing_axes_coexist() {
    let mut items = vec![item_with("Acme Sync", SourceKind::RunUser, r"C:\Program Files\Acme\acmesync.exe")];
    let mut ov = ImpactOverview::default();
    let snap = snapshot_of(&[("acmesync.exe", 12_400, 5_000)], 45_000);
    attribute_impact(&mut items, &report(vec![wdi("acmesync.exe", 1, 1400, 9_000_000, Some(12_400))]), &mut ov);
    attribute(&mut items, &BootTimeline::default(), &snap);
    assert_eq!(items[0].timing.confidence, Confidence::Observed);
    assert_eq!(items[0].timing.observed_start_ms, Some(12_400));
    assert_eq!(items[0].timing.impact.as_ref().unwrap().cpu_ms, 1400);
    assert_eq!(items[0].timing.duration_ms, None, "出现时刻与影响都不等于'耗时'，这一栏仍然必须是空的");
}

#[test]
fn overview_takes_the_report_header() {
    let ov = ImpactOverview::from_report(&report(vec![wdi("a.exe", 1, 1, 1, None)]));
    assert_eq!(ov.window_ms, Some(90_000));
    assert_eq!(ov.record_count, 1);
    assert_eq!(ov.matched_count, 0);
    assert!(ov.is_current_user);
}

#[test]
fn finalize_fills_ids_and_marks_duplicates() {
    let mut items = vec![
        item_with("a", SourceKind::RunUser, r"C:\App\a.exe"),
        item_with("b", SourceKind::RunMachine, r"C:\App\a.exe"),
        item_with("s", SourceKind::SystemHook, r"C:\h.dll"),
    ];
    items[1].location = "HKLM".into();
    let checks: Vec<ValidityCheck> = (0..3).map(|_| ValidityCheck { status: ValidityStatus::Valid, detail: None, quote_note: None }).collect();
    let mut ov = ImpactOverview::from_report(&report(vec![]));
    let stats = finalize(&mut items, checks, &timeline(vec![], vec![]), &no_snapshot(), &report(vec![]), &mut ov);
    assert_eq!(stats.total, 3);
    assert_eq!(items[0].id.len(), 36);
    assert_ne!(items[0].id, items[1].id);
    assert_eq!(stats.duplicates, 1);
    assert_eq!(items[2].kind, ItemKind::Hook);
    assert_eq!(items[2].risk, RiskLevel::Locked, "系统注入一律禁改");
    assert_eq!(source_key(SourceKind::RunOnceMachine32), "runonce-machine32");
}

#[test]
fn finalize_is_stable_across_runs() {
    let make = || vec![item_with("a", SourceKind::RunUser, r"C:\App\a.exe")];
    let checks = || vec![ValidityCheck { status: ValidityStatus::MissingTarget, detail: Some("gone".into()), quote_note: None }];
    let (mut x, mut y) = (make(), make());
    let mut ov = ImpactOverview::from_report(&report(vec![]));
    let s1 = finalize(&mut x, checks(), &timeline(vec![], vec![]), &no_snapshot(), &report(vec![]), &mut ov);
    finalize(&mut y, checks(), &timeline(vec![], vec![]), &no_snapshot(), &report(vec![]), &mut ov);
    assert_eq!(x[0].id, y[0].id);
    assert_eq!(s1.dead, 1);
    assert_eq!(x[0].validity, ValidityStatus::MissingTarget);
    assert_eq!(x[0].validity_detail.as_deref(), Some("gone"));
    assert!(x[0].recommendation.is_some(), "目标已不存在的项应给出建议");
    assert_eq!(s1.advised, 1);
}

#[test]
fn finalize_derives_kind_from_source() {
    let mut items = vec![
        item_with("svc", SourceKind::Service, r"C:\s.exe"),
        item_with("task", SourceKind::ScheduledTask, r"C:\t.exe"),
        item_with("app", SourceKind::RunUser, r"C:\a.exe"),
    ];
    items[2].kind = ItemKind::Service;
    let checks: Vec<ValidityCheck> = (0..3).map(|_| ValidityCheck { status: ValidityStatus::Valid, detail: None, quote_note: None }).collect();
    let mut ov = ImpactOverview::from_report(&report(vec![]));
    finalize(&mut items, checks, &timeline(vec![], vec![]), &no_snapshot(), &report(vec![]), &mut ov);
    assert_eq!(items[0].kind, ItemKind::Service);
    assert_eq!(items[1].kind, ItemKind::Task);
    assert_eq!(items[2].kind, ItemKind::App);
}

#[test]
fn attribution_order_does_not_change_timing() {
    let make = || {
        let mut a = item_with("Acme Sync", SourceKind::RunUser, r"C:\Program Files\Acme\acmesync.exe");
        a.boot_phase = BootPhase::Logon;
        vec![a, svc_item("windefend"), item_with("Tool", SourceKind::RunUser, r"C:\t\tool.exe")]
    };
    let tl = timeline(
        vec![slow("windefend", 5200, 4800)],
        vec![PhaseSpan { name: BootPhase::Logon, start_ms: 30_000, end_ms: 60_000 }],
    );
    let snap = snapshot_of(&[("tool.exe", 7_000, 10)], 45_000);
    let rep = report(vec![wdi("acmesync.exe", 1, 1400, 9_000_000, Some(12_400)), wdi("tool.exe", 2, 10, 10, None)]);

    let mut first = make();
    let mut ov = ImpactOverview::default();
    attribute_impact(&mut first, &rep, &mut ov);
    attribute(&mut first, &tl, &snap);

    let mut second = make();
    let mut ov2 = ImpactOverview::default();
    attribute(&mut second, &tl, &snap);
    attribute_impact(&mut second, &rep, &mut ov2);

    for (x, y) in first.iter().zip(second.iter()) {
        assert_eq!(format!("{:?}", x.timing), format!("{:?}", y.timing), "{}", x.name);
    }
    assert_eq!(first[0].timing.confidence, Confidence::Estimated);
    assert_eq!(first[0].timing.duration_ms, None);
    assert_eq!(first[0].timing.impact.as_ref().unwrap().cpu_ms, 1400);
}

#[test]
fn id_depends_only_on_the_item_itself() {
    let alone = || vec![item_with("a", SourceKind::RunUser, r"C:\App\a.exe")];
    let crowded = || {
        vec![
            item_with("z", SourceKind::Service, r"C:\Z\z.exe"),
            item_with("a", SourceKind::RunUser, r"C:\App\a.exe"),
        ]
    };
    let ok = || ValidityCheck { status: ValidityStatus::Valid, detail: None, quote_note: None };
    let (mut x, mut y) = (alone(), crowded());
    let mut ov = ImpactOverview::default();
    finalize(&mut x, vec![ok()], &timeline(vec![], vec![]), &no_snapshot(), &report(vec![]), &mut ov);
    finalize(
        &mut y,
        vec![ok(), ValidityCheck { status: ValidityStatus::MissingTarget, detail: None, quote_note: None }],
        &timeline(vec![slow("a", 9000, 9000)], vec![]),
        &snapshot_of(&[("a.exe", 1, 1)], 2),
        &report(vec![wdi("a.exe", 1, 5000, 1, None)]),
        &mut ov,
    );
    assert_eq!(x[0].id, y[1].id);
    assert_eq!(x[0].identity_key, y[1].identity_key);
    assert_eq!(x[0].identity_key, r"c:\app\a.exe");
}

#[test]
fn process_capture_measures_from_the_boot_start() {
    // 2026-01-01T00:00:00Z is 1767225600 s after the epoch.
    let start = "2026-01-01T08:00:00+08:00".to_string();
    let procs = vec![
        ProcSnapshot { name: "late.exe".into(), start_offset_ms: 700_000, read_bytes: 1, cpu_ms: 1 },
        ProcSnapshot { name: "b.exe".into(), start_offset_ms: 2_000, read_bytes: 1, cpu_ms: 1 },
        ProcSnapshot { name: "a.exe".into(), start_offset_ms: 1_000, read_bytes: 1, cpu_ms: 1 },
    ];
    let s = capture(Some(start.clone()), (1_767_225_645, 999_999_999), procs);
    assert_eq!(s.captured_at_offset_ms, Some(45_999));
    let names: Vec<&str> = s.procs.iter().map(|p| p.name.as_str()).collect();
    assert_eq!(names, vec!["a.exe", "b.exe"]);
    assert!(s.unavailable_reason.is_none());
    // A moment before the start counts as zero.
    let s = capture(Some(start), (1_767_225_599, 0), vec![]);
    assert_eq!(s.captured_at_offset_ms, Some(0));
    // No start, or one that is not RFC 3339, gives no sample.
    for bad in [None, Some("yesterday".to_string())] {
        let s = capture(bad, (1_767_225_645, 0), vec![]);
        assert_eq!(s.captured_at_offset_ms, None);
        assert_eq!(s.unavailable_reason.as_deref(), Some(NO_BOOT_START));
    }
}
