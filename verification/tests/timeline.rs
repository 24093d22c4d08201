use bootflow::diag::boot_log::{BootLogOutcome, EventData, RawEvent};
use bootflow::diag::item_cost::collect_slow;
use bootflow::diag::timeline::{build, build_from_events, phases_of};
use bootflow::diag::codes;
use bootflow::diag::item_cost::{attribute, matches_item};
use bootflow::diag::proc_snapshot::Snapshot;
use bootflow::model::{
    BootPhase, BootTimeline, Confidence, DesiredState, ItemKind, ItemTiming, RawFields, RiskLevel, Scope,
    SignerInfo, SlowService, SourceKind, StartupItem, ValidityStatus,
};

fn data(pairs: &[(&str, &str)]) -> EventData {
    let mut d = EventData::new();
    for (k, v) in pairs {
        d.insert(k.to_string(), v.to_string());
    }
    d
}

fn ev(id: u32, pairs: &[(&str, &str)]) -> RawEvent {
    RawEvent { event_id: id, data: data(pairs), time_created: None, computer: None }
}

fn boot_event() -> RawEvent {
    ev(
        100,
        &[
            ("BootStartTime", "2026-03-17T18:13:15Z"),
            ("BootTime", "165331"),
            ("MainPathBootTime", "151680"),
            ("BootPostBootTime", "13651"),
            ("BootPNPInitStartTimeMS", "38"),
            ("SystemPNPInitStartTimeMS", "6925"),
            ("SessionInitStartTimeMS", "14143"),
            ("WinLogonStartTimeMS", "36087"),
            ("UserLogonWaitDuration", "9820"),
            ("BootUserProfileProcessingTime", "4098"),
            ("BootExplorerInitTime", "104515"),
        ],
    )
}

#[test]
fn phases_are_built_from_absolute_anchors() {
    let tl = build_from_events(&[boot_event()]);

    let names: Vec<BootPhase> = tl.phases.iter().map(|p| p.name).collect();
    assert_eq!(
        &names[..5],
        &[BootPhase::Kernel, BootPhase::Driver, BootPhase::Devices, BootPhase::Smss, BootPhase::UserAuth]
    );

    assert_eq!(tl.phases[0].start_ms, 0);
    assert_eq!(tl.phases[0].end_ms, 38);
    assert_eq!(tl.phases[1].end_ms, tl.phases[2].start_ms);
    assert_eq!(tl.boot_started_at.as_deref(), Some("2026-03-17T18:13:15Z"));
}

#[test]
fn user_phases_follow_each_other_from_winlogon() {
    let ps = phases_of(&boot_event());
    let shell = ps.iter().find(|p| p.name == BootPhase::Shell).unwrap();
    assert_eq!(shell.start_ms, 36087 + 9820 + 4098);
    assert_eq!(shell.end_ms, 36087 + 9820 + 4098 + 104515);
}

#[test]
fn post_boot_becomes_its_own_phase() {
    let tl = build_from_events(&[boot_event()]);

    let last = tl.phases.last().unwrap();
    assert_eq!(last.name, BootPhase::Logon);
    assert_eq!(last.start_ms, 151680, "登录后阶段应从主路径结束处开始");
    assert_eq!(last.end_ms, 165331);
    assert!(last.end_ms - last.start_ms == 13651, "PostBoot 段长度应等于 BootPostBootTime");
}

#[test]
fn missing_anchor_drops_only_that_phase() {
    let mut e = boot_event();
    e.data.remove("SessionInitStartTimeMS");

    let tl = build_from_events(&[e]);
    let names: Vec<BootPhase> = tl.phases.iter().map(|p| p.name).collect();

    assert!(!names.contains(&BootPhase::Smss), "缺锚点的段不该出现");
    assert!(names.contains(&BootPhase::Driver), "其他段不该受牵连");
    assert!(names.contains(&BootPhase::Logon), "PostBoot 不依赖该锚点");
}

#[test]
fn no_invented_phases_when_anchors_are_missing() {
    let e = ev(100, &[("BootTime", "90000"), ("MainPathBootTime", "80000")]);

    let tl = build_from_events(&[e]);

    assert_eq!(tl.phases.len(), 1, "只应有一个由主路径/总时长得出的阶段");
    assert_eq!(tl.phases[0].name, BootPhase::Logon);
    assert_eq!(tl.phases[0].start_ms, 80000);
    assert_eq!(tl.phases[0].end_ms, 90000);
    assert_eq!(tl.total_boot_ms, Some(90000), "总时长仍应如实给出");
}

#[test]
fn bare_event_with_total_falls_back_to_total() {
    let e2 = ev(100, &[("BootTime", "120000")]);
    let tl2 = build_from_events(&[e2]);
    assert_eq!(tl2.phases.len(), 1);
    assert_eq!(tl2.phases[0].name, BootPhase::Logon);
    assert_eq!(tl2.phases[0].start_ms, 0);
    assert_eq!(tl2.phases[0].end_ms, 120000);
    assert_eq!(tl2.total_boot_ms, Some(120000));
}

#[test]
fn main_path_alone_falls_back_to_main_path() {
    let tl = build_from_events(&[ev(100, &[("MainPathBootTime", "7000")])]);
    assert_eq!(tl.phases.len(), 1);
    assert_eq!((tl.phases[0].start_ms, tl.phases[0].end_ms), (0, 7000));
    assert_eq!(tl.total_boot_ms, None);
}

#[test]
fn phases_beyond_total_are_clamped() {
    let mut e = boot_event();
    e.data.insert("WinLogonStartTimeMS".into(), "999999".into());
    e.data.insert("BootExplorerInitTime".into(), "0".into());

    let tl = build_from_events(&[e]);
    let total = tl.total_boot_ms.unwrap();
    assert!(tl.phases.iter().all(|p| p.end_ms <= total));
    assert!(tl.phases.iter().all(|p| p.end_ms > p.start_ms));
}

#[test]
fn no_boot_event_is_explained() {
    let tl = build_from_events(&[ev(103, &[("Name", "x")])]);
    assert!(tl.phases.is_empty());
    assert!(tl.unavailable_reason.unwrap().contains("快速启动"));
    assert!(!tl.needs_elevation);
}

#[test]
fn access_denied_is_reported_as_elevation_need() {
    let tl = build(&BootLogOutcome::AccessDenied);

    assert!(tl.needs_elevation, "权限问题要标记出来，界面才能给提权入口");
    assert!(tl.unavailable_reason.is_some());
    assert!(tl.phases.is_empty());
}

#[test]
fn unavailable_log_is_not_reported_as_elevation_need() {
    let tl = build(&BootLogOutcome::Unavailable("日志未启用".into()));
    assert!(!tl.needs_elevation, "这不是权限问题");
    assert!(tl.unavailable_reason.unwrap().contains("日志未启用"));
}

#[test]
fn slow_services_are_deduplicated_keeping_the_latest() {
    let events = vec![
        ev(103, &[("Name", "windefend"), ("TotalTime", "999"), ("DegradationTime", "888")]),
        ev(103, &[("Name", "windefend"), ("TotalTime", "111"), ("DegradationTime", "100")]),
        ev(103, &[("Name", "eventlog"), ("TotalTime", "500"), ("DegradationTime", "400")]),
    ];

    let tl = build_from_events(&[boot_event()].into_iter().chain(events).collect::<Vec<_>>());

    assert_eq!(tl.slow_services.len(), 2, "同一服务不该出现两次");
    let wd = tl.slow_services.iter().find(|s| s.name == "windefend").unwrap();
    assert_eq!(wd.duration_ms, 999, "应保留最近一次（排序后靠前的那条）");
}

#[test]
fn slowest_comes_first_and_ties_keep_their_order() {
    let events = vec![
        ev(101, &[("Name", "a"), ("DegradationTime", "10")]),
        ev(102, &[("Name", "b"), ("DegradationTime", "30")]),
        ev(103, &[("Name", "c"), ("DegradationTime", "10")]),
        ev(100, &[("Name", "not-a-slow-event")]),
        ev(103, &[("Name", "  ")]),
    ];
    let out = collect_slow(&events);
    let names: Vec<&str> = out.iter().map(|s| s.name.as_str()).collect();
    assert_eq!(names, vec!["b", "a", "c"]);
}

#[test]
fn collect_slow_dedupes_case_insensitively() {
    let ev = |id: u32, name: &str, total: &str| RawEvent {
        event_id: id,
        data: data(&[("Name", name), ("TotalTime", total)]),
        time_created: None,
        computer: None,
    };

    let out = collect_slow(&[ev(103, "windefend", "300"), ev(103, "WinDefend", "400")]);

    assert_eq!(out.len(), 1, "同名记录只保留一条");
}

#[test]
fn collect_slow_keeps_record_without_total_time() {
    let ev = RawEvent { event_id: 103, data: data(&[("Name", "windefend")]), time_created: None, computer: None };

    let out = collect_slow(&[ev]);

    assert_eq!(out.len(), 1);
    assert_eq!(out[0].duration_ms, 0, "\"记录了但没给耗时\"本身也有价值");
}

// The time line's part of the item pass: `attribute` with an empty process
// sample, which leaves only the time line's evidence.

fn svc_item(name: &str) -> StartupItem {
    StartupItem {
        id: "x".into(),
        source: SourceKind::Service,
        identity_key: "k".into(),
        name: name.into(),
        kind: ItemKind::Service,
        display_name: None,
        name_from: None,
        summary: None,
        command: String::new(),
        resolved_path: String::new(),
        args: vec![],
        location: String::new(),
        scope: Scope::Machine,
        enabled: true,
        signer: SignerInfo::default(),
        icon_data: None,
        risk: RiskLevel::Safe,
        risk_reasons: vec![],
        diagnostics: vec![],
        boot_phase: BootPhase::Smss,
        timing: ItemTiming::default(),
        validity: ValidityStatus::Valid,
        validity_detail: None,
        recommendation: None,
        duplicate_of: None,
        raw: RawFields::default(),
        desired: DesiredState::default(),
        snapshot_ref: None,
    }
}

fn slow(name: &str, event_id: u32, total: u64, degrad: u64) -> SlowService {
    SlowService { name: name.into(), friendly_name: None, duration_ms: total, degradation_ms: degrad, event_id }
}

fn apply_to_items(items: &mut Vec<StartupItem>, tl: &BootTimeline) {
    attribute(items, tl, &Snapshot::default());
}

#[test]
fn timeline_service_slow_event_matches_by_service_name() {
    assert!(matches_item(&svc_item("windefend"), &slow("windefend", 103, 326, 234)));
    assert!(matches_item(&svc_item("WinDefend"), &slow("windefend", 103, 326, 234)));
}

#[test]
fn timeline_service_event_does_not_match_by_file_name() {
    let mut it = svc_item("MyService");
    it.resolved_path = r"C:\Program Files\eventlog\eventlog.exe".into();
    assert!(!matches_item(&it, &slow("eventlog", 103, 900, 700)), "服务型事件只该按服务名匹配");
}

#[test]
fn timeline_app_event_matches_by_file_name_with_or_without_extension() {
    let mut it = svc_item("Whatever");
    it.source = SourceKind::RunUser;
    it.resolved_path = r"C:\Program Files\App\MsMpEng.exe".into();
    assert!(matches_item(&it, &slow("MsMpEng.exe", 101, 5632, 2278)));
    assert!(matches_item(&it, &slow("MsMpEng", 101, 5632, 2278)));
    assert!(!matches_item(&it, &slow("OtherApp.exe", 101, 1, 1)));
}

#[test]
fn measured_timing_is_applied_from_event() {
    let mut items = vec![svc_item("windefend")];
    let tl = BootTimeline { slow_services: vec![slow("windefend", 103, 326, 234)], phases: vec![], ..Default::default() };
    apply_to_items(&mut items, &tl);
    assert_eq!(items[0].timing.confidence, Confidence::Measured);
    assert_eq!(items[0].timing.duration_ms, Some(326));
    assert_eq!(items[0].timing.source_event_id, Some(103));
}

#[test]
fn timeline_trivial_slowdown_does_not_produce_a_diagnostic() {
    let mut items = vec![svc_item("windefend")];
    let tl = BootTimeline { slow_services: vec![slow("windefend", 103, 326, 234)], ..Default::default() };
    apply_to_items(&mut items, &tl);
    assert!(items[0].diagnostics.is_empty(), "轻微的记录不该成为提示");
    assert_eq!(items[0].timing.confidence, Confidence::Measured, "但不该丢掉数据本身");
}

#[test]
fn timeline_significant_slowdown_produces_a_diagnostic_with_evidence() {
    let mut items = vec![svc_item("windefend")];
    let tl = BootTimeline { slow_services: vec![slow("windefend", 103, 5200, 4800)], ..Default::default() };
    apply_to_items(&mut items, &tl);
    let d = &items[0].diagnostics[0];
    assert_eq!(d.code, codes::SLOW_START);
    assert!(d.evidence.as_deref().unwrap().contains("4800ms"));
}

#[test]
fn estimated_timing_gives_a_start_but_never_a_duration() {
    let mut it = svc_item("SomeAutoService");
    it.boot_phase = BootPhase::Smss;
    let mut items = vec![it];
    let tl = build_from_events(&[boot_event()]);
    apply_to_items(&mut items, &tl);
    assert_eq!(items[0].timing.confidence, Confidence::Estimated);
    assert!(items[0].timing.duration_ms.is_none(), "估算绝不能给出具体耗时——那个数字会是编的");
    assert_eq!(items[0].timing.start_estimate_ms, Some(14143));
}

#[test]
fn unknown_phase_gets_no_estimate() {
    let mut it = svc_item("Mystery");
    it.boot_phase = BootPhase::Unknown;
    let mut items = vec![it];
    apply_to_items(&mut items, &build_from_events(&[boot_event()]));
    assert_eq!(items[0].timing.confidence, Confidence::Absent);
    assert!(items[0].timing.start_estimate_ms.is_none());
}

#[test]
fn no_timeline_means_no_estimates() {
    let mut items = vec![svc_item("SomeAutoService")];
    let tl = build(&BootLogOutcome::AccessDenied);
    apply_to_items(&mut items, &tl);
    assert_eq!(items[0].timing.confidence, Confidence::Absent);
    assert!(items[0].timing.start_estimate_ms.is_none());
}
