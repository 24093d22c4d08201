use bootflow::error::AppError;
use bootflow::model::{
    BootPhase, DesiredState, ItemKind, ItemTiming, RawFields, RiskLevel, Scope, SignerInfo, SourceDetail,
    SourceKind, StartupItem, ValidityStatus,
};
use bootflow::snapshot::changelog::{render_markdown, recent_of, Action, ChangeDraft, ChangeEntry};
use bootflow::snapshot::export_script::{export, hex_dots, split_root};
use bootflow::snapshot::guard::{check, denial_message, mark_locked, GuardResult};
use bootflow::snapshot::model::{
    snapshot_id, Snapshot, SnapshotReason, SnapshotRecord, SnapshotTarget, SNAPSHOT_SCHEMA_VERSION,
};
use bootflow::snapshot::plan::{plan_one, start_type_name, EditRequest};
use bootflow::snapshot::rollback::{plan_rollback, new_rollback_snapshot};
use bootflow::snapshot::store::{
    check_loaded, default_retention, id_of_file_name, prune_targets, scan_baseline_at,
    snapshot_file_name, temp_file_name,
};
use bootflow::snapshot::txn::{value_str, AppliedStep, RollbackOp, Tx};

fn item(id: &str, enabled: bool, source: SourceKind) -> StartupItem {
    StartupItem {
        id: id.into(),
        source,
        identity_key: "k".into(),
        name: id.into(),
        kind: match source {
            SourceKind::Service => ItemKind::Service,
            SourceKind::ScheduledTask => ItemKind::Task,
            SourceKind::SystemHook => ItemKind::Hook,
            _ => ItemKind::App,
        },
        display_name: Some(id.into()),
        name_from: None,
        summary: None,
        command: String::new(),
        resolved_path: String::new(),
        args: vec![],
        location: r"HKCU\Software\Microsoft\Windows\CurrentVersion\Run".into(),
        scope: Scope::User,
        enabled,
        signer: SignerInfo::default(),
        icon_data: None,
        risk: RiskLevel::Safe,
        risk_reasons: vec![],
        diagnostics: vec![],
        boot_phase: BootPhase::Shell,
        timing: ItemTiming::default(),
        validity: ValidityStatus::Valid,
        validity_detail: None,
        recommendation: None,
        duplicate_of: None,
        raw: RawFields { start_type: Some(2), task_enabled: Some(true), trigger_enabled: None, value_name: None, detail: SourceDetail::Plain },
        desired: DesiredState::default(),
        snapshot_ref: None,
    }
}

fn edit() -> EditRequest {
    EditRequest::default()
}

#[test]
fn enable_an_app_produces_one_action() {
    let it = item("app", false, SourceKind::RunUser);
    let plan = plan_one(&it, &EditRequest { enabled: Some(true), ..edit() });
    assert_eq!(plan.len(), 1);
    assert_eq!(plan[0].field, "enabled");
    assert_eq!(plan[0].before, "false");
    assert_eq!(plan[0].after, "true");
}

#[test]
fn noop_edit_produces_no_actions() {
    let it = item("app", true, SourceKind::RunUser);
    let plan = plan_one(&it, &EditRequest { enabled: Some(true), ..edit() });
    assert!(plan.is_empty());
}

#[test]
fn service_start_type_change_is_planned() {
    let it = item("svc", true, SourceKind::Service);
    let plan = plan_one(&it, &EditRequest { start_type: Some(3), ..edit() });
    assert_eq!(plan.len(), 1);
    assert_eq!(plan[0].field, "startType");
    assert_eq!(plan[0].before, "自动");
    assert_eq!(plan[0].after, "手动");
}

#[test]
fn task_enabled_change_is_planned() {
    let it = item("task", true, SourceKind::ScheduledTask);
    let plan = plan_one(&it, &EditRequest { task_enabled: Some(false), ..edit() });
    assert_eq!(plan.len(), 1);
    assert_eq!(plan[0].field, "taskEnabled");
    assert_eq!(plan[0].after, "false");
}

#[test]
fn trigger_enabled_change_is_planned_separately() {
    let it = item("task", true, SourceKind::ScheduledTask);
    let plan = plan_one(&it, &EditRequest { trigger_enabled: Some(false), ..edit() });
    assert_eq!(plan.len(), 1);
    assert_eq!(plan[0].field, "triggerEnabled");
    assert_eq!(plan[0].after, "false");
}

#[test]
fn disabled_bad_start_type_is_rejected_at_plan_time() {
    let it = item("svc", true, SourceKind::Service);
    let plan = plan_one(&it, &EditRequest { start_type: Some(4), ..edit() });
    assert!(plan.is_empty(), "DISABLED 不应进入预演，实际 {} 个动作", plan.len());
}

#[test]
fn invalid_start_type_stops_the_plan_but_keeps_the_switch_step() {
    let it = item("svc", false, SourceKind::Service);
    let plan = plan_one(&it, &EditRequest { enabled: Some(true), start_type: Some(4), task_enabled: Some(false), ..edit() });
    assert_eq!(plan.len(), 1);
    assert_eq!(plan[0].field, "enabled");
    assert_eq!(plan[0].consequence, "改为「启用」，开机/登录时运行");
    assert_eq!(start_type_name(Some(7)), "未知(7)");
    assert_eq!(start_type_name(None), "未知");
}

#[test]
fn locked_item_is_denied_with_human_reason() {
    let mut it = item("svc", true, SourceKind::Service);
    it.signer.is_os_component = true;
    it.risk = RiskLevel::Locked;
    let g = check(&it);
    assert!(!g.is_allowed());
    let msg = g.message().unwrap();
    assert!(msg.contains("禁改") || msg.contains("Windows 自带") || msg.contains("不提供修改"), "拒绝理由要是人话，实际：{msg}");
}

#[test]
fn core_service_is_locked() {
    let mut it = item("svc", true, SourceKind::Service);
    it.name = "RpcSs".into();
    it.risk = RiskLevel::Locked;
    let g = check(&it);
    assert!(!g.is_allowed());
    assert!(g.message().unwrap().contains("禁改"));
}

#[test]
fn safe_item_is_allowed() {
    let g = check(&item("app", true, SourceKind::RunUser));
    assert!(g.is_allowed(), "Safe 项应放行，实际拒绝：{:?}", g.message());
    assert_eq!(denial_message(&g), "");
}

#[test]
fn missing_location_is_denied() {
    let mut it = item("app", true, SourceKind::RunUser);
    it.location = "".into();
    assert!(!check(&it).is_allowed(), "无法定位的项必须拒绝");
}

#[test]
fn empty_id_is_denied() {
    let mut it = item("app", true, SourceKind::RunUser);
    it.id = "".into();
    let g = check(&it);
    assert!(!g.is_allowed(), "无 id 的项必须拒绝");
    assert_eq!(denial_message(&g), "这一项缺少定位信息，无法安全修改。请重新扫描后重试。");
}

#[test]
fn mark_locked_locks_system_hook() {
    assert_eq!(mark_locked(SourceKind::SystemHook, RiskLevel::Safe), RiskLevel::Locked, "系统注入项必须在来源层被锁死");
    assert_eq!(mark_locked(SourceKind::RunUser, RiskLevel::Safe), RiskLevel::Safe, "非注入来源不被误锁");
}

#[test]
fn lock_is_polymorphic_across_all_writable_sources() {
    let sources = [
        SourceKind::StartupFolderUser,
        SourceKind::StartupFolderMachine,
        SourceKind::RunUser,
        SourceKind::RunMachine,
        SourceKind::RunMachine32,
        SourceKind::RunOnceUser,
        SourceKind::RunOnceMachine,
        SourceKind::RunOnceMachine32,
        SourceKind::ScheduledTask,
        SourceKind::Service,
        SourceKind::SystemHook,
    ];
    for src in sources {
        let mut it = item("x", true, src);
        it.risk = RiskLevel::Locked;
        assert!(!check(&it).is_allowed(), "来源 {src:?} 的 Locked 项必须被拒");
    }
    assert!(matches!(GuardResult::Allowed, GuardResult::Allowed));
}

fn rec_app(id: &str, approved: &str) -> SnapshotRecord {
    SnapshotRecord {
        id: id.into(),
        display_name: "应用".into(),
        target: SnapshotTarget {
            source: "RunUser".into(),
            location: r"HKCU\Software\Microsoft\Windows\CurrentVersion\Explorer\StartupApproved\Run".into(),
            value_name: Some("QQ".into()),
        },
        approved_raw: Some(approved.to_string()),
        task_enabled: None,
        trigger_enabled: None,
        service_start_type: None,
        scope: "user".into(),
        risk: "Safe".into(),
    }
}

fn snap(records: Vec<SnapshotRecord>) -> Snapshot {
    Snapshot {
        schema_version: SNAPSHOT_SCHEMA_VERSION,
        id: "snap-ex".into(),
        created_at: "2026-09-15T10:00:00Z".into(),
        description: "导出测试".into(),
        reason: SnapshotReason::Scan,
        records,
    }
}

#[test]
fn ps1_contains_admin_check_and_reg_add() {
    let s = snap(vec![rec_app("app", "0202")]);
    let ps1 = export(&s).unwrap().ps1;
    assert!(ps1.contains("以管理员身份运行"));
    assert!(ps1.contains("reg add"));
    assert!(ps1.contains("依据快照"));
}

#[test]
fn hex_dots_formats_bytes() {
    assert_eq!(hex_dots("0202"), "02,02");
    assert_eq!(hex_dots("0202000000000000"), "02,02,00,00,00,00,00,00");
    assert_eq!(hex_dots("ABc"), "ab,c");
    assert_eq!(hex_dots(""), "");
}

#[test]
fn reg_contains_startup_approved() {
    let s = snap(vec![rec_app("app", "0202")]);
    let reg = export(&s).unwrap().reg;
    assert!(reg.contains("Windows Registry Editor Version 5.00"));
    assert!(reg.contains("StartupApproved"));
    assert!(reg.contains("\"QQ\"=hex:02,02"));
    assert!(reg.contains(r"[HKEY_CURRENT_USER\Software\Microsoft\Windows\CurrentVersion\Explorer\StartupApproved\Run]"));
}

#[test]
fn task_and_service_go_only_to_ps1() {
    let task_rec = SnapshotRecord {
        id: "task".into(),
        display_name: "任务".into(),
        target: SnapshotTarget { source: "ScheduledTask".into(), location: "\\MyTask".into(), value_name: None },
        approved_raw: None,
        task_enabled: Some(false),
        trigger_enabled: None,
        service_start_type: None,
        scope: "user".into(),
        risk: "Safe".into(),
    };
    let svc_rec = SnapshotRecord {
        id: "svc".into(),
        display_name: "服务".into(),
        target: SnapshotTarget { source: "Service".into(), location: "MySvc".into(), value_name: None },
        approved_raw: None,
        task_enabled: None,
        trigger_enabled: None,
        service_start_type: Some(3),
        scope: "machine".into(),
        risk: "Safe".into(),
    };
    let b = export(&snap(vec![task_rec, svc_rec])).unwrap();
    assert!(b.ps1.contains("schtasks /Change"));
    assert!(b.ps1.contains("sc.exe config"));
    assert!(b.ps1.contains(r#"schtasks /Change /TN "\MyTask" /disable   # 任务级恢复"#));
    assert!(b.ps1.contains(r#"sc.exe config "MySvc" start= demand"#));
    assert!(!b.ps1.contains("本快照无计划任务"));
    assert!(b.reg.is_empty(), "任务/服务不应出现在 .reg 中");
}

#[test]
fn empty_snapshot_ok() {
    let b = export(&snap(vec![])).unwrap();
    assert!(b.reg.is_empty());
    assert!(!b.ps1.is_empty(), "头部仍在");
    assert!(b.ps1.contains("# （本快照无计划任务 / 服务改动）"));
}

#[test]
fn split_root_recognises_prefixes_and_falls_back_on_scope() {
    assert_eq!(split_root(r"HKLM\Software\X", "user"), ("HKEY_LOCAL_MACHINE".to_string(), r"Software\X".to_string()));
    assert_eq!(split_root(r"HKEY_CURRENT_USER\A", "machine"), ("HKEY_CURRENT_USER".to_string(), "A".to_string()));
    assert_eq!(split_root(r"Software\Y", "machine"), ("HKEY_LOCAL_MACHINE".to_string(), r"Software\Y".to_string()));
    assert_eq!(split_root(r"Software\Y", "user"), ("HKEY_CURRENT_USER".to_string(), r"Software\Y".to_string()));
}

fn rec(id: &str, approved: Option<&str>, task: Option<bool>, trigger: Option<bool>, svc: Option<u32>) -> SnapshotRecord {
    SnapshotRecord {
        id: id.into(),
        display_name: format!("应用-{id}"),
        target: SnapshotTarget {
            source: "RunUser".into(),
            location: r"HKCU\Software\Microsoft\Windows\CurrentVersion\Run".into(),
            value_name: Some("App".into()),
        },
        approved_raw: approved.map(|s| s.to_string()),
        task_enabled: task,
        trigger_enabled: trigger,
        service_start_type: svc,
        scope: "user".into(),
        risk: "Safe".into(),
    }
}

fn base_snap(records: Vec<SnapshotRecord>) -> Snapshot {
    Snapshot {
        schema_version: SNAPSHOT_SCHEMA_VERSION,
        id: "rollback-target".into(),
        created_at: "2026-09-15T00:00:00Z".into(),
        description: "改前基线".into(),
        reason: SnapshotReason::Scan,
        records,
    }
}

fn cur(pairs: &[(&str, Option<&str>)]) -> Vec<(String, Option<String>)> {
    pairs.iter().map(|(k, v)| (k.to_string(), v.map(|s| s.to_string()))).collect()
}

#[test]
fn unchanged_items_produce_no_steps() {
    let s = base_snap(vec![rec("a", Some("0202"), None, None, None)]);
    let plan = plan_rollback(&s, &cur(&[("a", Some("0202"))]));
    assert!(plan.is_noop(), "未变化的项不需要回滚：{:?}", plan.steps);
    assert_eq!(plan.steps.len(), 0);
    assert_eq!(plan.skipped, vec!["应用-a：未变化".to_string()]);
}

#[test]
fn changed_item_produces_approved_raw_step() {
    let s = base_snap(vec![rec("a", Some("0202"), None, None, None)]);
    let plan = plan_rollback(&s, &cur(&[("a", Some("0303"))]));
    assert_eq!(plan.steps.len(), 1);
    assert_eq!(plan.steps[0].item_id, "a");
    assert_eq!(plan.steps[0].before, "0303");
    assert_eq!(plan.steps[0].after, "0202");
    match &plan.steps[0].op {
        RollbackOp::ApprovedRaw { hex } => assert_eq!(hex, "0202"),
        other => panic!("期望 ApprovedRaw，实际 {other:?}"),
    }
}

#[test]
fn service_and_task_fields_restored() {
    let s = base_snap(vec![rec("svc", None, None, None, Some(2)), rec("task", None, Some(true), None, None)]);
    let plan = plan_rollback(&s, &cur(&[("svc", Some("3")), ("task", Some("false"))]));
    assert_eq!(plan.steps.len(), 2);
    assert!(matches!(plan.steps[0].op, RollbackOp::ServiceStartType { value: 2 }));
    assert!(matches!(plan.steps[1].op, RollbackOp::TaskEnabled { value: true }));
}

#[test]
fn missing_item_is_skipped_not_restored() {
    let s = base_snap(vec![rec("gone", Some("0202"), None, None, None)]);
    let plan = plan_rollback(&s, &cur(&[("gone", None)]));
    assert!(plan.is_noop());
    assert_eq!(plan.skipped.len(), 1);
    assert!(plan.skipped[0].contains("不存在"));
    // an item without any entry is gone too
    let plan = plan_rollback(&s, &cur(&[]));
    assert!(plan.is_noop());
}

#[test]
fn rollback_restores_baseline_exactly_diff_zero() {
    let baseline = base_snap(vec![
        rec("app1", Some("0202"), None, None, None),
        rec("svc1", None, None, None, Some(2)),
        rec("task1", None, Some(true), None, None),
        rec("trg1", None, None, Some(true), None),
        rec("app2", Some("0202"), None, None, None),
    ]);
    let current = cur(&[
        ("app1", Some("0303")),
        ("svc1", Some("3")),
        ("task1", Some("false")),
        ("trg1", Some("false")),
        ("app2", Some("0202")),
    ]);
    let plan = plan_rollback(&baseline, &current);
    assert_eq!(plan.steps.len(), 4);
    assert_eq!(plan.skipped.len(), 1);
    let mut restored = current.clone();
    for step in &plan.steps {
        let target = baseline.records.iter().find(|r| r.id == step.item_id).and_then(value_str);
        for entry in restored.iter_mut() {
            if entry.0 == step.item_id {
                entry.1 = target.clone();
            }
        }
    }
    for r in &baseline.records {
        let now = restored.iter().find(|e| e.0 == r.id).and_then(|e| e.1.clone());
        assert_eq!(now, value_str(r), "项 {} 回滚后与基线不一致", r.display_name);
    }
}

#[test]
fn rollback_takes_a_snapshot_of_its_own() {
    let s = new_rollback_snapshot(vec![], "回滚", "2026-09-15T00:00:00Z".into());
    assert_eq!(s.reason, SnapshotReason::Rollback);
    assert_eq!(s.id, snapshot_id("BootFlow", "2026-09-15T00:00:00Z"));
    assert_ne!(s.id, snapshot_id("BootFlow", "2026-09-15T00:00:01Z"));
    assert_eq!(s.id.len(), 36);
}

fn record(id: &str, approved: Option<&str>) -> SnapshotRecord {
    rec(id, approved, None, None, None)
}

fn txn_item(id: &str) -> StartupItem {
    item(id, true, SourceKind::RunUser)
}

#[test]
fn optimistic_lock_detects_external_change() {
    let s = base_snap(vec![record("app", Some("0202..."))]);
    let tx = Tx::begin("test", &s.records);
    let err = tx.expect_unchanged(&txn_item("app"), Some("0303..."), Some("0202..."));
    assert!(err.is_err(), "乐观锁必须检测到外部修改");
    assert!(err.unwrap_err().message().contains("被别的程序改过"));
}

#[test]
fn optimistic_lock_passes_when_unchanged() {
    let s = base_snap(vec![record("app", Some("0202..."))]);
    let tx = Tx::begin("test", &s.records);
    assert!(tx.expect_unchanged(&txn_item("app"), Some("0202..."), Some("0202...")).is_ok());
    assert_eq!(tx.item_ids, vec!["app".to_string()]);
}

#[test]
fn item_disappeared_detected() {
    let s = base_snap(vec![record("app", Some("0202..."))]);
    let tx = Tx::begin("test", &s.records);
    let err = tx.expect_unchanged(&txn_item("app"), None, Some("0202..."));
    assert!(err.is_err());
    match err.unwrap_err() {
        AppError::Other(m) => assert!(m.contains("消失")),
        e => panic!("unexpected {e:?}"),
    }
}

#[test]
fn rollback_applies_all_steps_in_reverse() {
    let s = base_snap(vec![]);
    let mut tx = Tx::begin("test", &s.records);
    let mut applied = vec![
        AppliedStep { item_id: "a".into(), rollback: RollbackOp::ServiceStartType { value: 2 } },
        AppliedStep { item_id: "b".into(), rollback: RollbackOp::ApprovedRaw { hex: "0202".into() } },
    ];
    tx.record_applied(applied.remove(0));
    tx.record_applied(applied.remove(0));
    let ops = tx.pending_rollback();
    let mut order: Vec<String> = Vec::new();
    let outcomes: Vec<Result<(), String>> = ops
        .iter()
        .map(|_op| {
            order.push("rollback".into());
            Ok(())
        })
        .collect();
    let errors = tx.rollback(&outcomes);
    assert!(errors.is_empty());
    assert_eq!(order.len(), 2);
    assert!(tx.finished);
    assert!(matches!(&ops[0], RollbackOp::ApprovedRaw { hex } if hex == "0202"), "最后写的一步最先撤销");
    assert!(matches!(ops[1], RollbackOp::ServiceStartType { value: 2 }));
}

#[test]
fn rollback_reports_each_failed_step() {
    let mut tx = Tx::begin("t", &[]);
    tx.record_applied(AppliedStep { item_id: "a".into(), rollback: RollbackOp::TaskEnabled { value: true } });
    tx.record_applied(AppliedStep { item_id: "b".into(), rollback: RollbackOp::TriggerEnabled { value: false } });
    // Outcomes come in undo order: "b" (written last) first.
    let errors = tx.rollback(&vec![Err("拒绝访问".to_string()), Ok(())]);
    assert_eq!(errors, vec!["恢复 b 失败：拒绝访问".to_string()]);
    let mut tx2 = Tx::begin("t", &[]);
    tx2.record_applied(AppliedStep { item_id: "a".into(), rollback: RollbackOp::TaskEnabled { value: true } });
    tx2.record_applied(AppliedStep { item_id: "b".into(), rollback: RollbackOp::TriggerEnabled { value: false } });
    let errors = tx2.rollback(&vec![Err("一".to_string()), Err("二".to_string())]);
    assert_eq!(errors, vec!["恢复 b 失败：一".to_string(), "恢复 a 失败：二".to_string()]);
}

#[test]
fn rollback_keeps_going_after_a_failure_and_reports_in_undo_order() {
    let mut tx = Tx::begin("t", &[]);
    for id in ["a", "b", "c"] {
        tx.record_applied(AppliedStep { item_id: id.into(), rollback: RollbackOp::TaskEnabled { value: true } });
    }
    assert_eq!(tx.pending_rollback().len(), 3);
    // Undo order is c, b, a: c fails, b succeeds, a fails.
    let errors = tx.rollback(&vec![Err("x".to_string()), Ok(()), Err("y".to_string())]);
    assert_eq!(errors, vec!["恢复 c 失败：x".to_string(), "恢复 a 失败：y".to_string()]);
}

#[test]
fn value_str_takes_the_first_recorded_field() {
    assert_eq!(value_str(&rec("x", Some("0202"), Some(true), None, Some(2))), Some("0202".to_string()));
    assert_eq!(value_str(&rec("x", None, None, Some(false), Some(2))), Some("false".to_string()));
    assert_eq!(value_str(&rec("x", None, None, None, Some(3))), Some("3".to_string()));
    assert_eq!(value_str(&rec("x", None, None, None, None)), None);
}

#[test]
fn retention_prunes_oldest_snapshots() {
    let ids: Vec<String> = ["ret-4", "ret-3", "ret-2", "ret-1", "ret-0"].iter().map(|s| s.to_string()).collect();
    let gone = prune_targets(&ids, 3);
    assert_eq!(gone, vec!["ret-1".to_string(), "ret-0".to_string()]);
    assert!(prune_targets(&ids, 0).is_empty(), "保留 0 表示不清理");
    assert!(prune_targets(&ids, 9).is_empty());
    assert_eq!(default_retention(), 20);
}

#[test]
fn snapshot_files_are_named_by_id() {
    assert_eq!(snapshot_file_name("abc"), "abc.json");
    assert_eq!(temp_file_name("abc"), ".abc.tmp");
    assert_eq!(id_of_file_name("abc.json"), Some("abc".to_string()));
    assert_eq!(id_of_file_name(".abc.json"), None);
    assert_eq!(id_of_file_name("abc.tmp"), None);
}

#[test]
fn rejects_future_schema_version() {
    let mut s = base_snap(vec![]);
    s.schema_version = 999;
    match check_loaded(s, "future") {
        Err(AppError::Other(m)) => assert_eq!(m, "快照 future 的 schema 版本 999 与当前 1 不兼容"),
        _ => panic!("未来版本的快照必须拒绝"),
    }
    assert!(check_loaded(base_snap(vec![]), "ok").is_ok());
    let b = scan_baseline_at(vec![], "2026-01-01T00:00:00Z".into());
    assert_eq!(b.description, "扫描前基线");
    assert_eq!(b.reason, SnapshotReason::Scan);
}

fn draft_of(id: &str, action: Action, before: &str, after: &str) -> ChangeDraft {
    ChangeDraft {
        snap_id: "s".into(),
        txn: "tx".into(),
        rec: rec(id, Some("0202"), None, None, None),
        action,
        before: before.into(),
        after: after.into(),
        origin: "o".into(),
    }
}

#[test]
fn export_markdown_contains_header_and_rows() {
    let entries = vec![ChangeEntry::ok("t", &draft_of("z", Action::Disable, "true", "false"))];
    let md = render_markdown(&entries);
    assert!(md.contains("变更日志"));
    assert!(md.contains("停用"));
    assert!(md.contains("| true | false |"));
    assert!(md.contains("共 1 条记录"));
}

#[test]
fn failed_change_is_logged_with_its_error() {
    let e = ChangeEntry::fail("t", &draft_of("z", Action::StartType, "2", "3"), "拒绝访问");
    assert_eq!(e.result, "error: 拒绝访问");
    assert_eq!(e.item_id, "z");
    assert_eq!(Action::Rollback.label(), "回滚");
    let all = vec![
        ChangeEntry::ok("t1", &draft_of("a", Action::Enable, "f", "t")),
        ChangeEntry::ok("t2", &draft_of("b", Action::Disable, "t", "f")),
        ChangeEntry::ok("t3", &draft_of("c", Action::Disable, "t", "f")),
    ];
    let r = recent_of(all, 2);
    assert_eq!(r.len(), 2);
    assert_eq!(r[0].item_id, "c");
    assert_eq!(r[1].item_id, "b");
}

#[test]
fn restore_script_only_adds_and_reconfigures() {
    let mut task = rec("t", None, Some(false), Some(true), None);
    task.target.source = "ScheduledTask".into();
    task.target.location = r"\Acme\Sync".into();
    let mut trig_only = rec("g", None, None, Some(false), None);
    trig_only.target.source = "ScheduledTask".into();
    let mut svc = rec("s", None, None, None, Some(3));
    svc.target.source = "Service".into();
    svc.target.location = "AcmeSvc".into();
    let s = base_snap(vec![rec("a", Some("0300000000000000"), None, None, None), task, trig_only, svc]);
    let ps1 = export(&s).unwrap().ps1;
    let body = ps1.split("# 恢复以下启动项的启停状态：\n\n").nth(1).unwrap();
    for line in body.lines().filter(|l| !l.trim().is_empty()) {
        assert!(
            line.starts_with("reg add ")
                || line.starts_with("schtasks /Change ")
                || line.starts_with("sc.exe config ")
                || line.starts_with("# ")
                || line.starts_with("Write-Host "),
            "脚本里出现了写回以外的操作：{line}"
        );
        for bad in ["reg delete", "Remove-", "schtasks /Delete", "sc.exe delete"] {
            assert!(!line.contains(bad), "{line}");
        }
    }
}

#[test]
fn machine_run_32_bit_entries_are_exported() {
    let mut r = rec("a", Some("0202"), None, None, None);
    r.target.source = "RunMachine32".into();
    r.target.location = r"HKLM\Software\Microsoft\Windows\CurrentVersion\Explorer\StartupApproved\Run32".into();
    r.target.value_name = Some("A".into());
    let b = export(&base_snap(vec![r])).unwrap();
    assert!(b.reg.contains("\"A\"=hex:02,02"), "{}", b.reg);
    assert!(b.ps1.contains("reg add "), "{}", b.ps1);
}
