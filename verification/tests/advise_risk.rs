use bootflow::advise::advise;
use bootflow::diag::codes;
use bootflow::diag::risk::assess;
use bootflow::model::{
    BootPhase, DesiredState, DiagnosticInfo, ItemKind, ItemTiming, RawFields,
    RecommendationAction, RiskLevel, Scope, SignerInfo, SourceKind, StartupItem, ValidityStatus,
};

fn base_item() -> StartupItem {
    StartupItem {
        id: "t".into(),
        source: SourceKind::RunUser,
        identity_key: "k".into(),
        name: "test".into(),
        kind: ItemKind::App,
        display_name: None,
        name_from: None,
        summary: None,
        command: "x".into(),
        resolved_path: "x".into(),
        args: vec![],
        location: "l".into(),
        scope: Scope::User,
        enabled: true,
        signer: SignerInfo { is_signed: true, ..SignerInfo::default() },
        icon_data: None,
        risk: RiskLevel::Safe,
        risk_reasons: vec![],
        diagnostics: vec![],
        boot_phase: BootPhase::Logon,
        timing: ItemTiming::default(),
        validity: ValidityStatus::Valid,
        validity_detail: None,
        recommendation: None,
        duplicate_of: None,
        raw: RawFields::default(),
        desired: DesiredState::default(),
        snapshot_ref: None,
    }
}

fn diag(code: &str, severity: RiskLevel) -> DiagnosticInfo {
    DiagnosticInfo { code: code.to_string(), severity, message: "m".into(), evidence: None }
}

#[test]
fn dead_target_recommends_cleanup_with_human_reason() {
    let mut it = base_item();
    it.validity = ValidityStatus::MissingTarget;
    let r = advise(&it).expect("应当给出建议");
    assert_eq!(r.action, RecommendationAction::Remove);
    assert!(!r.reason.contains("DEAD_TARGET"));
    assert!(r.reason.contains("残留"));
}

#[test]
fn healthy_signed_item_gets_no_noise() {
    assert!(advise(&base_item()).is_none(), "正常项不应产生任何建议噪音");
}

#[test]
fn duplicate_is_advised_to_disable_not_delete() {
    let mut it = base_item();
    it.validity = ValidityStatus::Duplicate;
    let r = advise(&it).unwrap();
    assert_eq!(r.action, RecommendationAction::Disable);
    assert!(r.reason.contains("都会被拉起"));
}

#[test]
fn disabled_remnant_is_advised_to_remove() {
    let mut it = base_item();
    it.validity = ValidityStatus::DisabledRemnant;
    it.enabled = false;
    let r = advise(&it).expect("应给出建议");
    assert_eq!(r.action, RecommendationAction::Remove);
    assert!(r.reason.contains("停用"));
    assert!(r.reason.contains("不会影响"));
}

#[test]
fn unreachable_is_review_not_remove() {
    let mut it = base_item();
    it.validity = ValidityStatus::Unreachable;
    assert_eq!(advise(&it).expect("应给出建议").action, RecommendationAction::Review);
}

#[test]
fn unsigned_on_machine_scope_is_flagged() {
    let mut it = base_item();
    it.scope = Scope::Machine;
    it.signer.is_signed = false;
    assert_eq!(advise(&it).expect("全局位置的未签名项应提示").action, RecommendationAction::Review);
}

#[test]
fn locked_items_never_get_advice_about_signature() {
    let mut it = base_item();
    it.kind = ItemKind::System;
    it.risk = RiskLevel::Locked;
    it.scope = Scope::Machine;
    it.signer.is_signed = false;
    it.signer.is_os_component = true;
    assert!(advise(&it).is_none());
}

#[test]
fn locked_exemption_does_not_leak_to_manageable_items() {
    let mut it = base_item();
    it.scope = Scope::Machine;
    it.signer.is_signed = false;
    it.risk = RiskLevel::Safe;
    assert!(advise(&it).is_some());
}

#[test]
fn disabled_item_gets_no_advice_about_how_it_runs() {
    let mut it = base_item();
    it.enabled = false;
    it.scope = Scope::Machine;
    it.signer.is_signed = false;
    it.diagnostics = vec![DiagnosticInfo {
        code: codes::SLOW_START.to_string(),
        severity: RiskLevel::Medium,
        message: "x".into(),
        evidence: None,
    }];
    assert!(advise(&it).is_none());
}

#[test]
fn disabled_item_still_gets_cleanup_advice_when_target_is_gone() {
    let mut it = base_item();
    it.enabled = false;
    it.validity = ValidityStatus::MissingTarget;
    assert_eq!(advise(&it).expect("目标丢失的停用项仍应给出清理建议").action, RecommendationAction::Remove);
}

#[test]
fn slow_start_advice_quotes_the_evidence() {
    let mut it = base_item();
    let mut d = diag(codes::SLOW_START, RiskLevel::Medium);
    d.evidence = Some("EventID=103".into());
    it.diagnostics = vec![diag(codes::GLOBAL_HOOK, RiskLevel::High), d];
    let r = advise(&it).unwrap();
    assert_eq!(
        r.reason,
        "系统自己记录了它上一次开机启动很慢（EventID=103）。这是 Windows 的实测数据，不是我们的推测。可以考虑把它改成更晚启动，或者确认一下它是否真的需要开机就运行。"
    );
}

#[test]
fn manual_service_advice_is_a_review() {
    let mut it = base_item();
    it.diagnostics = vec![diag(codes::MANUAL_BUT_SHOULD_AUTO, RiskLevel::Medium)];
    assert!(advise(&it).unwrap().reason.contains("手动"));
}

fn item() -> StartupItem {
    let mut it = base_item();
    it.name = "Test".into();
    it.command = r"C:\App\a.exe".into();
    it.resolved_path = r"C:\App\a.exe".into();
    it
}

#[test]
fn healthy_user_level_signed_item_is_safe() {
    let (level, reasons) = assess(&item());
    assert_eq!(level, RiskLevel::Safe);
    assert!(reasons[0].contains("没有发现"));
}

#[test]
fn os_component_is_locked_and_short_circuits() {
    let mut it = item();
    it.signer.is_os_component = true;
    it.signer.is_signed = false;
    let (level, reasons) = assess(&it);
    assert_eq!(level, RiskLevel::Locked);
    assert_eq!(reasons.len(), 1);
}

#[test]
fn core_service_is_locked_even_outside_system_dir() {
    let mut it = item();
    it.source = SourceKind::Service;
    it.name = "rpcss".into();
    it.resolved_path = r"D:\Vendor\rpcss.exe".into();
    assert_eq!(assess(&it).0, RiskLevel::Locked);
}

#[test]
fn locked_reason_does_not_mention_technical_terms() {
    let mut it = item();
    it.signer.is_os_component = true;
    let (_, reasons) = assess(&it);
    for term in ["HKLM", "HKCU", "Registry", "AntiVirus", "System32"] {
        assert!(!reasons[0].contains(term));
    }
}

#[test]
fn unsigned_scope_decides_the_level() {
    let mut user = item();
    user.signer.is_signed = false;
    let mut machine = item();
    machine.signer.is_signed = false;
    machine.scope = Scope::Machine;
    assert_eq!(assess(&user).0, RiskLevel::Medium);
    assert_eq!(assess(&machine).0, RiskLevel::High);
}

#[test]
fn severity_takes_the_most_serious_factor_not_the_last_one() {
    let mut it = item();
    it.diagnostics = vec![
        diag(codes::OFFICE_TASKS_DISABLED, RiskLevel::Medium),
        diag(codes::MANUAL_BUT_SHOULD_AUTO, RiskLevel::High),
    ];
    assert_eq!(assess(&it).0, RiskLevel::High);
    it.diagnostics.reverse();
    assert_eq!(assess(&it).0, RiskLevel::High);
    assert_eq!(assess(&it).1.len(), 2);
}

#[test]
fn slow_start_evidence_raises_to_high() {
    let mut it = item();
    it.diagnostics = vec![diag(codes::SLOW_START, RiskLevel::Medium)];
    assert_eq!(assess(&it).0, RiskLevel::High);
}

#[test]
fn global_hook_is_high() {
    let mut it = item();
    it.kind = ItemKind::Hook;
    it.diagnostics = vec![diag(codes::GLOBAL_HOOK, RiskLevel::High)];
    assert_eq!(assess(&it).0, RiskLevel::High);
}

#[test]
fn office_service_uses_its_own_severity_not_a_fixed_one() {
    let mut it = item();
    it.source = SourceKind::Service;
    it.name = "ClickToRunSvc".into();
    it.diagnostics = vec![diag(codes::MANUAL_BUT_SHOULD_AUTO, RiskLevel::Medium)];
    assert_eq!(assess(&it).0, RiskLevel::Medium);
}

#[test]
fn dead_target_is_medium_not_high() {
    let mut it = item();
    it.validity = ValidityStatus::MissingTarget;
    assert_eq!(assess(&it).0, RiskLevel::Medium);
}

#[test]
fn reasons_are_never_empty() {
    for mut it in [item(), item(), item()] {
        it.signer.is_os_component = false;
        it.validity = ValidityStatus::MissingTarget;
        let (_, reasons) = assess(&it);
        assert!(!reasons.is_empty());
    }
}

#[test]
fn removal_is_advised_only_when_sure() {
    let states = [
        ValidityStatus::Valid,
        ValidityStatus::MissingTarget,
        ValidityStatus::NotExecutable,
        ValidityStatus::Unreachable,
        ValidityStatus::DisabledRemnant,
        ValidityStatus::Duplicate,
        ValidityStatus::Unknown,
    ];
    for v in states {
        for enabled in [true, false] {
            for signed in [true, false] {
                let mut it = base_item();
                it.validity = v;
                it.enabled = enabled;
                it.signer.is_signed = signed;
                it.scope = Scope::Machine;
                if let Some(r) = advise(&it) {
                    if r.action == RecommendationAction::Remove {
                        assert_eq!(r.confidence, bootflow::model::Confidence::Measured);
                        assert!(matches!(v, ValidityStatus::MissingTarget | ValidityStatus::NotExecutable | ValidityStatus::DisabledRemnant));
                    }
                    if r.confidence == bootflow::model::Confidence::Estimated {
                        assert_eq!(r.action, RecommendationAction::Review);
                    }
                }
            }
        }
    }
}
