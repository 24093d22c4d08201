use bootflow::diag::codes;
use bootflow::model::{BootPhase, SourceDetail, SourceKind};
use bootflow::scanners::builder::FileMeta;
use bootflow::scanners::service::{
    build_item, collect_reason, expand_image_path, service_boot_phase, status_phrase, CollectReason,
    ServiceRecord, AUTO_PHRASE, DELAYED_PHRASE, TRIGGERED_PHRASE,
};

fn rec(name: &str, start_type: u32, delayed: bool, triggers: u32) -> ServiceRecord {
    ServiceRecord {
        name: name.into(),
        display_name: name.into(),
        start_type,
        delayed,
        image_path: r"C:\Windows\System32\svchost.exe".into(),
        trigger_count: triggers,
        has_system_state_trigger: false,
    }
}

fn item_of(r: &ServiceRecord) -> Option<bootflow::model::StartupItem> {
    build_item(r, r"C:\Windows\System32\svchost.exe".to_string(), vec![], FileMeta::unknown())
}

#[test]
fn auto_start_services_are_collected() {
    assert_eq!(collect_reason(&rec("Foo", 2, false, 0)), Some(CollectReason::AutoStart));
    assert_eq!(collect_reason(&rec("Bar", 2, true, 0)), Some(CollectReason::AutoStart));
}

#[test]
fn manual_service_without_trigger_is_not_an_autostart_item() {
    assert_eq!(collect_reason(&rec("BITS", 3, false, 0)), None);
}

#[test]
fn manual_service_with_trigger_counts_as_autostart() {
    assert_eq!(collect_reason(&rec("Foo", 3, false, 1)), Some(CollectReason::Triggered));
}

#[test]
fn disabled_known_service_is_collected_so_diagnosis_can_fire() {
    let r = rec("WinDefend", 4, false, 0);
    assert!(collect_reason(&r).is_some(), "白名单里的服务即使被禁用也必须收进来");
}

#[test]
fn disabled_unknown_service_is_skipped() {
    assert_eq!(collect_reason(&rec("SomeRandomSvc", 4, false, 0)), None);
    assert!(item_of(&rec("SomeRandomSvc", 4, false, 0)).is_none());
}

#[test]
fn known_service_changed_to_manual_produces_diagnostic() {
    let r = rec("ClickToRunSvc", 3, false, 0);
    let item = item_of(&r).expect("应被收进来");
    let d = item
        .diagnostics
        .iter()
        .find(|d| d.code == codes::MANUAL_BUT_SHOULD_AUTO)
        .expect("应产生 MANUAL_BUT_SHOULD_AUTO 诊断");
    assert!(d.evidence.as_deref().unwrap_or("").contains("Start=3"));
    assert!(d.message.contains("手动"));
    assert!(d.message.contains("自动"));
}

#[test]
fn known_service_already_auto_produces_no_diagnostic() {
    let r = rec("WinDefend", 2, false, 0);
    let item = item_of(&r).unwrap();
    assert!(item.diagnostics.is_empty());
}

#[test]
fn delayed_auto_service_lands_in_logon_phase() {
    assert_eq!(service_boot_phase(&rec("A", 2, true, 0)), BootPhase::Logon);
    assert_eq!(service_boot_phase(&rec("B", 2, false, 0)), BootPhase::Smss);
    assert_eq!(service_boot_phase(&rec("C", 3, false, 1)), BootPhase::Logon);
}

#[test]
fn image_path_expansion_handles_systemroot_prefix() {
    let root = r"C:\Windows";
    let out = expand_image_path(r"\SystemRoot\System32\drivers\foo.sys", root);
    assert_eq!(out, format!(r"{root}\System32\drivers\foo.sys"));
    assert_eq!(
        expand_image_path(r"C:\Windows\System32\svchost.exe -k netsvcs", root),
        r"C:\Windows\System32\svchost.exe -k netsvcs"
    );
}

#[test]
fn expand_handles_nt_prefixes() {
    assert_eq!(expand_image_path(r"\??\C:\Windows\a.exe", r"C:\Windows"), r"C:\Windows\a.exe");
    assert_eq!(expand_image_path(r"\\?\C:\Windows\a.exe", r"C:\Windows"), r"C:\Windows\a.exe");
}

#[test]
fn service_item_carries_what_was_read() {
    let mut r = rec("Acme", 2, true, 0);
    r.display_name = "Acme Updater".into();
    let item = item_of(&r).unwrap();
    assert_eq!(item.source, SourceKind::Service);
    assert_eq!(item.name, "Acme");
    assert_eq!(item.display_name.as_deref(), Some("Acme Updater"));
    assert_eq!(item.location, "服务（全机器）");
    assert!(item.enabled);
    assert_eq!(item.raw.start_type, Some(2));
    assert_eq!(item.summary.as_deref(), Some(DELAYED_PHRASE));
    let plain = item_of(&rec("Plain", 2, false, 0)).unwrap();
    assert_eq!(plain.summary.as_deref(), Some(AUTO_PHRASE));
    let trig = item_of(&rec("Trig", 3, false, 2)).unwrap();
    assert_eq!(trig.summary.as_deref(), Some(TRIGGERED_PHRASE));
    let off = item_of(&rec("WinDefend", 4, false, 0)).unwrap();
    assert!(!off.enabled);
    assert_eq!(status_phrase(&rec("WinDefend", 4, false, 0)), "已禁用");
    assert_eq!(off.summary.as_deref(), Some("已禁用，不会启动。当前状态：已禁用"));
}

#[test]
fn service_keeps_what_was_read_of_it() {
    let mut r = rec("Acme", 3, false, 2);
    r.has_system_state_trigger = true;
    let it = item_of(&r).unwrap();
    assert_eq!(it.raw.start_type, Some(3));
    match it.raw.detail {
        SourceDetail::Service { delayed_autostart, trigger_count, has_system_state_trigger, collect_reason } => {
            assert!(!delayed_autostart);
            assert_eq!(trigger_count, 2);
            assert!(has_system_state_trigger);
            assert_eq!(collect_reason, CollectReason::Triggered);
        }
        d => panic!("unexpected {d:?}"),
    }
    let it = item_of(&rec("Bar", 2, true, 0)).unwrap();
    assert!(matches!(it.raw.detail, SourceDetail::Service { delayed_autostart: true, collect_reason: CollectReason::AutoStart, .. }));
}
