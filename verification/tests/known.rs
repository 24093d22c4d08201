use bootflow::diag::known::{
    is_office_task_disabled, lookup_auto_service, lookup_office_task, office_background_tasks,
    should_be_auto_services,
};
use bootflow::model::RiskLevel;

#[test]
fn auto_service_lookup_is_case_insensitive() {
    assert!(lookup_auto_service("ClickToRunSvc").is_some());
    assert!(lookup_auto_service("clicktorunsvc").is_some());
    assert!(lookup_auto_service("CLICKTORUNSVC").is_some());
    assert!(lookup_auto_service("NotAService").is_none());
}

#[test]
fn demand_start_by_design_services_are_not_listed() {
    for name in ["BITS", "wuauserv", "defragsvc", "sppsvc"] {
        assert!(lookup_auto_service(name).is_none(), "{name} 的手动启动是 Windows 出厂设计，不能当成「被改坏了」");
    }
}

#[test]
fn office_task_paths_are_matched_exactly() {
    assert!(lookup_office_task(r"\Microsoft\Office\Office Automatic Updates 2.0").is_some());
    assert!(lookup_office_task(r"\microsoft\office\office automatic updates 2.0").is_some());
    assert!(lookup_office_task(r"\Microsoft\Office\Office Automatic Updates").is_none());
    assert!(lookup_office_task(r"\Microsoft\Windows\Defrag\ScheduledDefrag").is_none());
}

#[test]
fn office_disabled_detection_requires_task_level_disable() {
    let p = r"\Microsoft\Office\Office Feature Updates Logon";
    assert!(is_office_task_disabled(p, false));
    assert!(!is_office_task_disabled(p, true));
    assert!(!is_office_task_disabled(r"\Some\Other\Task", false));
}

#[test]
fn tables_hold_the_documented_rows() {
    let s = should_be_auto_services();
    assert_eq!(s.len(), 5);
    assert_eq!(s[0].severity, RiskLevel::Medium);
    assert_eq!(lookup_auto_service("windefend").unwrap().severity, RiskLevel::High);
    assert_eq!(office_background_tasks().len(), 5);
}
