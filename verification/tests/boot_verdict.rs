use bootflow::diag::boot_log::{BootLogOutcome, EventData, RawEvent};
use bootflow::diag::boot_verdict::{
    diagnose, enable_needed, policy_allows, record_status, restore_action, BootPerformanceDiagnosis,
    RestoreAction, CHANNEL, DENIED_SUMMARY, DISABLED_MESSAGE, FAST_STARTUP_SUMMARY, NOT_YET_SUMMARY,
    POLICY_OFF_SUMMARY, SWITCH_UNKNOWN_SUMMARY,
};

fn event(id: u32, time: Option<&str>) -> RawEvent {
    RawEvent {
        event_id: id,
        data: EventData::new(),
        time_created: time.map(|t| t.to_string()),
        computer: None,
    }
}

#[test]
fn allowed_but_no_events_is_benign() {
    let d = BootPerformanceDiagnosis {
        verdict: "还没有开机性能记录",
        summary: String::new(),
        action: "先做一次完整重启",
        needs_elevation: false,
        record_count: 0,
        last_boot_at: None,
        channel: "…",
        record_switch: "allowed",
    };
    assert!(!d.needs_elevation);
    assert_eq!(d.record_count, 0);
}

#[test]
fn accessdenied_always_marks_elevation() {
    let d = BootPerformanceDiagnosis {
        verdict: "没有读取权限",
        summary: String::new(),
        action: "以管理员身份重开",
        needs_elevation: true,
        record_count: 0,
        last_boot_at: None,
        channel: "…",
        record_switch: "allowed",
    };
    assert!(d.needs_elevation);
}

#[test]
fn access_denied_verdict_asks_for_elevation() {
    let d = diagnose("allowed", &BootLogOutcome::AccessDenied);
    assert_eq!(d.verdict, "没有读取权限");
    assert_eq!(d.summary, DENIED_SUMMARY);
    assert!(d.needs_elevation);
    assert_eq!(d.record_count, 0);
    assert_eq!(d.channel, CHANNEL);
    assert_eq!(d.record_switch, "allowed");
}

#[test]
fn unavailable_log_with_allowed_switch_is_not_yet_recorded() {
    let d = diagnose("allowed", &BootLogOutcome::Unavailable("gone".to_string()));
    assert_eq!(d.verdict, "还没有开机性能记录");
    assert_eq!(d.summary, NOT_YET_SUMMARY);
    assert!(!d.needs_elevation);
}

#[test]
fn unavailable_log_with_disabled_policy_points_at_the_policy() {
    let d = diagnose("disabled", &BootLogOutcome::Unavailable(String::new()));
    assert_eq!(d.verdict, "记录被策略禁用");
    assert_eq!(d.summary, POLICY_OFF_SUMMARY);
    assert!(d.needs_elevation);
}

#[test]
fn unavailable_log_with_unreadable_switch_asks_for_elevation() {
    let d = diagnose("unreadable", &BootLogOutcome::Unavailable(String::new()));
    assert_eq!(d.verdict, "开关状态无法读取");
    assert_eq!(d.summary, SWITCH_UNKNOWN_SUMMARY);
    assert!(d.needs_elevation);
}

#[test]
fn events_without_a_boot_event_mean_fast_startup() {
    let events = vec![event(103, None), event(101, None)];
    let d = diagnose("allowed", &BootLogOutcome::Events(events));
    assert_eq!(d.verdict, "快速启动生效");
    assert_eq!(d.summary, FAST_STARTUP_SUMMARY);
    assert_eq!(d.record_count, 2);
    assert_eq!(d.last_boot_at, None);
    assert!(!d.needs_elevation);
}

#[test]
fn events_with_a_boot_event_report_the_first_one() {
    let events = vec![
        event(103, Some("2026-01-01T00:00:00Z")),
        event(100, Some("2026-03-17T18:15:25Z")),
        event(100, Some("2026-02-01T00:00:00Z")),
    ];
    let d = diagnose("allowed", &BootLogOutcome::Events(events));
    assert_eq!(d.verdict, "正常");
    assert_eq!(d.record_count, 3);
    assert_eq!(d.last_boot_at.as_deref(), Some("2026-03-17T18:15:25Z"));
    assert_eq!(
        d.summary,
        "系统一直在记录开机性能，最近一次开机主事件：2026-03-17T18:15:25Z（共 3 条相关记录）。"
    );
    assert!(!d.needs_elevation);
}

#[test]
fn boot_event_without_a_time_is_shown_as_unknown() {
    let d = diagnose("allowed", &BootLogOutcome::Events(vec![event(100, None)]));
    assert_eq!(d.summary, "系统一直在记录开机性能，最近一次开机主事件：未知（共 1 条相关记录）。");
}

#[test]
fn policy_switch_reading() {
    assert!(policy_allows(None));
    assert!(policy_allows(Some(1)));
    assert!(policy_allows(Some(2)));
    assert!(!policy_allows(Some(0)));
    assert!(enable_needed(Some(0)));
    assert!(!enable_needed(None));
    assert!(!enable_needed(Some(1)));
}

#[test]
fn record_status_states() {
    let a = record_status(Ok(true));
    assert_eq!(a.state, "allowed");
    assert!(a.message.is_empty());
    let d = record_status(Ok(false));
    assert_eq!(d.state, "disabled");
    assert_eq!(d.message, DISABLED_MESSAGE);
    let u = record_status(Err("拒绝访问".to_string()));
    assert_eq!(u.state, "unreadable");
    assert_eq!(u.message, "无法读取「开机记录」的开关状态：拒绝访问");
}

#[test]
fn restoring_the_policy() {
    assert_eq!(restore_action(Some(0)), RestoreAction::SetValue(0), "原本禁用的要写回 0，而不是删掉");
    assert_eq!(restore_action(Some(2)), RestoreAction::SetValue(2));
    assert_eq!(restore_action(None), RestoreAction::DeleteValue);
}
