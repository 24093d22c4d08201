use bootflow::diag::boot_marker::{
    default_basis, escape_xml, estimate_boot_start, is_marker_entry, keep_latest, merge_record,
    observed_entry, plan_autostart, run_entry_command, same_boot_session, same_session_instants,
    task_points_to, task_xml, AutostartPlan, BootRecordEntry, BootStart, BASIS_LOG, BASIS_TICK,
    MAX_RECORDS,
};

fn entry(started: &str, total_ms: u64) -> BootRecordEntry {
    BootRecordEntry {
        boot_started_at: started.to_string(),
        recorded_at: started.to_string(),
        total_ms,
        source: "marker".to_string(),
        basis: BASIS_LOG.to_string(),
    }
}

/// The history after a record is added, read back as it is kept.
fn append(all: Vec<BootRecordEntry>, e: BootRecordEntry) -> Vec<BootRecordEntry> {
    merge_record(keep_latest(all), e)
}

#[test]
fn different_sessions_are_kept_separately() {
    let all = append(Vec::new(), entry("2026-05-01T08:00:00+08:00", 2100));
    let got = append(all, entry("2026-05-02T09:30:00+08:00", 33000));
    assert_eq!(got.len(), 2);
    assert_eq!(got[0].total_ms, 2100, "按开机起点升序");
    assert_eq!(got[1].total_ms, 33000);
}

#[test]
fn same_session_keeps_earliest_observation() {
    let all = append(Vec::new(), entry("2026-05-01T08:00:00+08:00", 2100));
    let all = append(all, entry("2026-05-01T08:00:00+08:00", 302100));
    let got = append(all, entry("2026-05-01T08:00:00+08:00", 400_000));
    assert_eq!(got.len(), 1, "同一次开机只应保留一条");
    assert_eq!(got[0].total_ms, 2100, "保留最早的观测（最接近真实开机耗时）");
}

#[test]
fn tolerance_boundary_merges_drift_but_splits_real_reboots() {
    let all = append(Vec::new(), entry("2026-06-01T10:00:00+08:00", 5000));
    let all = append(all, entry("2026-06-01T10:01:00+08:00", 90_000));
    assert_eq!(all.len(), 1);
    let all = append(all, entry("2026-06-01T10:10:00+08:00", 7000));
    assert_eq!(all.len(), 2);
}

#[test]
fn unparsable_timestamp_never_merges() {
    let all = append(Vec::new(), entry("2026-06-01T10:00:00+08:00", 5000));
    let all = append(all, entry("not-a-date", 6000));
    assert_eq!(all.len(), 2);
}

#[test]
fn records_are_capped() {
    let base = chrono::DateTime::parse_from_rfc3339("2026-07-01T08:00:00+08:00").unwrap();
    let mut all: Vec<BootRecordEntry> = Vec::new();
    for i in 0..(MAX_RECORDS + 5) as i64 {
        let t = (base + chrono::Duration::hours(i * 2)).to_rfc3339();
        all = append(
            all,
            BootRecordEntry {
                boot_started_at: t.clone(),
                recorded_at: t,
                total_ms: (i as u64 + 1) * 100,
                source: "marker".to_string(),
                basis: BASIS_LOG.to_string(),
            },
        );
    }
    assert_eq!(all.len(), MAX_RECORDS, "超出上限时应滚掉最旧的");
    assert_eq!(all[0].total_ms, 600, "保留的是最近 N 条");
}

#[test]
fn later_observation_does_not_replace_an_earlier_one_and_order_uses_instants() {
    // The text order and the time order differ: 01:30 UTC against 00:00 UTC.
    let all = append(Vec::new(), entry("2026-05-01T08:30:00+07:00", 1000));
    let got = append(all, entry("2026-05-01T09:00:00+09:00", 2000));
    assert_eq!(got.len(), 2);
    assert_eq!(got[0].total_ms, 2000, "按时间点而不是按文本排序");
}

#[test]
fn session_tolerance_is_whole_seconds_toward_zero() {
    // 120.9 s apart: 120 whole seconds, one session.
    assert!(same_session_instants(Some((1_000, 900_000_000)), Some((880, 0))));
    // 121 s apart: two sessions.
    assert!(!same_session_instants(Some((1_121, 0)), Some((1_000, 0))));
    assert!(!same_session_instants(None, Some((1_000, 0))));
    let a = entry("2026-06-01T10:00:00+08:00", 1);
    let b = entry("2026-06-01T10:02:00+08:00", 1);
    let c = entry("2026-06-01T10:02:01+08:00", 1);
    assert!(same_boot_session(&a, &b));
    assert!(!same_boot_session(&a, &c));
}

#[test]
fn boot_start_prefers_tick_when_the_log_agrees() {
    // tick says the boot began at 1_000_000; the log says 5 s later.
    let s = estimate_boot_start(1_030_000, 30_000, Some(1_005_000));
    assert_eq!(s, BootStart { started_ms: 1_000_000, total_ms: 30_000, from_log: true });
    // fast startup: the tick count is days old, the log wins.
    let s = estimate_boot_start(1_000_000_000, 900_000_000, Some(999_990_000));
    assert_eq!(s, BootStart { started_ms: 999_990_000, total_ms: 10_000, from_log: true });
    // no log: the tick count, marked as an estimate.
    let s = estimate_boot_start(50_000, 20_000, None);
    assert_eq!(s, BootStart { started_ms: 30_000, total_ms: 20_000, from_log: false });
    // a log start in the future gives zero, never a negative total.
    let s = estimate_boot_start(50_000, 100_000_000, Some(60_000));
    assert_eq!(s.total_ms, 0);
}

#[test]
fn observed_entry_marks_its_basis() {
    let e = observed_entry("a".into(), "b".into(), BootStart { started_ms: 0, total_ms: 7, from_log: false });
    assert_eq!(e.basis, BASIS_TICK);
    assert_eq!(e.source, "marker");
    assert_eq!(e.total_ms, 7);
    assert_eq!(default_basis(), BASIS_TICK, "缺 basis 的旧记录按推算处理");
}

#[test]
fn task_xml_is_least_privilege_and_logon_triggered() {
    let xml = task_xml(r"C:\Program Files\BootFlow\bootflow.exe");
    assert!(
        xml.contains("<RunLevel>LeastPrivilege</RunLevel>"),
        "必须以最低权限运行，否则每次登录会弹 UAC"
    );
    assert!(!xml.contains("HighestAvailable"), "绝不能改成最高权限");
    assert!(xml.contains("<LogonTrigger>"), "必须是登录触发");
    assert!(xml.contains("<Arguments>--mark-boot</Arguments>"), "必须只跑记账分支，不能把主界面拉起来");
    assert!(xml.contains(r"<Command>C:\Program Files\BootFlow\bootflow.exe</Command>"));
    assert!(xml.contains("<DisallowStartIfOnBatteries>false</DisallowStartIfOnBatteries>"));
}

#[test]
fn task_xml_escapes_ampersand_in_path() {
    let xml = task_xml(r"C:\Tools\A & B\bootflow.exe");
    assert!(xml.contains("A &amp; B"), "路径里的 & 必须转义");
    assert!(!xml.contains("A & B"), "不允许出现未转义的 &");
    assert!(xml.contains(r"<URI>\BootFlowBootMarker</URI>"));
}

#[test]
fn escape_xml_does_not_double_escape() {
    assert_eq!(escape_xml("a&b"), "a&amp;b");
    assert_eq!(escape_xml("<a>"), "&lt;a&gt;");
    assert_eq!(escape_xml("\"q\"'"), "&quot;q&quot;&apos;");
}

#[test]
fn autostart_plan_never_picks_two_entry_points() {
    assert_eq!(plan_autostart(true, false), AutostartPlan::KeepTask);
    assert_eq!(plan_autostart(true, true), AutostartPlan::KeepTask);
    assert_eq!(plan_autostart(false, true), AutostartPlan::RegisterTask);
    assert_eq!(plan_autostart(false, false), AutostartPlan::WriteRunKey);
}

#[test]
fn run_value_quotes_the_path_and_only_marks() {
    assert_eq!(
        run_entry_command(r"C:\Program Files\BootFlow\bootflow.exe"),
        r#""C:\Program Files\BootFlow\bootflow.exe" --mark-boot"#
    );
    assert!(is_marker_entry(r#""C:\x.exe" --mark-boot"#));
    assert!(!is_marker_entry(r#""C:\other.exe""#));
    assert!(task_points_to("<Command>C:\\x.exe</Command>", "C:\\x.exe"));
    assert!(!task_points_to("<Command>C:\\y.exe</Command>", "C:\\x.exe"));
}
