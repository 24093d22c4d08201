use bootflow::diag::startup_info::{
    attr_of, capture, capture_file, classify_access_error, decode_bytes, level_of, parse_records,
    parse_secs_to_ms, parse_window_ms, pick_wdi_file, sid_of, window_overruns, AccessFailure,
    StartupInfoReport, WdiFile, HEAD_OVERRUN,
};
use bootflow::model::{ImpactLevel, ImpactOverview};

const SAMPLE: &str = r#"<?xml version="1.0" encoding="utf-8"?>
<StartupData IntervalStartMs="1000" IntervalEndMs="91000">
  <Process Name="C:\Windows\System32\SecurityHealthSystray.exe" PID="6208" StartedInTraceSec="48.500">
    <StartTime>2020/09/11:18:12:48.6685573</StartTime>
    <CommandLine><![CDATA["C:\Windows\System32\SecurityHealthSystray.exe" ]]></CommandLine>
    <DiskUsage Units="bytes">325120</DiskUsage>
    <CpuUsage Units="us">32024</CpuUsage>
    <ParentPID>6016</ParentPID>
    <ParentName>explorer.exe</ParentName>
  </Process>
  <Process Name="C:\Program Files\Acme\acmesync.exe" PID="7001" StartedInTraceSec="12.400">
    <CommandLine><![CDATA["C:\Program Files\Acme\acmesync.exe" --silent]]></CommandLine>
    <DiskUsage Units="bytes">8388608</DiskUsage>
    <CPUUsage Units="us">1402345</CPUUsage>
    <ParentPID>6016</ParentPID>
  </Process>
  <Process Name="C:\Windows\explorer.exe" PID="6016" StartedInTraceSec="3.100">
    <DiskUsage Units="bytes">1024</DiskUsage>
    <CpuUsage Units="us">50000</CpuUsage>
  </Process>
</StartupData>"#;

fn secs(s: &str) -> Option<u64> {
    let v: Vec<char> = s.chars().collect();
    parse_secs_to_ms(&v)
}

#[test]
fn parses_image_pid_and_start_offset() {
    let r = parse_records(SAMPLE);

    assert_eq!(r.len(), 3, "三个 Process 都要解析出来");

    assert_eq!(r[0].exe, "securityhealthsystray.exe");
    assert_eq!(r[0].image, r"C:\Windows\System32\SecurityHealthSystray.exe");
    assert_eq!(r[0].pid, 6208);
    assert_eq!(r[0].started_in_trace_ms, Some(48_500));
}

#[test]
fn cpu_microseconds_become_milliseconds() {
    let r = parse_records(SAMPLE);
    assert_eq!(r[0].cpu_ms, 32, "32024us = 32ms");
    assert_eq!(r[1].cpu_ms, 1402, "1402345us ≈ 1402ms");
}

#[test]
fn tolerates_cpu_usage_spelled_both_ways() {
    let r = parse_records(SAMPLE);
    assert!(r[0].cpu_ms > 0, "CpuUsage 写法没被认出来");
    assert!(r[1].cpu_ms > 0, "CPUUsage 写法没被认出来");
}

#[test]
fn parses_disk_usage_ignoring_units_attribute() {
    let r = parse_records(SAMPLE);
    assert_eq!(r[0].disk_bytes, 325_120);
    assert_eq!(r[1].disk_bytes, 8_388_608);
}

#[test]
fn cdata_command_line_does_not_break_the_next_field() {
    let r = parse_records(SAMPLE);
    assert_eq!(r[1].disk_bytes, 8_388_608);
    assert_eq!(r[1].pid, 7001);
}

#[test]
fn crlf_and_whitespace_between_nodes_are_fine() {
    let messy = SAMPLE.replace(">\n", ">\r\n").replace("<Process", "\n  <Process");
    assert_eq!(parse_records(&messy).len(), 3);
}

#[test]
fn missing_disk_usage_yields_zero_not_a_dropped_row() {
    let xml = r#"<StartupData>
        <Process Name="C:\a\a.exe" PID="10" StartedInTraceSec="1.0">
            <CpuUsage Units="us">1000</CpuUsage>
        </Process>
    </StartupData>"#;

    let r = parse_records(xml);
    assert_eq!(r.len(), 1);
    assert_eq!(r[0].disk_bytes, 0);
    assert_eq!(r[0].cpu_ms, 1);
}

#[test]
fn process_without_identity_is_skipped() {
    let xml = r#"<StartupData>
        <Process StartedInTraceSec="1.0"><CpuUsage Units="us">999999</CpuUsage></Process>
        <Process Name="C:\a\a.exe" PID="10"></Process>
    </StartupData>"#;

    let r = parse_records(xml);
    assert_eq!(r.len(), 1, "只有带全身份的才留下");
    assert_eq!(r[0].exe, "a.exe");
}

#[test]
fn truncated_last_process_is_not_half_parsed() {
    let xml = r#"<StartupData>
        <Process Name="C:\a\a.exe" PID="10" StartedInTraceSec="1.0">
            <CpuUsage Units="us">1000</CpuUsage>
        </Process>
        <Process Name="C:\b\b.exe" PID="11" StartedInTraceSec="2.0">
            <CpuUsage Units="us">2000</CpuUsage>
    </StartupData>"#;

    let r = parse_records(xml);
    assert_eq!(r.len(), 1, "截断的半条不能进结果");
    assert_eq!(r[0].exe, "a.exe");
}

#[test]
fn entities_in_image_are_restored_and_start_can_be_a_child() {
    let xml = r#"<StartupData><Process Name="C:\A &amp; B\x.exe" PID="5"><StartedInTraceSec>2.25</StartedInTraceSec><CpuTime>3000</CpuTime></Process></StartupData>"#;
    let r = parse_records(xml);
    assert_eq!(r[0].image, r"C:\A & B\x.exe");
    assert_eq!(r[0].started_in_trace_ms, Some(2250));
    assert_eq!(r[0].cpu_ms, 3);
}

#[test]
fn impact_levels_match_task_manager_thresholds() {
    assert_eq!(level_of(299, 300 * 1024 - 1), ImpactLevel::Low);
    assert_eq!(level_of(300, 0), ImpactLevel::Medium);
    assert_eq!(level_of(999, 0), ImpactLevel::Medium);
    assert_eq!(level_of(0, 300 * 1024), ImpactLevel::Medium);
    assert_eq!(level_of(0, 3 * 1024 * 1024), ImpactLevel::Medium);

    assert_eq!(level_of(1001, 0), ImpactLevel::High);
    assert_eq!(level_of(0, 3 * 1024 * 1024 + 1), ImpactLevel::High);
}

#[test]
fn level_uses_the_worse_of_the_two_axes() {
    assert_eq!(level_of(10, 50 * 1024 * 1024), ImpactLevel::High);
    assert_eq!(level_of(5000, 0), ImpactLevel::High);
}

#[test]
fn attr_lookup_respects_word_boundary() {
    let head = r#"<Process Name="a.exe" ParentPID="6016" StartedInTraceSec="1">"#;
    assert_eq!(attr_of(head, "PID"), None);
    assert_eq!(attr_of(head, "ParentPID").as_deref(), Some("6016"));

    let head2 = r#"<Process Name="a.exe" PID="42">"#;
    assert_eq!(attr_of(head2, "PID").as_deref(), Some("42"));
}

#[test]
fn attr_lookup_accepts_single_quotes() {
    let head = "<Process Name='a.exe' PID='7'>";
    assert_eq!(attr_of(head, "Name").as_deref(), Some("a.exe"));
    assert_eq!(attr_of(head, "PID").as_deref(), Some("7"));
}

#[test]
fn seconds_are_read_exactly() {
    assert_eq!(secs("48.500"), Some(48_500));
    assert_eq!(secs(" 3.1 "), Some(3_100));
    assert_eq!(secs("0.0005"), Some(1));
    assert_eq!(secs("0.0004"), Some(0));
    assert_eq!(secs("7"), Some(7_000));
    assert_eq!(secs(".5"), Some(500));
    assert_eq!(secs("-1"), None);
    assert_eq!(secs("abc"), None);
    assert_eq!(secs("."), None);
}

#[test]
fn window_comes_from_root_interval_attributes() {
    assert!(!window_overruns(SAMPLE));
    assert_eq!(parse_window_ms(SAMPLE), Some(90_000));
}

#[test]
fn window_is_none_when_attributes_absent_or_inverted() {
    assert_eq!(parse_window_ms("<StartupData></StartupData>"), None);
    assert_eq!(
        parse_window_ms(r#"<StartupData IntervalStartMs="900" IntervalEndMs="100">"#),
        None,
        "起点晚于终点说明字段含义不是我们以为的那样，宁可不给"
    );
}

#[test]
fn declaration_that_runs_off_the_end_is_detected() {
    assert!(window_overruns("<!x>"));
    assert!(!window_overruns("<!x>\n<a b='1'>"));
}

fn utf16le_with_bom(s: &str) -> Vec<u8> {
    let mut out = vec![0xFF, 0xFE];
    for u in s.encode_utf16() {
        out.extend_from_slice(&u.to_le_bytes());
    }
    out
}

#[test]
fn decodes_utf16le_which_is_what_wdi_writes() {
    let bytes = utf16le_with_bom(SAMPLE);
    assert!(!String::from_utf8_lossy(&bytes).contains("<Process"));

    let xml = decode_bytes(&bytes);
    assert!(xml.contains("<Process"));
    assert_eq!(parse_records(&xml).len(), 3);
}

#[test]
fn decodes_utf16be_as_well() {
    let mut bytes = vec![0xFE, 0xFF];
    for u in SAMPLE.encode_utf16() {
        bytes.extend_from_slice(&u.to_be_bytes());
    }
    assert_eq!(parse_records(&decode_bytes(&bytes)).len(), 3);
}

#[test]
fn decodes_plain_utf8_unchanged() {
    assert_eq!(decode_bytes(SAMPLE.as_bytes()), SAMPLE);
}

#[test]
fn decodes_bomless_utf16_by_nul_distribution() {
    let mut bytes = Vec::new();
    for u in SAMPLE.encode_utf16() {
        bytes.extend_from_slice(&u.to_le_bytes());
    }
    assert_eq!(parse_records(&decode_bytes(&bytes)).len(), 3);
}

#[test]
fn permission_denied_is_not_reported_as_missing() {
    let a = classify_access_error(&AccessFailure::PermissionDenied);
    let b = classify_access_error(&AccessFailure::NotFound);

    assert!(a.contains("管理员权限"), "无权限要引导提权：{a}");
    assert!(!b.contains("管理员权限"), "不存在不该说成没权限：{b}");
    assert_ne!(a, b, "两种情况必须给出不同的话");
}

#[test]
fn sid_comes_from_the_file_name() {
    assert_eq!(sid_of("S-1-5-21-1_StartupInfo3.xml").as_deref(), Some("S-1-5-21-1"));
    assert_eq!(sid_of("other_StartupInfo1.xml"), None);
    assert_eq!(sid_of("S-1-5.xml"), None);
}

#[test]
fn capture_reports_records_and_window() {
    let rep = capture(Ok(WdiFile {
        bytes: utf16le_with_bom(SAMPLE),
        source_sid: Some("S-1-5-21-1".into()),
        is_current_user: true,
        source_file: Some("S-1-5-21-1_StartupInfo1.xml".into()),
    }));
    assert!(rep.is_available());
    assert_eq!(rep.records.len(), 3);
    assert_eq!(rep.window_ms, Some(90_000));

    let overview = ImpactOverview::from_report(&rep);
    assert_eq!(overview.record_count, 3);
    assert!(overview.unavailable_reason.is_none());
}

#[test]
fn empty_file_is_not_an_empty_success() {
    let rep = capture(Ok(WdiFile {
        bytes: b"<StartupData></StartupData>".to_vec(),
        source_sid: None,
        is_current_user: false,
        source_file: None,
    }));
    assert!(!rep.is_available());
    assert!(rep.unavailable_reason.unwrap().contains("没有任何可解析的进程记录"));

    let none = capture(Err("此功能依赖 Windows 诊断基础架构（WDI）。".into()));
    assert!(!none.is_available());
    let overview = ImpactOverview::from_report(&StartupInfoReport::unavailable("读不到".into()));
    assert_eq!(overview.unavailable_reason.as_deref(), Some("读不到"));
}

fn wdi_files(list: &[(&str, u64)]) -> Vec<(String, u64)> {
    list.iter().map(|(n, t)| (n.to_string(), *t)).collect()
}

#[test]
fn own_newest_file_is_chosen_over_a_newer_foreign_one() {
    let me = "S-1-5-21-1-2-3-1001";
    let files = wdi_files(&[
        ("S-1-5-21-1-2-3-1001_StartupInfo1.xml", 100),
        ("S-1-5-21-9-9-9-1002_StartupInfo1.xml", 900),
        ("S-1-5-21-1-2-3-1001_StartupInfo2.xml", 300),
        ("S-1-5-21-1-2-3-1001_StartupInfo3.xml", 200),
    ]);
    assert_eq!(pick_wdi_file(&files, &Some(me.to_string())), Some((2, true)), "按时间取最新，不按文件名");
}

#[test]
fn without_own_file_the_newest_overall_is_marked_foreign() {
    let files = wdi_files(&[
        ("S-1-5-21-9-9-9-1002_StartupInfo1.xml", 500),
        ("S-1-5-21-8-8-8-1003_StartupInfo1.xml", 700),
    ]);
    assert_eq!(pick_wdi_file(&files, &Some("S-1-5-21-1-2-3-1001".to_string())), Some((1, false)));
    assert_eq!(pick_wdi_file(&files, &None), Some((1, false)));
    assert_eq!(pick_wdi_file(&vec![], &None), None);
}

#[test]
fn text_reads_back_in_each_encoding() {
    let s = "启动项 ✓ 😀 <Process Name=\"a.exe\"/>";
    let mut le = vec![0xFF, 0xFE];
    let mut be = vec![0xFE, 0xFF];
    for u in s.encode_utf16() {
        le.extend_from_slice(&u.to_le_bytes());
        be.extend_from_slice(&u.to_be_bytes());
    }
    assert_eq!(decode_bytes(&le), s);
    assert_eq!(decode_bytes(&be), s);
    assert_eq!(decode_bytes(s.as_bytes()), s);
}

#[test]
fn capture_file_reads_any_content() {
    let rep = capture_file(Ok(WdiFile {
        bytes: utf16le_with_bom(SAMPLE),
        source_sid: Some("S-1-5-21-1".into()),
        is_current_user: true,
        source_file: Some("S-1-5-21-1_StartupInfo1.xml".into()),
    }));
    assert_eq!(rep.records.len(), 3);
    assert_eq!(rep.window_ms, Some(90_000));
    assert!(rep.is_current_user);

    let broken = capture_file(Ok(WdiFile {
        bytes: b"<!x>".to_vec(),
        source_sid: None,
        is_current_user: false,
        source_file: None,
    }));
    assert!(broken.unavailable_reason.unwrap().contains("没有任何可解析的进程记录"));
    assert!(!capture_file(Err("读不到".into())).is_available());
    assert!(!HEAD_OVERRUN.is_empty());
}
