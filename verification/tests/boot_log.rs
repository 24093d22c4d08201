use bootflow::diag::boot_log::{
    parse_event_xml, read_boot_events, unescape_xml, BootLogOutcome, EventData, QueryFailure,
};

const EVENT_103: &str = r#"<Event xmlns="http://schemas.microsoft.com/win/2004/08/events/event"><System><Provider Name="Microsoft-Windows-Diagnostics-Performance" Guid="{CFC18EC0-96B1-4EBA-961B-622CAEE05B0A}" /><EventID>103</EventID><Version>1</Version><Level>3</Level><Task>4002</Task><Opcode>33</Opcode><TimeCreated SystemTime="2026-03-17T18:15:25.9842765Z" /><EventRecordID>61</EventRecordID><Channel>Microsoft-Windows-Diagnostics-Performance/Operational</Channel><Computer>JD-WIN11</Computer><Security UserID="S-1-5-19" /></System><EventData><Data Name="StartTime">2026-03-17T18:13:15.4645682Z</Data><Data Name="NameLength">10</Data><Data Name="Name">windefend</Data><Data Name="FriendlyNameLength">0</Data><Data Name="FriendlyName"></Data><Data Name="VersionLength">0</Data><Data Name="Version"></Data><Data Name="TotalTime">326</Data><Data Name="DegradationTime">234</Data><Data Name="Path">c:\programdata\microsoft\windows defender\platform\msmpeng.exe</Data><Data Name="ProductName"></Data><Data Name="CompanyName"></Data></EventData></Event>"#;

const EVENT_100: &str = r#"<Event xmlns="http://schemas.microsoft.com/win/2004/08/events/event"><System><Provider Name="Microsoft-Windows-Diagnostics-Performance" /><EventID>100</EventID><Version>2</Version><Level>1</Level><TimeCreated SystemTime="2015-06-01T06:05:39.839684000Z" /><Channel>Microsoft-Windows-Diagnostics-Performance/Operational</Channel><Computer>malcolm-PC</Computer></System><EventData><Data Name="BootTsVersion">2</Data><Data Name="BootStartTime">2015-06-01T06:02:36.734000400Z</Data><Data Name="BootEndTime">2015-06-01T06:05:31.883670200Z</Data><Data Name="BootTime">165331</Data><Data Name="MainPathBootTime">151680</Data><Data Name="BootKernelInitTime">38</Data><Data Name="BootDriverInitTime">9668</Data><Data Name="BootDevicesInitTime">3335</Data><Data Name="BootSmssInitTime">21943</Data><Data Name="BootCriticalServicesInitTime">4171</Data><Data Name="BootUserProfileProcessingTime">4098</Data><Data Name="BootMachineProfileProcessingTime">2947</Data><Data Name="BootExplorerInitTime">104515</Data><Data Name="BootNumStartupApps">9</Data><Data Name="BootPostBootTime">13651</Data><Data Name="BootIsRebootAfterInstall">false</Data><Data Name="BootIsDegradation">false</Data><Data Name="OSLoaderDuration">3923</Data><Data Name="BootPNPInitStartTimeMS">38</Data><Data Name="BootPNPInitDuration">5968</Data><Data Name="OtherKernelInitDuration">1139</Data><Data Name="SystemPNPInitStartTimeMS">6925</Data><Data Name="SystemPNPInitDuration">7035</Data><Data Name="SessionInitStartTimeMS">14143</Data><Data Name="Session0InitDuration">1272</Data><Data Name="Session1InitDuration">1693</Data><Data Name="SessionInitOtherDuration">18978</Data><Data Name="WinLogonStartTimeMS">36087</Data><Data Name="OtherLogonInitActivityDuration">4030</Data><Data Name="UserLogonWaitDuration">9820</Data></EventData></Event>"#;

#[test]
fn parses_event_103_fields() {
    let ev = parse_event_xml(EVENT_103).expect("应能解析");
    assert_eq!(ev.event_id, 103);
    assert_eq!(ev.get("Name"), Some("windefend"));
    assert_eq!(ev.get_u64("TotalTime"), Some(326));
    assert_eq!(ev.get_u64("DegradationTime"), Some(234));
    assert_eq!(ev.computer.as_deref(), Some("JD-WIN11"));
    assert_eq!(ev.time_created.as_deref(), Some("2026-03-17T18:15:25.9842765Z"));
}

#[test]
fn empty_data_value_is_treated_as_absent() {
    let ev = parse_event_xml(EVENT_103).unwrap();
    assert!(ev.data.contains_key("FriendlyName"), "字段本身应被记录");
    assert_eq!(ev.get("FriendlyName"), None, "空值应视为没有");
}

#[test]
fn parses_event_100_phase_fields() {
    let ev = parse_event_xml(EVENT_100).expect("应能解析");
    assert_eq!(ev.event_id, 100);
    assert_eq!(ev.get_u64("BootTime"), Some(165331));
    assert_eq!(ev.get_u64("MainPathBootTime"), Some(151680));
    assert_eq!(ev.get_u64("BootPostBootTime"), Some(13651));
    assert_eq!(ev.get_u64("WinLogonStartTimeMS"), Some(36087));
    assert_eq!(ev.get_bool("BootIsDegradation"), Some(false));
}

#[test]
fn event_100_satisfies_known_identities() {
    let ev = parse_event_xml(EVENT_100).unwrap();

    let boot = ev.get_u64("BootTime").unwrap();
    let main = ev.get_u64("MainPathBootTime").unwrap();
    let post = ev.get_u64("BootPostBootTime").unwrap();

    assert_eq!(boot, main + post, "BootTime 必须等于 MainPathBootTime + BootPostBootTime");

    let anchors = [
        ev.get_u64("BootPNPInitStartTimeMS").unwrap(),
        ev.get_u64("SystemPNPInitStartTimeMS").unwrap(),
        ev.get_u64("SessionInitStartTimeMS").unwrap(),
        ev.get_u64("WinLogonStartTimeMS").unwrap(),
    ];
    for w in anchors.windows(2) {
        assert!(w[0] < w[1], "相位锚点应单调递增，实际 {anchors:?}");
    }
}

#[test]
fn xml_entities_are_unescaped() {
    let xml = r#"<Event><System><EventID>103</EventID></System><EventData><Data Name="Path">C:\Program Files\A &amp; B\a.exe</Data><Data Name="X">&lt;raw&gt;</Data></EventData></Event>"#;
    let ev = parse_event_xml(xml).unwrap();

    assert_eq!(ev.get("Path"), Some(r"C:\Program Files\A & B\a.exe"));
    assert_eq!(ev.get("X"), Some("<raw>"));
}

#[test]
fn amp_is_unescaped_last() {
    let xml = r#"<Event><System><EventID>1</EventID></System><EventData><Data Name="X">&amp;lt;</Data></EventData></Event>"#;
    let ev = parse_event_xml(xml).unwrap();
    assert_eq!(ev.get("X"), Some("&lt;"), "替换顺序错了会退化成 \"<\"");
}

#[test]
fn every_entity_is_restored() {
    let s: Vec<char> = "&quot;&apos;&#13;&#10;&#9;&gt;".chars().collect();
    let out: String = unescape_xml(&s).into_iter().collect();
    assert_eq!(out, "\"'\r\n\t>");
}

#[test]
fn self_closing_data_is_recorded_as_empty() {
    let xml = r#"<Event><System><EventID>100</EventID></System><EventData><Data Name="BootPrefetchBytes" /><Data Name="BootTime">100</Data></EventData></Event>"#;
    let ev = parse_event_xml(xml).unwrap();

    assert_eq!(ev.get_u64("BootTime"), Some(100), "自闭合字段不该吃掉后面的");
    assert_eq!(ev.get("BootPrefetchBytes"), None);
    assert!(ev.data.contains_key("BootPrefetchBytes"));
}

#[test]
fn missing_fields_do_not_crash_and_are_reported_as_absent() {
    let xml = r#"<Event><System><EventID>100</EventID></System><EventData><Data Name="BootTime">1000</Data></EventData></Event>"#;
    let ev = parse_event_xml(xml).unwrap();

    assert_eq!(ev.get_u64("BootTime"), Some(1000));
    assert_eq!(ev.get_u64("WinLogonStartTimeMS"), None);
    assert_eq!(ev.get("BootStartTime"), None);
}

#[test]
fn no_event_id_means_not_an_event() {
    assert!(parse_event_xml("<Event><System></System></Event>").is_none());
    assert!(parse_event_xml("").is_none());
    assert!(parse_event_xml("not xml at all").is_none());
}

#[test]
fn later_value_of_a_name_wins_and_remove_clears_it() {
    let mut d = EventData::new();
    d.insert("A".into(), "1".into());
    d.insert("A".into(), "2".into());
    assert_eq!(d.get("A").map(|s| s.as_str()), Some("2"));
    assert_eq!(d.remove("A").as_deref(), Some("2"));
    assert!(!d.contains_key("A"));
    assert!(d.remove("A").is_none());
}

#[test]
fn real_machine_read_reports_a_definite_state() {
    match read_boot_events(Err(QueryFailure::Unsupported)) {
        BootLogOutcome::Events(v) => {
            assert!(!v.is_empty(), "Events 分支不该是空列表");
        }
        BootLogOutcome::AccessDenied => {}
        BootLogOutcome::Unavailable(why) => {
            assert_eq!(why, "仅支持 Windows");
        }
    }
}

#[test]
fn query_answers_map_to_outcomes() {
    assert!(matches!(read_boot_events(Err(QueryFailure::AccessDenied)), BootLogOutcome::AccessDenied));
    match read_boot_events(Err(QueryFailure::Other("x".into()))) {
        BootLogOutcome::Unavailable(m) => assert_eq!(m, "无法读取系统性能日志：x"),
        _ => panic!("应为不可用"),
    }
    match read_boot_events(Ok(vec!["garbage".into()])) {
        BootLogOutcome::Unavailable(m) => assert_eq!(m, "这台电脑还没有记录过开机性能事件"),
        _ => panic!("没有可解析的事件应为不可用"),
    }
    let many: Vec<String> = (0..70).map(|_| EVENT_103.to_string()).collect();
    match read_boot_events(Ok(many)) {
        BootLogOutcome::Events(v) => assert_eq!(v.len(), 64),
        _ => panic!("应读到事件"),
    }
}
