use bootflow::model::{NameSource, RiskLevel, Scope, SourceKind};
use bootflow::scanners::builder::{displayable_name, is_ignored_file_name, FileMeta, ItemBuilder};
use bootflow::scanners::registry::{is_run_once, keys};
use bootflow::scanners::scheduled_task::{
    bare_name, normalize_target, unquote_target,
    is_host_program, is_windows_component_task, parse_iso_duration_sec, scope_of,
};
use bootflow::diag::codes;
use bootflow::model::{ItemKind, SourceDetail};
use bootflow::scanners::system_hooks::{
    build_appinit_item, build_ifeo_debugger_item, build_ifeo_priority_item, long_path_of, needs_long_name, AppInitEntry,
};

#[test]
fn ignored_files_are_skipped() {
    assert!(is_ignored_file_name("desktop.ini"));
    assert!(is_ignored_file_name("Desktop.INI"));
    assert!(is_ignored_file_name("Thumbs.db"));
    assert!(is_ignored_file_name(".hidden"));
    assert!(!is_ignored_file_name("Corsair iCUE.lnk"));
}

#[test]
fn displayable_name_strips_extension() {
    assert_eq!(displayable_name("Steam.lnk"), "Steam");
    assert_eq!(displayable_name("noext"), "noext");
    assert_eq!(displayable_name(".gitkeep"), ".gitkeep");
    assert_eq!(displayable_name("a.b.exe"), "a.b");
}

#[test]
fn builder_defaults_are_sane() {
    let mut b = ItemBuilder::new(SourceKind::RunUser, "X".into());
    b.resolved_path = r"D:\__bootflow_missing__\x.exe".into();
    let it = b.build(FileMeta::unknown());
    assert!(!it.signer.is_signed);
    assert_eq!(it.risk, RiskLevel::Safe);
    assert!(it.icon_data.is_none());
    assert_eq!(it.scope, Scope::User);
}

#[test]
fn explicit_display_name_wins_over_version_info() {
    let mut b = ItemBuilder::new(SourceKind::Service, "LocalSend Helper".into());
    b.set_display_name("LocalSend 助手服务".into(), NameSource::ServiceDisplayName);
    let meta = FileMeta {
        display_name: Some("from version info".into()),
        name_from: Some(NameSource::FileDescription),
        ..FileMeta::unknown()
    };
    let it = b.build(meta);
    assert_eq!(it.display_name.as_deref(), Some("LocalSend 助手服务"));
    assert_eq!(it.name_from, Some(NameSource::ServiceDisplayName));
}

#[test]
fn blank_display_name_is_ignored_and_os_component_can_be_forced() {
    let mut b = ItemBuilder::new(SourceKind::ScheduledTask, "t".into());
    b.set_display_name("   ".into(), NameSource::TaskDescription);
    assert!(b.display_name.is_none());
    b.force_os_component = true;
    let it = b.build(FileMeta::unknown());
    assert!(it.signer.is_os_component);
    assert_eq!(it.kind, bootflow::model::ItemKind::System);
}

#[test]
fn machine_sources_default_to_machine_scope() {
    let a = ItemBuilder::new(SourceKind::StartupFolderMachine, "a".into()).build(FileMeta::unknown());
    let b = ItemBuilder::new(SourceKind::StartupFolderUser, "b".into()).build(FileMeta::unknown());
    assert_eq!(a.scope, Scope::Machine);
    assert_eq!(b.scope, Scope::User);
}

#[test]
fn key_table_covers_all_six_run_sources() {
    let keys = keys();
    for want in [
        SourceKind::RunUser,
        SourceKind::RunOnceUser,
        SourceKind::RunMachine,
        SourceKind::RunMachine32,
        SourceKind::RunOnceMachine,
        SourceKind::RunOnceMachine32,
    ] {
        assert!(keys.iter().any(|k| k.source == want), "键位置表缺少 {want:?} 的扫描位置");
    }
}

#[test]
fn key_table_has_no_duplicate_locations() {
    let mut seen = std::collections::HashSet::new();
    for k in keys() {
        let id = format!("{}{}{}", k.machine, k.path, k.view.label());
        assert!(seen.insert(id), "位置表里有重复项：{}", k.display);
    }
}

#[test]
fn every_spec_display_starts_with_its_hive() {
    for k in keys() {
        let want = if k.machine { "HKLM\\" } else { "HKCU\\" };
        assert!(k.display.starts_with(want), "{} 的前缀应是 {want}", k.display);
    }
}

#[test]
fn run_once_sources_are_recognised() {
    assert!(is_run_once(SourceKind::RunOnceUser));
    assert!(is_run_once(SourceKind::RunOnceMachine));
    assert!(is_run_once(SourceKind::RunOnceMachine32));
    assert!(!is_run_once(SourceKind::RunUser));
    assert!(!is_run_once(SourceKind::RunMachine));
    assert!(!is_run_once(SourceKind::RunMachine32));
}

fn entry(load: Option<u32>) -> AppInitEntry {
    AppInitEntry { dll: r"C:\PROGRA~1\VIRTUA~2\VIRTUA~4.DLL".into(), load_enabled: load, is_32bit: false }
}

#[test]
fn appinit_with_switch_off_is_not_active() {
    assert!(!entry(Some(0)).is_active());
}

#[test]
fn missing_load_value_defaults_to_inactive() {
    assert!(!entry(None).is_active());
}

#[test]
fn appinit_switch_on_is_active() {
    assert!(entry(Some(1)).is_active());
}

#[test]
fn iso_duration_parsing_covers_task_scheduler_forms() {
    assert_eq!(parse_iso_duration_sec("PT30S"), Some(30));
    assert_eq!(parse_iso_duration_sec("PT1M"), Some(60));
    assert_eq!(parse_iso_duration_sec("PT1M30S"), Some(90));
    assert_eq!(parse_iso_duration_sec("PT2H"), Some(7_200));
    assert_eq!(parse_iso_duration_sec("P1DT2H"), Some(93_600));
    assert_eq!(parse_iso_duration_sec("PT0S"), Some(0));
}

#[test]
fn unknown_duration_is_not_guessed() {
    assert_eq!(parse_iso_duration_sec("P1M"), None);
    assert_eq!(parse_iso_duration_sec("30S"), None);
    assert_eq!(parse_iso_duration_sec(""), None);
    assert_eq!(parse_iso_duration_sec("nonsense"), None);
    assert_eq!(parse_iso_duration_sec("PT"), None, "没有任何分量");
    assert_eq!(parse_iso_duration_sec("PT30"), None, "数字后面没有单位");
    assert_eq!(parse_iso_duration_sec("P"), None);
    assert_eq!(parse_iso_duration_sec("PT1M30"), None);
    assert_eq!(parse_iso_duration_sec("PT99999999999999999999S"), None);
}

#[test]
fn host_programs_are_detected_by_filename() {
    assert!(is_host_program(r"C:\Windows\System32\cmd.exe"));
    assert!(is_host_program("powershell.exe"));
    assert!(is_host_program(r"C:\Windows\System32\WindowsPowerShell\v1.0\powershell.exe"));
    assert!(is_host_program(r"C:\Windows\System32\RUNDLL32.EXE"));
    assert!(!is_host_program(r"C:\Program Files\App\app.exe"));
}

#[test]
fn windows_component_prefix_is_recognised_case_insensitively() {
    assert!(is_windows_component_task(r"\Microsoft\Windows\Wininet\CacheTask"));
    assert!(is_windows_component_task(r"\microsoft\windows\UpdateOrchestrator\Reboot"));
    assert!(!is_windows_component_task(r"\Microsoft\Office\Office Feature Updates Logon"));
    assert!(!is_windows_component_task(r"\PowerToys\Autorun for <username>"));
    assert!(!is_windows_component_task(r"\Clash Verge"));
    assert!(!is_windows_component_task(r"\Microsoft"));
}

#[test]
fn scope_follows_the_running_account() {
    assert_eq!(scope_of("SYSTEM"), Scope::Machine);
    assert_eq!(scope_of("NT AUTHORITY\\SYSTEM"), Scope::Machine);
    assert_eq!(scope_of("S-1-5-18"), Scope::Machine);
    assert_eq!(scope_of("LOCAL SERVICE"), Scope::Machine);
    assert_eq!(scope_of("Network Service"), Scope::Machine);
    assert_eq!(scope_of("DESKTOP-1\\alice"), Scope::User);
    assert_eq!(scope_of("alice@example.com"), Scope::User);
    assert_eq!(scope_of(""), Scope::User);
}

fn appinit_item(e: &AppInitEntry) -> Option<bootflow::model::StartupItem> {
    let shown = long_path_of(&e.dll, None);
    build_appinit_item(e, shown, FileMeta::unknown())
}

#[test]
fn inactive_appinit_reports_safe_not_high() {
    let item = appinit_item(&entry(Some(0))).unwrap();
    let d = &item.diagnostics[0];
    assert_eq!(d.code, codes::HOOK_NOT_ACTIVE);
    assert_eq!(d.severity, RiskLevel::Safe, "未生效的注入不该报成高危");
    assert!(d.evidence.as_deref().unwrap().contains("LoadAppInit_DLLs = 0"));
    assert!(!item.enabled);
}

#[test]
fn active_appinit_reports_high_with_human_wording() {
    let item = appinit_item(&entry(Some(1))).unwrap();
    let d = &item.diagnostics[0];
    assert_eq!(d.code, codes::GLOBAL_HOOK);
    assert_eq!(d.severity, RiskLevel::High);
    assert!(item.enabled);
    assert!(d.message.contains("影响范围"));
    for term in ["病毒", "恶意软件", "感染"] {
        assert!(!d.message.contains(term), "不该出现 {term} 这类断言");
    }
}

#[test]
fn appinit_items_are_hooks_not_apps() {
    let item = appinit_item(&entry(Some(1))).unwrap();
    assert_eq!(item.source, SourceKind::SystemHook);
    assert_eq!(item.kind, ItemKind::Hook, "注入项必须归类为「系统注入」，而不是普通应用");
}

#[test]
fn short_path_expansion_keeps_missing_paths_verbatim() {
    let ghost = r"C:\__bootflow_not_here__\X~1.DLL";
    assert!(needs_long_name(ghost));
    assert_eq!(long_path_of(ghost, None), ghost);
    assert!(!needs_long_name(r"C:\Windows\a.dll"));
    assert_eq!(long_path_of(r"C:\Windows\a.dll", None), r"C:\Windows\a.dll");
}

#[test]
fn resolved_short_path_loses_its_prefix() {
    let long = long_path_of(r"C:\PROGRA~1\a.dll", Some(r"\\?\C:\Program Files\a.dll".to_string()));
    assert_eq!(long, r"C:\Program Files\a.dll");
    assert_eq!(long_path_of(r"C:\Windows\a.dll", Some("other".to_string())), r"C:\Windows\a.dll");
}

#[test]
fn ifeo_rewrites_are_hooks() {
    let dbg = build_ifeo_debugger_item("notepad.exe", r"C:\x\dbg.exe -a", r"C:\x\dbg.exe".to_string(), vec!["-a".to_string()], FileMeta::unknown());
    assert_eq!(dbg.source, SourceKind::SystemHook);
    assert_eq!(dbg.kind, ItemKind::Hook);
    assert!(build_ifeo_priority_item("game.exe", None, None, None, FileMeta::unknown()).is_none());
    let pri = build_ifeo_priority_item("game.exe", Some(3), None, None, FileMeta::unknown()).unwrap();
    assert_eq!(pri.source, SourceKind::SystemHook);
}

#[test]
fn missing_target_keeps_its_original_form() {
    let got = normalize_target(r"D:\__bootflow_missing__\x.exe", None);
    assert_eq!(got, r"D:\__bootflow_missing__\x.exe");
}

#[test]
fn quotes_and_blanks_around_a_target_are_removed() {
    assert_eq!(unquote_target(r#"  "C:\Windows\System32\notepad.exe"  "#), r"C:\Windows\System32\notepad.exe");
    assert_eq!(normalize_target(r#""C:\Windows\System32\notepad.exe""#, Some("ignored".into())), r"C:\Windows\System32\notepad.exe");
}

#[test]
fn bare_name_is_completed_only_when_found() {
    assert!(bare_name("rundll32.exe"));
    assert!(!bare_name(r"C:\a.exe"));
    assert!(!bare_name("x/a.exe"));
    assert!(!bare_name(""));
    assert_eq!(normalize_target("rundll32.exe", Some(r"C:\Windows\System32\rundll32.exe".into())), r"C:\Windows\System32\rundll32.exe");
    assert_eq!(normalize_target("rundll32.exe", None), "rundll32.exe");
    assert_eq!(normalize_target("  \"\"  ", Some("x".into())), "");
}

#[test]
fn appinit_item_keeps_the_entry() {
    let mut e = entry(None);
    e.is_32bit = true;
    let item = appinit_item(&e).unwrap();
    match &item.raw.detail {
        SourceDetail::AppInit { dll, load_enabled, is_32bit } => {
            assert_eq!(dll, r"C:\PROGRA~1\VIRTUA~2\VIRTUA~4.DLL");
            assert_eq!(*load_enabled, None);
            assert!(*is_32bit);
        }
        d => panic!("unexpected {d:?}"),
    }
}

#[test]
fn ifeo_items_keep_what_was_set() {
    let dbg = build_ifeo_debugger_item("notepad.exe", r"C:\x\dbg.exe -a", r"C:\x\dbg.exe".to_string(), vec!["-a".to_string()], FileMeta::unknown());
    match &dbg.raw.detail {
        SourceDetail::IfeoDebugger { target_exe, debugger } => {
            assert_eq!(target_exe, "notepad.exe");
            assert_eq!(debugger, r"C:\x\dbg.exe -a");
        }
        d => panic!("unexpected {d:?}"),
    }
    let pri = build_ifeo_priority_item("game.exe", Some(3), None, Some(5), FileMeta::unknown()).unwrap();
    match &pri.raw.detail {
        SourceDetail::IfeoPriority { target_exe, cpu, io, page } => {
            assert_eq!(target_exe, "game.exe");
            assert_eq!((*cpu, *io, *page), (Some(3), None, Some(5)));
        }
        d => panic!("unexpected {d:?}"),
    }
}
