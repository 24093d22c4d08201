use bootflow::diag::proc_snapshot::{no_boot_start, snapshot_of, ProcSnapshot};
use bootflow::model::{BootTimeline, ImpactOverview};
use bootflow::scanners::scan_result;
use bootflow::model::{BootPhase, Scope, SourceDetail, SourceKind, StartupItem};
use bootflow::scanners::builder::{FileMeta, ItemBuilder};
use bootflow::scanners::startup_folder::folder_item;
use bootflow::scanners::{
    fallback_os, gather_sources, items_of_source, join_errors, registry_outcome, source_outcome, task_scan_outcome,
};

fn one(source: SourceKind, name: &str) -> StartupItem {
    ItemBuilder::new(source, name.to_string()).build(FileMeta::unknown())
}

#[test]
fn shortcut_in_the_user_folder_becomes_an_item() {
    let it = folder_item(
        SourceKind::StartupFolderUser,
        r"C:\Users\a\AppData\Roaming\Microsoft\Windows\Start Menu\Programs\Startup",
        r"C:\Users\a\AppData\Roaming\Microsoft\Windows\Start Menu\Programs\Startup\Acme Sync.lnk",
        "Acme Sync.lnk",
        Some((r"C:\Program Files\Acme\sync.exe".to_string(), vec!["--tray".to_string(), "-q".to_string()])),
        true,
        FileMeta::unknown(),
    );
    assert_eq!(it.source, SourceKind::StartupFolderUser);
    assert_eq!(it.name, "Acme Sync");
    assert_eq!(it.scope, Scope::User);
    assert_eq!(it.command, r#""C:\Program Files\Acme\sync.exe" --tray -q"#);
    assert_eq!(it.resolved_path, r"C:\Program Files\Acme\sync.exe", "快捷方式必须带着解析出的目标");
    assert_eq!(it.args, vec!["--tray".to_string(), "-q".to_string()]);
    assert_eq!(it.boot_phase, BootPhase::Logon);
    assert!(it.enabled);
}

#[test]
fn plain_file_in_the_machine_folder_starts_itself() {
    let it = folder_item(
        SourceKind::StartupFolderMachine,
        r"C:\ProgramData\Microsoft\Windows\Start Menu\Programs\Startup",
        r"C:\ProgramData\Microsoft\Windows\Start Menu\Programs\Startup\tool.bat",
        "tool.bat",
        None,
        false,
        FileMeta::unknown(),
    );
    assert_eq!(it.name, "tool");
    assert_eq!(it.scope, Scope::Machine);
    assert_eq!(it.command, r"C:\ProgramData\Microsoft\Windows\Start Menu\Programs\Startup\tool.bat");
    assert_eq!(it.resolved_path, it.command);
    assert!(it.args.is_empty());
    assert!(!it.enabled);
}

#[test]
fn a_failed_source_does_not_stop_the_others() {
    let results = vec![
        Ok(vec![one(SourceKind::StartupFolderUser, "a")]),
        Err("拒绝访问".to_string()),
        Ok(vec![]),
        Ok(vec![one(SourceKind::Service, "s"), one(SourceKind::Service, "t")]),
        Err("COM 初始化失败".to_string()),
    ];
    let (items, errors) = gather_sources(results);
    assert_eq!(items.iter().map(|i| i.name.as_str()).collect::<Vec<_>>(), vec!["a", "s", "t"]);
    assert_eq!(errors, vec!["注册表启动项：拒绝访问".to_string(), "系统注入：COM 初始化失败".to_string()]);
}

#[test]
fn a_source_fails_only_when_nothing_was_read() {
    let errs = vec!["一".to_string(), "二".to_string()];
    assert_eq!(join_errors(&errs), "一；二");
    assert_eq!(source_outcome(vec![], &errs).unwrap_err(), "一；二");
    let kept = source_outcome(vec![one(SourceKind::RunUser, "x")], &errs).unwrap();
    assert_eq!(kept.len(), 1);
    assert!(source_outcome(vec![], &vec![]).unwrap().is_empty());
    assert_eq!(registry_outcome(vec![], 0, &errs).unwrap_err(), "一；二");
    assert!(registry_outcome(vec![], 1, &errs).unwrap().is_empty(), "读到了键、只是没有值，不算失败");
}

#[test]
fn items_are_picked_by_source() {
    let all = vec![one(SourceKind::RunUser, "a"), one(SourceKind::Service, "b"), one(SourceKind::RunUser, "c")];
    let run = items_of_source(all, SourceKind::RunUser);
    assert_eq!(run.iter().map(|i| i.name.as_str()).collect::<Vec<_>>(), vec!["a", "c"]);
}

#[test]
fn unknown_system_falls_back_to_windows_ten() {
    let os = fallback_os();
    assert_eq!((os.major, os.minor, os.build), (10, 0, 0));
    assert_eq!(os.sku, "Windows");
}

#[test]
fn all_tasks_denied_is_an_error_not_an_empty_list() {
    assert_eq!(
        task_scan_outcome(vec![], 12, 12).unwrap_err(),
        "12 个计划任务全部因权限不足未能读取，请以管理员身份重试"
    );
    assert!(task_scan_outcome(vec![], 12, 11).unwrap().is_empty(), "有任务读到了只是没有开机触发器");
    assert!(task_scan_outcome(vec![], 0, 0).unwrap().is_empty());
    assert_eq!(task_scan_outcome(vec![one(SourceKind::ScheduledTask, "t")], 3, 3).unwrap().len(), 1);
}

#[test]
fn scan_result_carries_the_sample_summary() {
    let procs = vec![
        ProcSnapshot { name: "a.exe".into(), start_offset_ms: 100, read_bytes: 1, cpu_ms: 1 },
        ProcSnapshot { name: "b.exe".into(), start_offset_ms: 200, read_bytes: 1, cpu_ms: 1 },
    ];
    let snap = snapshot_of(30_000, procs);
    let r = scan_result(
        vec![one(SourceKind::RunUser, "x")],
        fallback_os(),
        true,
        "2026-01-01T00:00:00+08:00".into(),
        BootTimeline::default(),
        &snap,
        1,
        ImpactOverview::default(),
        vec!["服务：拒绝访问".into()],
    );
    assert_eq!(r.items.len(), 1);
    assert!(r.elevated);
    assert_eq!(r.scanned_at, "2026-01-01T00:00:00+08:00");
    assert_eq!(r.observation.captured_at_offset_ms, Some(30_000));
    assert_eq!(r.observation.process_count, 2);
    assert_eq!(r.observation.observed_count, 1);
    assert_eq!(r.observation.unavailable_reason, None);
    assert_eq!(r.errors, vec!["服务：拒绝访问".to_string()]);

    let none = no_boot_start();
    let r = scan_result(vec![], fallback_os(), false, String::new(), BootTimeline::default(), &none, 0, ImpactOverview::default(), vec![]);
    assert_eq!(r.observation.captured_at_offset_ms, None);
    assert_eq!(r.observation.process_count, 0);
    assert!(r.observation.unavailable_reason.unwrap().contains("开机的起点"));
}

#[test]
fn folder_item_keeps_the_file_it_came_from() {
    let it = folder_item(
        SourceKind::StartupFolderMachine,
        r"C:\ProgramData\Microsoft\Windows\Start Menu\Programs\StartUp",
        r"C:\ProgramData\Microsoft\Windows\Start Menu\Programs\StartUp\tool.exe",
        "tool.exe",
        None,
        true,
        FileMeta::unknown(),
    );
    match &it.raw.detail {
        SourceDetail::StartupFile { file_name, file_path } => {
            assert_eq!(file_name, "tool.exe");
            assert_eq!(file_path, r"C:\ProgramData\Microsoft\Windows\Start Menu\Programs\StartUp\tool.exe");
        }
        d => panic!("unexpected {d:?}"),
    }
}
