use bootflow::diag::codes;
use bootflow::model::{BootPhase, ItemKind, NameSource, Scope, SourceDetail, SourceKind, StartupItem, ValidityStatus};
use bootflow::scanners::builder::FileMeta;
use bootflow::scanners::scheduled_task::{
    task_item, ExecAction, TaskFacts, TriggerFacts, TriggerKind, TASK_OFF_TEXT, TRIGGER_OFF_TEXT,
};

fn trig(kind: TriggerKind, enabled: bool) -> TriggerFacts {
    TriggerFacts { kind, enabled }
}

fn act(path: &str, args: &str) -> ExecAction {
    ExecAction { path: path.into(), arguments: args.into() }
}

fn facts(full_path: &str, triggers: Vec<TriggerFacts>, actions: Vec<ExecAction>, task_enabled: bool) -> TaskFacts {
    let name = full_path.rsplit('\\').next().unwrap_or(full_path).to_string();
    TaskFacts {
        full_path: full_path.into(),
        name,
        triggers,
        actions,
        task_enabled,
        user_id: "S-1-5-21-1-2-3-1001".into(),
        first_args: vec![],
    }
}

fn item(f: TaskFacts) -> StartupItem {
    task_item(f, FileMeta::unknown()).expect("有开机/登录触发器的任务应被收进来")
}

fn codes_of(it: &StartupItem) -> Vec<&str> {
    it.diagnostics.iter().map(|d| d.code.as_str()).collect()
}

#[test]
fn task_without_boot_or_logon_trigger_is_not_an_item() {
    let f = facts(r"\Acme\Daily", vec![trig(TriggerKind::Other, true)], vec![act(r"C:\a\a.exe", "")], true);
    assert!(task_item(f, FileMeta::unknown()).is_none());
    let none = facts(r"\Acme\Never", vec![], vec![act(r"C:\a\a.exe", "")], true);
    assert!(task_item(none, FileMeta::unknown()).is_none());
}

#[test]
fn logon_task_is_collected_as_it_was_read() {
    let mut f = facts(r"\Acme\Sync", vec![trig(TriggerKind::Logon, true)], vec![act(r"C:\Acme\sync.exe", "--quiet")], true);
    f.first_args = vec!["--quiet".into()];
    let it = item(f);
    assert_eq!(it.source, SourceKind::ScheduledTask);
    assert_eq!(it.name, "Sync");
    assert_eq!(it.location, r"\Acme\Sync");
    assert_eq!(it.command, r"C:\Acme\sync.exe --quiet");
    assert_eq!(it.resolved_path, r"C:\Acme\sync.exe");
    assert_eq!(it.args, vec!["--quiet".to_string()]);
    assert!(it.enabled);
    assert_eq!(it.boot_phase, BootPhase::Logon);
    assert_eq!(it.scope, Scope::User);
    assert_eq!(it.raw.task_enabled, Some(true));
    assert_eq!(it.raw.trigger_enabled, Some(true));
    assert!(it.diagnostics.is_empty());
}

#[test]
fn boot_trigger_places_the_task_in_the_earlier_phase() {
    let f = facts(
        r"\Acme\Boot",
        vec![trig(TriggerKind::Logon, true), trig(TriggerKind::Boot, true)],
        vec![act(r"C:\a\a.exe", "")],
        true,
    );
    assert_eq!(item(f).boot_phase, BootPhase::Smss);
}

#[test]
fn disabled_trigger_is_not_a_disabled_task() {
    let f = facts(r"\Acme\Sync", vec![trig(TriggerKind::Logon, false)], vec![act(r"C:\a\a.exe", "")], true);
    let it = item(f);
    assert!(!it.enabled);
    assert_eq!(it.raw.trigger_enabled, Some(false));
    assert_eq!(codes_of(&it), vec![codes::TASK_TRIGGER_DISABLED]);
    assert_eq!(it.diagnostics[0].message, TRIGGER_OFF_TEXT);
    assert_ne!(it.validity, ValidityStatus::DisabledRemnant, "禁用任务不是「残余记录」");
}

#[test]
fn disabled_task_says_so() {
    let f = facts(r"\Acme\Sync", vec![trig(TriggerKind::Logon, true)], vec![act(r"C:\a\a.exe", "")], false);
    let it = item(f);
    assert!(!it.enabled);
    assert_eq!(codes_of(&it), vec![codes::TASK_DISABLED]);
    assert_eq!(it.diagnostics[0].message, TASK_OFF_TEXT);
}

#[test]
fn windows_task_is_a_system_component_and_stays_quiet_when_off() {
    let f = facts(
        r"\Microsoft\Windows\Defrag\ScheduledDefrag",
        vec![trig(TriggerKind::Boot, true)],
        vec![],
        false,
    );
    let it = item(f);
    assert_eq!(it.kind, ItemKind::System, "Windows 自带任务应归为系统组件");
    assert!(it.signer.is_os_component);
    assert!(it.diagnostics.is_empty(), "系统自带任务的禁用状态不该产生诊断");
}

#[test]
fn office_task_is_an_application_and_its_switch_is_explained() {
    let f = facts(
        r"\Microsoft\Office\Office Feature Updates Logon",
        vec![trig(TriggerKind::Logon, true)],
        vec![act(r"C:\Program Files\Common Files\Microsoft Shared\ClickToRun\sdxhelper.exe", "")],
        false,
    );
    let it = item(f);
    assert_ne!(it.kind, ItemKind::System, "Office 的任务不是 Windows 组件");
    assert_eq!(codes_of(&it), vec![codes::OFFICE_TASKS_DISABLED]);
    assert!(it.diagnostics[0].message.contains("登录后补齐 Office 功能更新"));
    assert_eq!(
        it.diagnostics[0].evidence.as_deref(),
        Some(r"任务 \Microsoft\Office\Office Feature Updates Logon：任务本身 Enabled=false")
    );
}

#[test]
fn task_with_several_programs_says_how_many_more() {
    let f = facts(
        r"\Acme\Multi",
        vec![trig(TriggerKind::Logon, true)],
        vec![act(r"C:\a\a.exe", ""), act(r"C:\a\b.exe", ""), act(r"C:\a\c.exe", "")],
        true,
    );
    let it = item(f);
    assert_eq!(codes_of(&it), vec![codes::MULTI_ACTION_TASK]);
    assert!(it.diagnostics[0].message.contains(" 2 个程序"));
    assert_eq!(it.diagnostics[0].evidence.as_deref(), Some(r"C:\a\b.exe；C:\a\c.exe"));
}

#[test]
fn host_program_or_no_program_shows_the_task_name() {
    let f = facts(r"\Acme\Cleanup", vec![trig(TriggerKind::Logon, true)], vec![act(r"C:\Windows\System32\cmd.exe", "/c x")], true);
    let it = item(f);
    assert_eq!(it.display_name.as_deref(), Some("Cleanup"));
    assert_eq!(it.name_from, Some(NameSource::TaskDescription));
    let com = facts(r"\Acme\Com", vec![trig(TriggerKind::Logon, true)], vec![], true);
    let it = item(com);
    assert_eq!(it.display_name.as_deref(), Some("Com"));
    assert_eq!(it.resolved_path, "");
}

#[test]
fn system_account_tasks_are_machine_wide() {
    let mut f = facts(r"\Acme\Svc", vec![trig(TriggerKind::Boot, true)], vec![act(r"C:\a\a.exe", "")], true);
    f.user_id = "SYSTEM".into();
    assert_eq!(item(f).scope, Scope::Machine);
}

#[test]
fn task_keeps_its_account_startup_triggers_and_actions() {
    let f = facts(
        r"\Acme\Sync",
        vec![trig(TriggerKind::Other, true), trig(TriggerKind::Logon, false), trig(TriggerKind::Boot, true)],
        vec![act(r"C:\a\a.exe", "-x"), act(r"C:\a\b.exe", "")],
        true,
    );
    let it = item(f);
    match &it.raw.detail {
        SourceDetail::Task { user_id, triggers, actions } => {
            assert_eq!(user_id, "S-1-5-21-1-2-3-1001");
            let kinds: Vec<(TriggerKind, bool)> = triggers.iter().map(|t| (t.kind, t.enabled)).collect();
            assert_eq!(kinds, vec![(TriggerKind::Logon, false), (TriggerKind::Boot, true)]);
            let paths: Vec<&str> = actions.iter().map(|a| a.path.as_str()).collect();
            assert_eq!(paths, vec![r"C:\a\a.exe", r"C:\a\b.exe"]);
            assert_eq!(actions[0].arguments, "-x");
        }
        d => panic!("unexpected {d:?}"),
    }
}
