use bootflow::diag::proc_snapshot::{filetime_value, EPOCH_DIFF_100NS};
use bootflow::paths::APP_DIR;
use bootflow::settings::{from_stored, reconcile, Reconcile, Settings, SETTINGS_FILE, SETTINGS_SCHEMA_VERSION};
use bootflow::{reconcile_boot_marker_autostart, MarkerSetup};

#[test]
fn app_dir_name_is_a_single_constant() {
    assert_eq!(APP_DIR, "BootFlow");
}

#[test]
fn default_is_off() {
    assert!(!Settings::default().boot_recording);
}

// What `load` decides once the file has been read: nothing read (a missing
// or unparsable file) gives the defaults.
#[test]
fn missing_file_yields_off() {
    assert_eq!(from_stored(None), Settings::default());
    assert!(!from_stored(None).boot_recording);
}

#[test]
fn future_schema_falls_back_to_default() {
    let read = Settings { schema_version: 999, boot_recording: true };
    assert_eq!(from_stored(Some(read)), Settings::default(), "来自未来的文件不猜语义");
}

#[test]
fn current_file_is_taken_as_written() {
    let on = Settings { schema_version: SETTINGS_SCHEMA_VERSION, boot_recording: true };
    assert_eq!(from_stored(Some(on)), on);
    let older = Settings { schema_version: 0, boot_recording: true };
    assert_eq!(from_stored(Some(older)), on, "旧版本文件按当前版本号继续生效");
    assert_eq!(SETTINGS_FILE, "settings.json");
}

#[test]
fn logon_entries_follow_the_setting() {
    let on = Settings { schema_version: SETTINGS_SCHEMA_VERSION, boot_recording: true };
    assert_eq!(reconcile(&on), Reconcile::Nothing);
    assert_eq!(reconcile(&Settings::default()), Reconcile::RemoveEntries);
    assert_eq!(reconcile_boot_marker_autostart(&on), MarkerSetup::Register);
    assert_eq!(reconcile_boot_marker_autostart(&Settings::default()), MarkerSetup::Remove);
}

#[test]
fn filetime_round_trip() {
    assert_eq!(filetime_value(0x1234_5678, 0x9abc_def0), 0x9abc_def0_1234_5678);
}

#[test]
fn epoch_diff_matches_known_value() {
    assert_eq!(EPOCH_DIFF_100NS, 116_444_736_000_000_000);
}
