use bootflow::model::{BootPhase, Scope, SourceDetail, SourceKind};
use bootflow::scanners::builder::FileMeta;
use bootflow::scanners::registry::{build_item, decode_command, describe_open_error, keeps_value, keys, Decoded, RegValueType};

fn cmd_of(bytes: &[u8], t: RegValueType) -> Option<String> {
    match decode_command(bytes, t) {
        Decoded::Command(c, _) => Some(c),
        Decoded::NotACommand(_) => None,
    }
}

/// UTF-16LE bytes without a trailing NUL, as the registry may hold them.
fn utf16(s: &str) -> Vec<u8> {
    s.encode_utf16().flat_map(|u| u.to_le_bytes()).collect()
}

#[test]
fn decodes_sz_without_trailing_nul() {
    assert_eq!(
        cmd_of(&utf16(r"C:\App\a.exe"), RegValueType::Sz).unwrap(),
        r"C:\App\a.exe",
        "值不一定以 NUL 结尾，不能靠 NUL 定界"
    );
}

#[test]
fn strips_multiple_trailing_nuls() {
    let mut bytes = utf16("a.exe");
    bytes.extend_from_slice(&[0, 0, 0, 0]);
    assert_eq!(cmd_of(&bytes, RegValueType::Sz).unwrap(), "a.exe");
}

#[test]
fn odd_byte_length_does_not_panic() {
    let mut bytes = utf16("a.exe");
    bytes.push(0x41);
    assert_eq!(cmd_of(&bytes, RegValueType::Sz).unwrap(), "a.exe");
}

#[test]
fn expand_sz_is_kept_raw_and_typed() {
    let bytes = utf16(r"%ProgramFiles%\App\a.exe");
    match decode_command(&bytes, RegValueType::ExpandSz) {
        Decoded::Command(c, t) => {
            assert_eq!(c, r"%ProgramFiles%\App\a.exe", "展开交给 cmdline 统一处理");
            assert_eq!(t, "REG_EXPAND_SZ");
        }
        _ => panic!("应解码为命令"),
    }
}

#[test]
fn multi_sz_takes_first_non_empty_entry() {
    let mut bytes = utf16("\0first.exe\0second.exe");
    bytes.extend_from_slice(&[0, 0]);
    assert_eq!(cmd_of(&bytes, RegValueType::MultiSz).unwrap(), "first.exe");
}

#[test]
fn non_string_types_are_rejected() {
    assert!(cmd_of(&[1, 0, 0, 0], RegValueType::Dword).is_none());
    assert!(cmd_of(&[0xFF; 8], RegValueType::Binary).is_none());
    assert!(cmd_of(&[], RegValueType::NoneType).is_none());
}

#[test]
fn blank_values_decode_to_what_they_hold() {
    let mut bytes = utf16("   ");
    bytes.extend_from_slice(&[0, 0]);
    assert_eq!(cmd_of(&bytes, RegValueType::Sz).unwrap(), "", "空值也交给有效性检测去说");
    match decode_command(&utf16("\0 \0"), RegValueType::MultiSz) {
        Decoded::NotACommand(t) => assert_eq!(t, "REG_MULTI_SZ（内容为空）"),
        _ => panic!("全空的多字符串不是命令"),
    }
}

#[test]
fn value_name_whitespace_is_trimmed_for_display_but_kept_raw() {
    let spec = &keys()[0];
    let it = build_item(
        spec,
        " QQPCTray",
        r"C:\Windows\notepad.exe",
        r"C:\Windows\notepad.exe".to_string(),
        vec![],
        true,
        FileMeta::unknown(),
    );
    assert_eq!(it.name, "QQPCTray", "展示名不应带前导空格");
    assert_eq!(it.raw.value_name.as_deref(), Some(" QQPCTray"), "原始值名必须原样保留，否则查不到 StartupApproved 记录");
    assert_eq!(it.boot_phase, BootPhase::Logon);
    assert_eq!(it.location, spec.display);
    assert_eq!(it.scope, if spec.machine { Scope::Machine } else { Scope::User });
}

#[test]
fn run_once_dash_cancels_and_is_skipped() {
    assert!(keeps_value(SourceKind::RunUser, "a.exe"));
    assert!(keeps_value(SourceKind::RunUser, "-"), "Run 里的 - 仍交给有效性检测");
    assert!(keeps_value(SourceKind::RunUser, ""));
    assert!(!keeps_value(SourceKind::RunOnceUser, " - "));
    assert!(keeps_value(SourceKind::RunOnceUser, "a.exe"));
}

#[test]
fn open_errors_are_explained() {
    assert_eq!(describe_open_error(Some(5), "拒绝访问。"), "拒绝访问（该位置需要管理员权限才能查看）");
    assert_eq!(describe_open_error(Some(2), "找不到文件"), "找不到文件");
    assert_eq!(describe_open_error(None, "x"), "x");
}

#[test]
fn run_value_keeps_its_key_and_kind() {
    for spec in keys().iter() {
        let it = build_item(spec, "Acme", "a.exe", "a.exe".to_string(), vec![], true, FileMeta::unknown());
        match &it.raw.detail {
            SourceDetail::RunValue { key_path, policy, run_once } => {
                assert_eq!(key_path, spec.path);
                assert_eq!(*policy, spec.policy);
                assert_eq!(*run_once, matches!(spec.source, SourceKind::RunOnceUser | SourceKind::RunOnceMachine | SourceKind::RunOnceMachine32));
            }
            d => panic!("unexpected {d:?}"),
        }
    }
}
