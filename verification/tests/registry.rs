use smart_disk_cleaner::models::{ExecutionMode, RiskLevel, SuggestedAction, Timestamp};
use smart_disk_cleaner::registry::{
    apply_registry_change, build_issues_for_entry, build_path_issues, command_target, disabled_value, entry_record, find_backup,
    find_entry_by_id, parse_reg_query, preview_registry_change, registry_backup, rollback_registry_change, root_key_name,
    OperationRecordKind, RegistryIssueKind, RegistryQueryRow, RegistryRootKey, RegistryValueDataKind,
};

fn row(name: &str, kind: &str, data: &str) -> RegistryQueryRow {
    RegistryQueryRow { value_name: name.to_string(), value_kind: kind.to_string(), value_data: data.to_string() }
}

const RUN_KEY: &str = r"Software\Microsoft\Windows\CurrentVersion\Run";

#[test]
fn query_output_is_read_into_rows() {
    let output = "\r\nHKEY_CURRENT_USER\\Software\\Microsoft\\Windows\\CurrentVersion\\Run\r\n    OneDrive    REG_SZ    \"C:\\Program Files\\OneDrive\\OneDrive.exe\" /background\r\n    Tool    REG_EXPAND_SZ    %LOCALAPPDATA%\\tool.exe\r\n    Broken REG_SZ\r\n\r\n";
    let rows = parse_reg_query(output);
    assert_eq!(rows.len(), 2);
    assert_eq!(rows[0].value_name, "OneDrive");
    assert_eq!(rows[0].value_kind, "REG_SZ");
    assert_eq!(rows[0].value_data, "\"C:\\Program Files\\OneDrive\\OneDrive.exe\" /background");
    assert_eq!(rows[1].value_name, "Tool");
    assert_eq!(rows[1].value_kind, "REG_EXPAND_SZ");
    assert_eq!(rows[1].value_data, "%LOCALAPPDATA%\\tool.exe");
    assert!(parse_reg_query("").is_empty());
}

#[test]
fn command_targets_follow_quotes_and_expand_variables() {
    let vars = vec![("LOCALAPPDATA".to_string(), r"C:\Users\demo\AppData\Local".to_string())];
    assert_eq!(
        command_target("  \"C:\\Program Files\\App\\app.exe\" --min ", &vars).unwrap(),
        r"C:\Program Files\App\app.exe"
    );
    assert_eq!(command_target(r"%LOCALAPPDATA%\tool.exe /quiet", &vars).unwrap(), r"C:\Users\demo\AppData\Local\tool.exe");
    assert_eq!(command_target("\"C:\\open\\quote.exe", &vars).unwrap(), r"C:\open\quote.exe");
    assert_eq!(command_target(r"%A%%A%x", &vec![("A".to_string(), "1".to_string())]).unwrap(), "11x");
    assert!(command_target("   ", &vars).is_none());
}

#[test]
fn entries_of_the_user_hive_may_be_changed() {
    let user = entry_record(RegistryRootKey::Hkcu, RUN_KEY, &row("Tool", "reg_expand_sz", "tool.exe"), None, false);
    assert_eq!(user.id, format!("HKCU:{RUN_KEY}:Tool"));
    assert_eq!(user.value_kind, RegistryValueDataKind::ExpandString);
    assert!(user.safe_to_modify);
    assert_eq!(user.risk_level, RiskLevel::Medium);
    assert_eq!(user.tags, vec!["启动项".to_string(), "当前用户".to_string()]);
    let machine = entry_record(RegistryRootKey::Hklm, RUN_KEY, &row("Svc", "REG_SZ", "svc.exe"), Some("svc.exe".to_string()), true);
    assert_eq!(machine.value_kind, RegistryValueDataKind::String);
    assert!(!machine.safe_to_modify);
    assert_eq!(machine.risk_level, RiskLevel::High);
    assert_eq!(machine.tags[1], "系统范围");
    assert_eq!(root_key_name(RegistryRootKey::Hklm), "HKLM");
}

#[test]
fn issues_flag_missing_targets_and_unquoted_paths() {
    let entry = entry_record(
        RegistryRootKey::Hkcu,
        RUN_KEY,
        &row("App", "REG_SZ", r"C:\Program Files\App\app.exe"),
        Some(r"C:\Program".to_string()),
        false,
    );
    let issues = build_issues_for_entry(&entry);
    assert_eq!(issues.len(), 2);
    assert_eq!(issues[0].issue_kind, RegistryIssueKind::MissingTarget);
    assert_eq!(issues[0].id, format!("issue:{}:missing-target", entry.id));
    assert_eq!(issues[0].risk_level, RiskLevel::Low);
    assert_eq!(issues[1].issue_kind, RegistryIssueKind::MissingQuotedPath);
    assert_eq!(issues[1].id, format!("issue:{}:quote", entry.id));
    assert!(issues.iter().all(|i| i.suggested_action == SuggestedAction::Review && i.entry_id == entry.id));
    let quoted = entry_record(RegistryRootKey::Hkcu, RUN_KEY, &row("App", "REG_SZ", "  \"C:\\A B\\a.exe\""), None, true);
    assert!(build_issues_for_entry(&quoted).is_empty());
}

#[test]
fn machine_entries_are_never_changed() {
    let machine = entry_record(RegistryRootKey::Hklm, RUN_KEY, &row("Svc", "REG_SZ", "svc.exe"), None, true);
    assert_eq!(preview_registry_change(&machine).err().unwrap(), "该注册表项当前不允许直接修改，请先人工复核。");
    let at = Timestamp { secs: 1_700_000_000, nanos: 5_000_000 };
    assert_eq!(apply_registry_change(&machine, false, at).err().unwrap(), "该注册表项风险较高，当前版本不允许直接修改。");
}

#[test]
fn rollback_writes_back_the_value_before_the_change() {
    let entry = entry_record(RegistryRootKey::Hkcu, RUN_KEY, &row("Tool", "REG_SZ", " tool.exe --tray "), None, true);
    assert_eq!(disabled_value(" tool.exe --tray "), "REM_DISABLED_BY_SDC tool.exe --tray");
    let preview = preview_registry_change(&entry).ok().unwrap();
    assert_eq!(preview.after_value, "REM_DISABLED_BY_SDC tool.exe --tray");
    assert!(preview.backup_id.is_none());
    let at = Timestamp { secs: 1_700_000_000, nanos: 5_000_000 };
    let rehearsal = apply_registry_change(&entry, true, at).ok().unwrap();
    assert!(rehearsal.write.is_none());
    assert_eq!(rehearsal.record.detail, "已预演禁用启动项：Tool");
    let applied = apply_registry_change(&entry, false, at).ok().unwrap();
    assert_eq!(applied.backup.backup_id, "registry-backup-1700000000005");
    assert_eq!(applied.write.as_deref(), Some("REM_DISABLED_BY_SDC tool.exe --tray"));
    assert_eq!(applied.record.path, format!("HKCU\\{RUN_KEY}:Tool"));
    assert_eq!(applied.record.record_kind, OperationRecordKind::RegistryChange);
    assert_eq!(applied.record.mode, ExecutionMode::Move);
    assert_eq!(applied.record.rollback_reference.as_deref(), Some("registry-backup-1700000000005"));
    let backups = vec![rehearsal.backup.clone(), applied.backup.clone()];
    let found = find_backup(&backups, "registry-backup-1700000000005").ok().unwrap();
    let undone = rollback_registry_change(&found, Timestamp { secs: 1_700_000_100, nanos: 0 });
    assert_eq!(undone.write, " tool.exe --tray ");
    assert_eq!(undone.record.entry.id, entry.id);
    assert_eq!(undone.history.detail, "已回滚注册表改动：Tool");
    assert_eq!(undone.history.record_kind, OperationRecordKind::RegistryRollback);
    assert!(!undone.history.dry_run);
    assert_eq!(find_backup(&backups, "missing").err().unwrap(), "未找到指定的注册表备份记录。");
}

#[test]
fn entries_are_found_by_id() {
    let a = entry_record(RegistryRootKey::Hkcu, RUN_KEY, &row("A", "REG_SZ", "a.exe"), None, true);
    let b = entry_record(RegistryRootKey::Hklm, RUN_KEY, &row("B", "REG_SZ", "b.exe"), None, true);
    let entries = vec![a.clone(), b.clone()];
    assert_eq!(find_entry_by_id(&entries, &b.id).ok().unwrap().value_data, "b.exe");
    assert_eq!(find_entry_by_id(&entries, "HKCU:x:y").err().unwrap(), "未找到指定注册表项。");
}

#[test]
fn issues_are_listed_entry_by_entry() {
    let missing = entry_record(RegistryRootKey::Hkcu, RUN_KEY, &row("Gone", "REG_SZ", "gone.exe"), None, false);
    let fine = entry_record(RegistryRootKey::Hkcu, RUN_KEY, &row("Fine", "REG_SZ", "fine.exe"), None, true);
    let both = entry_record(RegistryRootKey::Hklm, RUN_KEY, &row("Both", "REG_SZ", r"C:\A B\b.exe"), None, false);
    let issues = build_path_issues(&vec![missing.clone(), fine, both.clone()]);
    assert_eq!(issues.len(), 3);
    assert_eq!(issues[0].entry_id, missing.id);
    assert_eq!(issues[0].issue_kind, RegistryIssueKind::MissingTarget);
    assert_eq!(issues[1].entry_id, both.id);
    assert_eq!(issues[1].issue_kind, RegistryIssueKind::MissingTarget);
    assert_eq!(issues[2].issue_kind, RegistryIssueKind::MissingQuotedPath);
}

#[test]
fn backups_keep_the_value_and_entry() {
    let entry = entry_record(RegistryRootKey::Hklm, RUN_KEY, &row("Svc", "REG_SZ", "svc.exe /s"), None, true);
    let b = registry_backup(&entry, Timestamp { secs: 2, nanos: 999_999_999 });
    assert_eq!(b.backup_id, "registry-backup-2999");
    assert_eq!(b.original_value_data, "svc.exe /s");
    assert_eq!(b.entry.id, entry.id);
}
