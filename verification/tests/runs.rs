use smart_disk_cleaner::cleanup_plan::{
    ai_cleanup_plan, blocking_process_info, filetime_ticks, build_uninstall_candidates, diagnostic_operation_of, execution_mode_of, InstalledAppCleanupEntry,
};
use smart_disk_cleaner::cli::{dry_run_of, DiagnoseArg, ModeArg};
use smart_disk_cleaner::config::{large_file_threshold_bytes, AppConfig};
use smart_disk_cleaner::diagnostics::DiagnosticOperation;
use smart_disk_cleaner::directory_payload::{
    build_directory_ai_payload, file_ai_context, path_relative_to, summarize_directory_children, summarize_directory_extensions,
};
use smart_disk_cleaner::frontend::{summarize_report_for_frontend, ProgressEvent, ScanAsyncStatus};
use smart_disk_cleaner::migration::build_plan_from_opportunity;
use smart_disk_cleaner::migration_run::{
    close_process_log, link_log, pkill_script, profile_with_var, shell_escape, link_removed_log, move_precheck, move_records, plan_step, resolve_user_path,
    rollback_step, rollback_target, runs_action, sanitize_process_name, selected_action_ids, verify_log,
    yaml_list_with_first, CloseOutcome, PlanRun, PlanStep, RollbackRun, RollbackStep,
};
use smart_disk_cleaner::models::{
    ActionParam, AdvisorOutput, AnalysisResult, DedupResult, DiagnosticCode, DuplicateGroup, ExecutionMode,
    FileRecord, FileSuggestion, MigrationActionKind, MigrationCategory, MigrationOpportunity,
    MigrationRunStatus, MigrationSupportLevel, OperationLogEntry, ParamValue, RiskLevel, ScanReport,
    SuggestedAction, Timestamp,
};
use smart_disk_cleaner::process::{parse_elapsed_seconds, process_limit, process_not_found, termination_block_reason, termination_message};
use smart_disk_cleaner::scan_cache::{
    cached_report_usable, hash_cache_file, parse_usn_journal, report_cache_file, windows_volume_arg, UsnJournalSnapshot,
};
use smart_disk_cleaner::scanner::ScanProgress;

fn lower_extension(path: &str) -> Option<String> {
    let name = path.rsplit(|c| c == '/' || c == '\\').next().unwrap_or("");
    match name.rfind('.') {
        Some(i) if i > 0 => Some(name[i + 1..].to_ascii_lowercase()),
        _ => None,
    }
}

fn file(path: &str, size: u64) -> FileRecord {
    FileRecord { path: path.to_string(), size, extension: lower_extension(path), modified_at: None, is_empty: size == 0 }
}

fn report_with(files: Vec<FileRecord>) -> ScanReport {
    ScanReport {
        generated_at: Timestamp { secs: 7, nanos: 0 },
        scan_duration_ms: 12,
        root: r"E:\data".to_string(),
        scanned_files: files,
        analysis: AnalysisResult {
            total_files: 0,
            total_size: 0,
            empty_files: Vec::new(),
            empty_dirs: Vec::new(),
            large_files: Vec::new(),
            temporary_files: Vec::new(),
            archive_files: Vec::new(),
            type_breakdown: Vec::new(),
        },
        dedup: DedupResult { groups: Vec::new(), failures: Vec::new() },
        modules: Vec::new(),
        advisor: AdvisorOutput { source: "local_rules".to_string(), summary: String::new(), suggestions: Vec::new() },
        failures: Vec::new(),
    }
}

fn at() -> Timestamp {
    Timestamp { secs: 1_700_000_000, nanos: 250_000_000 }
}

fn opportunity() -> MigrationOpportunity {
    MigrationOpportunity {
        id: "conda_pkgs:C:\\Users\\demo\\Miniconda3\\pkgs".to_string(),
        title: "Conda 包缓存迁移建议".to_string(),
        category: MigrationCategory::CondaPackageCache,
        support_level: MigrationSupportLevel::Guided,
        risk: RiskLevel::Medium,
        estimated_size: 2048,
        source_path: r"C:\Users\demo\Miniconda3\pkgs".to_string(),
        recommended_target_dir: r"E:\Archive\conda".to_string(),
        recommended_target_path: r"E:\Archive\conda\pkgs".to_string(),
        reason: "r".to_string(),
        blocked_processes: vec!["python.exe".to_string()],
        required_steps: Vec::new(),
        one_click_paths: Vec::new(),
        tags: Vec::new(),
    }
}

#[test]
fn plan_actions_read_into_steps() {
    let plan = build_plan_from_opportunity(&opportunity());
    let steps: Vec<PlanStep> = plan.actions.iter().map(|a| plan_step(a).ok().unwrap()).collect();
    assert!(matches!(&steps[0], PlanStep::StopProcess { process_name } if process_name == "python.exe"));
    assert!(steps.iter().any(|s| matches!(s, PlanStep::UpdateYamlList { key, .. } if key == "pkgs_dirs")));
    assert!(steps.iter().any(|s| matches!(s, PlanStep::Move { allow_special: true, .. })));
    assert!(matches!(steps.last().unwrap(), PlanStep::VerifyPath { path } if path == r"E:\Archive\conda\pkgs"));
    let mut bad = plan.actions[0].clone();
    bad.params.clear();
    assert_eq!(plan_step(&bad).err().unwrap(), "迁移动作参数缺少字段 processName。");
}

#[test]
fn default_selection_runs_required_and_default_actions() {
    let plan = build_plan_from_opportunity(&opportunity());
    let selected = selected_action_ids(&plan, &Vec::new());
    let env = plan.actions.iter().find(|a| a.kind == MigrationActionKind::SetEnvVar).unwrap();
    assert!(!selected.contains(&env.id));
    assert!(!runs_action(env, &selected));
    assert!(runs_action(env, &vec![env.id.clone()]));
    for action in &plan.actions {
        if action.required {
            assert!(runs_action(action, &Vec::new()));
        }
    }
}

#[test]
fn moves_are_checked_before_they_run() {
    let l = move_precheck(at(), r"C:\Windows\a.txt", r"E:\a.txt", false, false, true, false).unwrap();
    assert_eq!(l.detail, "该路径不在通用迁移执行器允许的安全范围内。");
    let l = move_precheck(at(), r"C:\Users\x\a.txt", r"E:\a.txt", false, false, false, false).unwrap();
    assert_eq!(l.detail, r"源路径不存在：C:\Users\x\a.txt");
    let l = move_precheck(at(), r"C:\Users\x\a.txt", r"E:\a.txt", false, false, true, true).unwrap();
    assert_eq!(l.detail, r"目标路径已存在：E:\a.txt");
    let l = move_precheck(at(), r"C:\Users\x\a.txt", r"E:\a.txt", true, false, true, false).unwrap();
    assert!(l.success && l.dry_run);
    assert_eq!(l.detail, r"模拟执行：会把 C:\Users\x\a.txt 移动到 E:\a.txt。");
    assert!(move_precheck(at(), r"C:\Users\x\a.txt", r"E:\a.txt", false, false, true, false).is_none());
    assert!(move_precheck(at(), r"C:\Windows\a.txt", r"E:\a.txt", false, true, true, false).is_none());
}

#[test]
fn move_rollback_moves_the_path_back() {
    let (checkpoint, rollback) = move_records(r"C:\a", r"E:\a", true, false, false);
    assert_eq!(checkpoint.key, r"path-state:C:\a");
    match rollback_step(&rollback).ok().unwrap() {
        RollbackStep::Move { source, target, allow_special } => {
            assert_eq!(source, r"E:\a");
            assert_eq!(target, r"C:\a");
            assert!(!allow_special);
        },
        other => panic!("unexpected {:?}", other),
    }
}

#[test]
fn rollback_steps_reject_malformed_snapshots() {
    let (_, mut rollback) = move_records("a", "b", true, false, true);
    rollback.kind = MigrationActionKind::UpdateYamlList;
    rollback.params = vec![
        ActionParam { key: "path".to_string(), value: ParamValue::Text("~/.condarc".to_string()) },
        ActionParam { key: "content".to_string(), value: ParamValue::Flag(true) },
    ];
    assert_eq!(rollback_step(&rollback).err().unwrap(), "配置文件回滚快照格式不正确。");
    rollback.params[1].value = ParamValue::Null;
    assert!(matches!(rollback_step(&rollback).ok().unwrap(), RollbackStep::RestoreFile { content: None, .. }));
    rollback.kind = MigrationActionKind::VerifyPathExists;
    assert_eq!(rollback_step(&rollback).err().unwrap(), "当前 rollback action 不支持该动作类型。");
}

#[test]
fn runs_stop_at_the_first_failure() {
    let plan = build_plan_from_opportunity(&opportunity());
    let mut run = PlanRun::new();
    let ok = OperationLogEntry { at: at(), path: "x".to_string(), mode: ExecutionMode::Move, dry_run: false, success: true, detail: "好".to_string(), diagnosis: None };
    assert!(run.record(Ok(ok), at(), &plan.source_path, false));
    assert!(!run.record(Err("坏了".to_string()), at(), &plan.source_path, false));
    let record = run.finish(&plan, at(), at(), false);
    assert_eq!(record.status, MigrationRunStatus::Failed);
    assert_eq!(record.failure_reason.as_deref(), Some("坏了"));
    assert_eq!(record.logs.len(), 2);
    assert_eq!(record.logs[1].diagnosis.as_ref().unwrap().operation, "execute_plan");
    assert_eq!(record.run_id, "run-1700000000250");
    let dry = PlanRun::new().finish(&plan, at(), at(), true);
    assert_eq!(dry.status, MigrationRunStatus::DryRun);
}

#[test]
fn rollback_refuses_rehearsals_and_repeats() {
    let plan = build_plan_from_opportunity(&opportunity());
    let done = PlanRun::new().finish(&plan, at(), at(), false);
    let rehearsal = PlanRun::new().finish(&plan, Timestamp { secs: 5, nanos: 0 }, at(), true);
    let runs = vec![done.clone(), rehearsal];
    assert_eq!(rollback_target(&runs, "missing").err().unwrap(), "未找到指定的迁移执行记录。");
    assert_eq!(rollback_target(&runs, "run-5000").err().unwrap(), "模拟执行记录不需要回滚。");
    assert_eq!(rollback_target(&runs, &done.run_id).ok().unwrap(), 0);
    let mut rolled = runs.clone();
    smart_disk_cleaner::migration_run::mark_rolled_back(&mut rolled, &done.run_id);
    assert_eq!(rolled[0].status, MigrationRunStatus::RolledBack);
    assert_eq!(rollback_target(&rolled, &done.run_id).err().unwrap(), "该迁移记录已经回滚过了。");
    let record = RollbackRun::new().finish(&done, at(), at());
    assert_eq!(record.title, format!("回滚 {}", done.title));
    assert_eq!(record.status, MigrationRunStatus::RolledBack);
    assert!(record.run_id.starts_with("rollback-"));
}

#[test]
fn step_logs_say_what_happened() {
    let l = close_process_log(at(), "WeChat.exe", false, &CloseOutcome::Done { stdout: "not-running\n".to_string() });
    assert_eq!(l.detail, "迁移前检查：进程 WeChat.exe 当前未运行。");
    let l = close_process_log(at(), "WeChat.exe", false, &CloseOutcome::Failed { stderr: "  ".to_string() });
    assert_eq!(l.detail, "关闭进程 WeChat.exe 失败。");
    assert_eq!(l.diagnosis.unwrap().code, DiagnosticCode::InUseByAnotherProcess);
    let l = link_log(at(), r"C:\a", r"E:\a", true, false, false);
    assert_eq!(l.detail, r"模拟执行：会在 C:\a 创建 Junction 指向 E:\a。");
    let l = link_log(at(), "/a", "/b", false, true, true);
    assert_eq!(l.detail, "原路径仍然存在，无法创建符号链接。");
    let l = link_removed_log(at(), r"C:\a", false, false);
    assert_eq!(l.detail, r"回滚时未发现 Junction C:\a，已跳过。");
    let l = verify_log(at(), r"E:\a", false, false);
    assert!(!l.success);
    assert_eq!(l.diagnosis.unwrap().code, DiagnosticCode::NotFound);
}

#[test]
fn process_names_and_user_paths_are_checked() {
    assert_eq!(sanitize_process_name("  WeChat.exe ").ok().unwrap(), "WeChat.exe");
    assert_eq!(sanitize_process_name("   ").err().unwrap(), "进程名不能为空。");
    assert_eq!(sanitize_process_name("rm -rf").err().unwrap(), "检测到非法进程名：rm -rf");
    assert_eq!(resolve_user_path("~/.condarc", Some(r"C:\Users\u")), r"C:\Users\u\.condarc");
    assert_eq!(resolve_user_path("~/.condarc", None), "~/.condarc");
    assert_eq!(resolve_user_path("/etc/x", Some("/home/u")), "/etc/x");
    let list = yaml_list_with_first(&vec!["a".to_string(), "b".to_string(), "a".to_string()], "b");
    assert_eq!(list, vec!["b".to_string(), "a".to_string(), "a".to_string()]);
}

#[test]
fn uninstall_candidates_need_enough_space_under_install_location() {
    let files = vec![
        file(r"C:\Program Files\Big\a.bin", 200 * 1024 * 1024),
        file(r"c:/program files/big/b.bin", 100 * 1024 * 1024),
        file(r"C:\Program Files\Small\c.bin", 10),
    ];
    let apps = vec![
        InstalledAppCleanupEntry {
            identity_key: "big".to_string(),
            display_name: "Big".to_string(),
            publisher: None,
            install_location: Some(r"C:\Program Files\Big".to_string()),
            uninstall_string: Some("uninstall.exe".to_string()),
        },
        InstalledAppCleanupEntry {
            identity_key: "small".to_string(),
            display_name: "Small".to_string(),
            publisher: None,
            install_location: Some(r"C:\Program Files\Small".to_string()),
            uninstall_string: None,
        },
        InstalledAppCleanupEntry {
            identity_key: "none".to_string(),
            display_name: "None".to_string(),
            publisher: None,
            install_location: None,
            uninstall_string: None,
        },
    ];
    let c = build_uninstall_candidates(&apps, &files);
    assert_eq!(c.len(), 1);
    assert_eq!(c[0].key, "big");
    assert_eq!(c[0].estimated_size, 300 * 1024 * 1024);
    assert!(c[0].uninstall_available);
    assert!(c[0].reason.contains("300.0 MB"));
    let plan = ai_cleanup_plan("local_rules".to_string(), "s".to_string(), &Vec::new(), c);
    assert_eq!(plan.uninstall_candidates.len(), 1);
    assert_eq!(execution_mode_of("move"), ExecutionMode::Move);
    assert_eq!(execution_mode_of("recycle"), ExecutionMode::Recycle);
    assert_eq!(diagnostic_operation_of("move"), DiagnosticOperation::Move);
    assert_eq!(diagnostic_operation_of("other"), DiagnosticOperation::Probe);
}

#[test]
fn journal_output_is_read_into_a_snapshot() {
    let output = "Usn Journal ID   : 0x01d9a2b3c4d5e6f7\r\nFirst Usn        : 0x0\r\nNext Usn         : 0x0000000012345678\r\n";
    let s = parse_usn_journal("C:", output).unwrap();
    assert_eq!(s.volume, "C:");
    assert_eq!(s.journal_id, "0x01d9a2b3c4d5e6f7");
    assert_eq!(s.next_usn, "0x0000000012345678");
    assert!(parse_usn_journal("C:", "Next Usn : 1").is_none());
    assert_eq!(windows_volume_arg(r"d:\data").unwrap(), "D:");
    assert!(windows_volume_arg("/home").is_none());
    let other = UsnJournalSnapshot { next_usn: "0x1".to_string(), ..s.clone() };
    assert!(cached_report_usable(&"sig".to_string(), &"sig".to_string(), &s, &s.clone()));
    assert!(!cached_report_usable(&"sig".to_string(), &"sig".to_string(), &s, &other));
    assert!(!cached_report_usable(&"a".to_string(), &"b".to_string(), &s, &s.clone()));
    let key = blake3::hash(b"E:/data").to_hex().to_string();
    assert_eq!(report_cache_file("E:/data"), format!("scan-report-{key}.json"));
    assert_eq!(hash_cache_file("E:/data"), format!("hash-cache-{key}.json"));
}

#[test]
fn frontend_report_is_cut_to_page_limits() {
    let mut report = report_with(vec![file(r"E:\data\a.bin", 1)]);
    report.analysis.empty_dirs = (0..150).map(|i| format!("d{i}")).collect();
    report.advisor.suggestions = (0..1001)
        .map(|i| FileSuggestion { path: format!("p{i}"), action: SuggestedAction::Review, risk: RiskLevel::Low, reason: String::new() })
        .collect();
    report.dedup.groups = (0..12)
        .map(|i| DuplicateGroup {
            hash: format!("h{i}"),
            total_size: 30,
            files: (0..25).map(|k| file(&format!("f{k}"), 1)).collect(),
            suggested_keep: None,
        })
        .collect();
    let r = summarize_report_for_frontend(&report);
    assert!(r.scanned_files.is_empty());
    assert_eq!(r.analysis.empty_dirs.len(), 100);
    assert_eq!(r.advisor.suggestions.len(), 1000);
    assert!(r.advisor.truncated);
    assert_eq!(r.advisor.suggestion_count, 1001);
    assert_eq!(r.dedup.groups.len(), 10);
    assert_eq!(r.dedup.groups[0].files.len(), 20);
    assert_eq!(r.dedup.group_count, 12);
    assert!(r.dedup.truncated);
    assert_eq!(r.scan_duration_ms, 12);
    let p = ProgressEvent::from_scan(&ScanProgress {
        phase: "walking".to_string(),
        files_found: 3,
        dirs_visited: 1,
        bytes_found: 9,
        current_path: Some("x".to_string()),
    });
    assert!(matches!(p, ProgressEvent::Scan { files_found: 3, .. }));
    let s = ScanAsyncStatus::default();
    assert!(!s.dedup_pending && s.error.is_none());
}

#[test]
fn directory_payload_summarizes_entries_and_kinds() {
    let files = vec![
        file(r"E:\data\sub\a.LOG", 10),
        file(r"E:\data\sub\b.log", 30),
        file(r"E:\data\c.txt", 100),
        file(r"E:\data\d", 5),
    ];
    assert_eq!(path_relative_to(r"E:\data", r"E:\data\sub\a.LOG"), "sub/a.LOG");
    assert_eq!(path_relative_to(r"E:\other", r"E:\data\c.txt"), "E:/data/c.txt");
    let children = summarize_directory_children(r"E:\data", &files, 12);
    assert_eq!(children[0].name, "sub");
    assert!(children[0].is_directory);
    assert_eq!(children[0].file_count, 2);
    assert_eq!(children[0].total_size, 40);
    assert_eq!(children[1].name, "c.txt");
    assert_eq!(children[2].name, "d");
    let kinds = summarize_directory_extensions(&files, 2);
    assert_eq!(kinds.len(), 2);
    assert_eq!(kinds[0].extension, "log");
    assert_eq!(kinds[0].file_count, 2);
    assert_eq!(kinds[1].extension, "txt");
    let report = report_with(files.clone());
    let payload = build_directory_ai_payload(&report, r"E:\data", &files, false, 1);
    assert_eq!(payload.total_size, 145);
    assert_eq!(payload.file_count, 4);
    assert_eq!(payload.largest_file_samples.len(), 3);
    assert_eq!(payload.largest_file_samples[0].relative_path, "c.txt");
    assert!(["delete", "move", "review", "keep"].contains(&payload.local_action.as_str()));
}

#[test]
fn file_context_names_its_duplicate_peers() {
    let a = file(r"E:\data\a.bin", 10);
    let b = file(r"E:\data\b.bin", 10);
    let c = file(r"E:\data\c.bin", 10);
    let mut report = report_with(vec![a.clone(), b.clone(), c.clone()]);
    report.analysis.large_files = vec![b.clone()];
    report.dedup.groups = vec![DuplicateGroup {
        hash: "h".to_string(),
        total_size: 30,
        files: vec![a.clone(), b.clone(), c.clone()],
        suggested_keep: Some(a.path.clone()),
    }];
    let ctx = file_ai_context(&report, r"E:\data\b.bin");
    assert!(ctx.is_large_file);
    assert!(!ctx.is_temporary_file && !ctx.is_archive_file);
    assert_eq!(ctx.duplicate_group_size, 3);
    assert_eq!(ctx.duplicate_peers, vec![a.path.clone(), c.path.clone()]);
    assert_eq!(ctx.suggested_keep, Some(a.path.clone()));
    let lone = file_ai_context(&report, r"E:\data\z.bin");
    assert!(!lone.is_large_file);
    assert_eq!(lone.duplicate_group_size, 0);
    assert!(lone.duplicate_peers.is_empty() && lone.suggested_keep.is_none());
}

#[test]
fn process_termination_is_guarded() {
    assert_eq!(
        termination_block_reason(4, 4, "sdc.exe", false, "other").unwrap(),
        "不能结束当前 smart-disk-cleaner 应用自身进程。"
    );
    assert_eq!(
        termination_block_reason(888, 4, "lsass.exe", false, "system_critical").unwrap(),
        "已阻止结束 lsass.exe (PID 888)：这是关键系统进程，强制结束可能导致系统不稳定。"
    );
    assert!(termination_block_reason(9, 4, "MsMpEng.exe", false, "security").unwrap().contains("安全防护"));
    assert!(termination_block_reason(9, 4, "notepad.exe", false, "user_app").is_none());
    assert_eq!(termination_message("a.exe", 12, true), "已请求结束进程：a.exe (PID 12)");
    assert_eq!(process_not_found(77), "未找到 PID 为 77 的进程，可能已经退出。");
    assert_eq!(process_limit(None, 30), 30);
    assert_eq!(process_limit(Some(0), 30), 1);
    assert_eq!(process_limit(Some(500), 30), 100);
}

#[test]
fn settings_and_command_line_defaults() {
    let c = AppConfig::default();
    assert_eq!(c.large_file_threshold_mb, 512);
    assert_eq!(c.max_ai_items, 20);
    assert_eq!(c.ai_base_url, "https://api.openai.com");
    assert_eq!(c.ai_model, "gpt-4.1-mini");
    assert_eq!(c.theme, "dark");
    assert_eq!(large_file_threshold_bytes(512), Some(512 * 1024 * 1024));
    assert_eq!(large_file_threshold_bytes(u64::MAX), None);
    assert_eq!(ExecutionMode::from(ModeArg::Move), ExecutionMode::Move);
    assert_eq!(DiagnosticOperation::from(DiagnoseArg::Recycle), DiagnosticOperation::Recycle);
    assert!(dry_run_of(false));
}

#[test]
fn elapsed_times_read_as_ps_writes_them() {
    assert_eq!(parse_elapsed_seconds("1-02:03:04"), 93_784);
    assert_eq!(parse_elapsed_seconds(" 3-00:00:01 "), 259_201);
    assert_eq!(parse_elapsed_seconds("05:06"), 306);
    assert_eq!(parse_elapsed_seconds("42"), 42);
    assert_eq!(parse_elapsed_seconds(""), 0);
    assert_eq!(parse_elapsed_seconds("x-1:2"), 62);
    assert_eq!(parse_elapsed_seconds("1:x:2"), 62);
    assert_eq!(parse_elapsed_seconds("1:2:3:4"), 0);
    assert_eq!(parse_elapsed_seconds("213503982334601-00:00:00"), 213_503_982_334_601u64.wrapping_mul(86_400));
}

#[test]
fn shell_words_keep_quotes_inside() {
    assert_eq!(shell_escape("WeChat"), "'WeChat'");
    assert_eq!(shell_escape("it's"), "'it'\\''s'");
    assert_eq!(shell_escape(""), "''");
    assert_eq!(pkill_script("python"), "pkill -x 'python' >/dev/null 2>&1 || true; echo terminated");
}

#[test]
fn blocking_processes_are_named_and_timed() {
    assert_eq!(filetime_ticks(1, 2), (1u64 << 32) | 2);
    assert_eq!(filetime_ticks(u32::MAX, u32::MAX), u64::MAX);
    let unnamed = blocking_process_info(4242, None, Some("svc".to_string()), 1, 0, 7);
    assert_eq!(unnamed.app_name, "PID 4242");
    assert!(unnamed.restartable);
    assert_eq!(unnamed.process_start_time, 7);
    assert_eq!(unnamed.service_name.as_deref(), Some("svc"));
    let named = blocking_process_info(1, Some("Word".to_string()), None, 0, 1, 0);
    assert_eq!(named.app_name, "Word");
    assert!(!named.restartable);
    assert_eq!(named.process_start_time, 1u64 << 32);
}

#[test]
fn shell_profiles_keep_one_setting_per_variable() {
    let text = "export PATH=/bin\n# smart-disk-cleaner:CONDA_PKGS_DIRS\nexport CONDA_PKGS_DIRS=\"old\"\nalias ll='ls'\r\n";
    let set = profile_with_var(text, "CONDA_PKGS_DIRS", Some("/Volumes/x \"y\""));
    assert_eq!(
        set,
        "export PATH=/bin\nalias ll='ls'\n# smart-disk-cleaner:CONDA_PKGS_DIRS\nexport CONDA_PKGS_DIRS=\"/Volumes/x \\\"y\\\"\"\n"
    );
    assert_eq!(profile_with_var(&set, "CONDA_PKGS_DIRS", Some("/Volumes/x \"y\"")), set);
    let removed = profile_with_var(&set, "CONDA_PKGS_DIRS", None);
    assert_eq!(removed, "export PATH=/bin\nalias ll='ls'\n");
    assert_eq!(removed, profile_with_var(text, "CONDA_PKGS_DIRS", None));
    assert_eq!(profile_with_var("", "X", None), "");
    assert_eq!(profile_with_var("a\nb", "X", Some("1")), "a\nb\n# smart-disk-cleaner:X\nexport X=\"1\"\n");
}
