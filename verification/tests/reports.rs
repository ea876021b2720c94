use smart_disk_cleaner::analyzer::{analyze, build_scan_modules, choose_keep_candidate, AnalyzerOptions};
use smart_disk_cleaner::diagnostics::{diagnose_io_error, DiagnosticOperation, IoErrorInfo};
use smart_disk_cleaner::insight::{build_display_summary, resolve_report_file_path};
use smart_disk_cleaner::models::{
    ActionParam, AdvisorOutput, AnalysisResult, DedupResult, DiagnosticCode, DuplicateGroup, FileRecord,
    FileSuggestion, MigrationAction, MigrationActionKind, MigrationCategory, MigrationDocSource,
    MigrationDocSourceKind, MigrationObjectKind, MigrationPlan, MigrationSupportLevel, PathIssue, RiskLevel,
    ScanModuleKind, ScanReport, ScanResult, SuggestedAction, Timestamp,
};
use smart_disk_cleaner::order::same_path_exec;
use smart_disk_cleaner::planner::{apply_refinement, compact_excerpt, strip_html_tags, PlanRefinementResponse};
use smart_disk_cleaner::process::{build_local_process_insight, classify_process_metadata, ProcessFacts};

fn lower_extension(path: &str) -> Option<String> {
    let name = path.rsplit(|c| c == '/' || c == '\\').next().unwrap_or("");
    match name.rfind('.') {
        Some(i) if i > 0 => Some(name[i + 1..].to_ascii_lowercase()),
        _ => None,
    }
}

fn file(path: &str, size: u64) -> FileRecord {
    FileRecord {
        path: path.to_string(),
        size,
        extension: lower_extension(path),
        modified_at: None,
        is_empty: size == 0,
    }
}

fn empty_analysis() -> AnalysisResult {
    AnalysisResult {
        total_files: 0,
        total_size: 0,
        empty_files: Vec::new(),
        empty_dirs: Vec::new(),
        large_files: Vec::new(),
        temporary_files: Vec::new(),
        archive_files: Vec::new(),
        type_breakdown: Vec::new(),
    }
}

fn empty_report(root: &str) -> ScanReport {
    ScanReport {
        generated_at: Timestamp { secs: 0, nanos: 0 },
        scan_duration_ms: 0,
        root: root.to_string(),
        scanned_files: Vec::new(),
        analysis: empty_analysis(),
        dedup: DedupResult { groups: Vec::new(), failures: Vec::new() },
        modules: Vec::new(),
        advisor: AdvisorOutput { source: "local_rules".to_string(), summary: String::new(), suggestions: Vec::new() },
        failures: Vec::new(),
    }
}

fn suggestion(path: &str, action: SuggestedAction, risk: RiskLevel, reason: &str) -> FileSuggestion {
    FileSuggestion { path: path.to_string(), action, risk, reason: reason.to_string() }
}

#[test]
fn strips_html() {
    assert_eq!(strip_html_tags("<p>Hello <b>World</b></p>").trim(), "Hello World");
}

#[test]
fn compacts_excerpt() {
    assert!(compact_excerpt("a b c d e", 3).ends_with("..."));
}

#[test]
fn compact_excerpt_keeps_short_text_whole() {
    assert_eq!(compact_excerpt("  a   b\nc ", 10), "a b c");
    assert_eq!(compact_excerpt("a b c d e", 3), "a b...");
}

fn sample_plan() -> MigrationPlan {
    MigrationPlan {
        id: "plan-1".to_string(),
        title: "测试计划".to_string(),
        category: MigrationCategory::WechatData,
        object_kind: MigrationObjectKind::AppData,
        support_level: MigrationSupportLevel::Guided,
        risk: RiskLevel::Medium,
        estimated_size: 10,
        source_path: "C:/A".to_string(),
        recommended_target_dir: "D:/B".to_string(),
        recommended_target_path: "D:/B/A".to_string(),
        summary: "原始摘要".to_string(),
        rationale: "原始原因".to_string(),
        tags: vec!["tag".to_string()],
        doc_sources: vec![MigrationDocSource {
            title: "doc".to_string(),
            kind: MigrationDocSourceKind::LocalRule,
            uri: None,
            note: "note".to_string(),
        }],
        actions: vec![MigrationAction {
            id: "a1".to_string(),
            kind: MigrationActionKind::MovePath,
            title: "移动".to_string(),
            detail: "detail".to_string(),
            required: false,
            enabled_by_default: false,
            params: Vec::<ActionParam>::new(),
        }],
        verification_steps: Vec::new(),
    }
}

#[test]
fn applies_recommended_action_ids() {
    let refined = apply_refinement(
        &sample_plan(),
        PlanRefinementResponse {
            summary: "新摘要".to_string(),
            rationale: "新原因".to_string(),
            action_overrides: Vec::new(),
            recommended_action_ids: vec!["a1".to_string()],
            verification_steps: Vec::new(),
        },
    );
    assert_eq!(refined.summary, "新摘要");
    assert!(refined.actions[0].enabled_by_default);
}

#[test]
fn choose_keep_candidate_prefers_newer_file() {
    let older = FileRecord {
        path: "old.zip".to_string(),
        size: 10,
        extension: Some("zip".to_string()),
        modified_at: Some(Timestamp { secs: 1704067200, nanos: 0 }),
        is_empty: false,
    };
    let newer = FileRecord {
        path: "new.zip".to_string(),
        size: 10,
        extension: Some("zip".to_string()),
        modified_at: Some(Timestamp { secs: 1735689600, nanos: 0 }),
        is_empty: false,
    };
    let selected = choose_keep_candidate(&[older, newer]).expect("candidate should exist");
    assert_eq!(selected.path, "new.zip");
}

#[test]
fn analyze_detects_temporary_and_archive_files() {
    let scan = ScanResult {
        root: "E:/test".to_string(),
        files: vec![
            file("E:/test/cache/app.tmp", 128),
            file("E:/test/archive/demo.zip", 2048),
            file("E:/test/docs/report.pdf", 512),
        ],
        empty_dirs: vec!["E:/test/empty".to_string()],
        failures: Vec::<PathIssue>::new(),
    };
    let analysis = analyze(&scan, AnalyzerOptions { large_file_threshold_bytes: 1024 });
    assert_eq!(analysis.temporary_files.len(), 1);
    assert_eq!(analysis.archive_files.len(), 1);
    assert_eq!(analysis.large_files.len(), 1);
    assert_eq!(analysis.archive_files[0].path, "E:/test/archive/demo.zip");
}

#[test]
fn build_scan_modules_contains_expected_counts() {
    let analysis = analyze(
        &ScanResult {
            root: "E:/test".to_string(),
            files: vec![file("E:/test/cache/app.tmp", 100), file("E:/test/demo.zip", 200)],
            empty_dirs: vec!["E:/test/empty".to_string()],
            failures: Vec::<PathIssue>::new(),
        },
        AnalyzerOptions { large_file_threshold_bytes: 150 },
    );
    let dedup = DedupResult {
        groups: vec![DuplicateGroup {
            hash: "abc".to_string(),
            total_size: 400,
            files: vec![file("E:/test/a.bin", 200), file("E:/test/b.bin", 200)],
            suggested_keep: None,
        }],
        failures: Vec::<PathIssue>::new(),
    };
    let modules = build_scan_modules(&analysis, &dedup);
    assert!(modules.iter().any(|item| item.kind == ScanModuleKind::DuplicateFiles && item.item_count == 1));
    assert!(modules.iter().any(|item| item.kind == ScanModuleKind::TemporaryFiles && item.item_count == 1));
    assert!(modules.iter().any(|item| item.kind == ScanModuleKind::ArchiveFiles && item.item_count == 1));
}

#[test]
fn analysis_orders_lists_and_counts_types() {
    let scan = ScanResult {
        root: "E:/t".to_string(),
        files: vec![
            file("E:/t/b.zip", 300),
            file("E:/t/a.zip", 500),
            file("E:/t/z.txt", 0),
            file("E:/t/c.zip", 300),
            file("E:/t/y.txt", 0),
        ],
        empty_dirs: Vec::new(),
        failures: Vec::new(),
    };
    let analysis = analyze(&scan, AnalyzerOptions { large_file_threshold_bytes: 300 });
    assert_eq!(analysis.total_size, 1100);
    let large: Vec<&str> = analysis.large_files.iter().map(|f| f.path.as_str()).collect();
    assert_eq!(large, vec!["E:/t/a.zip", "E:/t/b.zip", "E:/t/c.zip"]);
    let empty: Vec<&str> = analysis.empty_files.iter().map(|f| f.path.as_str()).collect();
    assert_eq!(empty, vec!["E:/t/y.txt", "E:/t/z.txt"]);
    assert_eq!(analysis.type_breakdown.len(), 2);
    assert_eq!(analysis.type_breakdown[0].extension, "zip");
    assert_eq!(analysis.type_breakdown[0].file_count, 3);
    assert_eq!(analysis.type_breakdown[0].total_size, 1100);
    assert_eq!(analysis.type_breakdown[1].extension, "txt");
    assert_eq!(analysis.type_breakdown[1].file_count, 2);
}

fn io_error(raw: Option<i32>, kind: &str, message: &str) -> IoErrorInfo {
    IoErrorInfo { raw_os_error: raw, kind_name: kind.to_string(), message: message.to_string() }
}

#[test]
fn detects_windows_sharing_violation() {
    let err = io_error(Some(32), "Uncategorized", "The process cannot access the file");
    let diagnosis = diagnose_io_error("demo.zip", DiagnosticOperation::Recycle, &err, false);
    assert_eq!(diagnosis.code, DiagnosticCode::InUseByAnotherProcess);
}

#[test]
fn maps_not_found_error() {
    let err = io_error(None, "NotFound", "missing");
    let diagnosis = diagnose_io_error("missing.txt", DiagnosticOperation::Probe, &err, false);
    assert_eq!(diagnosis.code, DiagnosticCode::NotFound);
}

#[test]
fn diagnosis_lists_details_and_related_apps() {
    let err = io_error(Some(5), "PermissionDenied", "Access is denied.");
    let diagnosis = diagnose_io_error(r"C:\Users\demo\Downloads\setup.zip", DiagnosticOperation::Move, &err, true);
    assert_eq!(diagnosis.code, DiagnosticCode::ReadOnly);
    assert_eq!(diagnosis.operation, "move");
    assert_eq!(
        diagnosis.details,
        vec!["操作系统错误：Access is denied.".to_string(), "原始系统错误码=5".to_string(), "错误类型=PermissionDenied".to_string()]
    );
    assert_eq!(diagnosis.possible_related_apps, vec!["压缩工具或下载器".to_string(), "浏览器或下载工具".to_string()]);
    assert_eq!(diagnosis.error_kind.as_deref(), Some("PermissionDenied"));
}

#[test]
fn classifies_critical_system_process() {
    let (category, critical) = classify_process_metadata("lsass.exe", Some("C:/Windows/System32/lsass.exe"), &[], 888);
    assert_eq!(category, "system_critical");
    assert!(critical);
}

#[test]
fn classifies_processes_by_name_path_and_command() {
    assert_eq!(classify_process_metadata(" Chrome.EXE ", None, &[], 1000).0, "browser");
    let cmd = vec!["node".to_string(), "--inspect".to_string(), "wsl-bridge".to_string()];
    assert_eq!(classify_process_metadata("agent.exe", None, &cmd, 1000).0, "virtualization");
    assert_eq!(classify_process_metadata("x.exe", Some(r"C:\Windows\System32\x.exe"), &[], 1000).0, "system_service");
    assert_eq!(classify_process_metadata("x.exe", Some(r"C:\Windows\x.exe"), &[], 1000).0, "windows_component");
    assert_eq!(classify_process_metadata("myupdater.exe", None, &[], 1000).0, "background_helper");
    assert_eq!(classify_process_metadata("game.exe", None, &[], 4), ("system_critical".to_string(), true));
}

fn facts_from(cpu: f32, memory_bytes: u64, disk_read: u64, disk_written: u64, category: &str, critical: bool) -> ProcessFacts {
    let memory_mb = memory_bytes as f32 / (1024.0 * 1024.0);
    let disk_mb = (disk_read + disk_written) as f32 / (1024.0 * 1024.0);
    let score = cpu * 1.4 + memory_mb * 0.06 + disk_mb * 2.0;
    ProcessFacts {
        pid: 888,
        name: "lsass.exe".to_string(),
        exe_path: Some("C:/Windows/System32/lsass.exe".to_string()),
        command: Vec::new(),
        category: category.to_string(),
        is_critical: critical,
        memory_bytes,
        disk_read_bytes: disk_read,
        disk_written_bytes: disk_written,
        run_time_seconds: 600,
        cpu_text: format!("{:.1}", cpu),
        score_text: format!("{:.1}", score),
        cpu_high: cpu >= 20.0,
        helper_busy: cpu >= 20.0 || score >= 80.0,
        unknown_busy: cpu >= 35.0 || score >= 90.0,
    }
}

#[test]
fn local_process_insight_keeps_critical_process_safe() {
    let process = facts_from(2.0, 128 * 1024 * 1024, 0, 0, "system_critical", true);
    let insight = build_local_process_insight(&process);
    assert_eq!(format!("{:?}", insight.suggested_action), "AvoidEnd");
}

#[test]
fn local_summary_uses_human_readable_size() {
    let summary = build_display_summary(
        &AnalysisResult { total_files: 2, total_size: 399145, ..empty_analysis() },
        &DedupResult { groups: Vec::new(), failures: Vec::new() },
        &vec![
            suggestion(r"E:\Downloads\foo.tmp", SuggestedAction::Delete, RiskLevel::Low, "test"),
            suggestion(r"E:\Downloads\bar.tmp", SuggestedAction::Delete, RiskLevel::Low, "test"),
        ],
    );
    assert!(summary.contains("389.8 KB"));
}

#[test]
fn resolves_relative_file_path_against_scan_root() {
    let report = empty_report(r"E:\ScanRoot");
    let resolved = resolve_report_file_path(&report, "App/lib/demo.dll");
    assert!(same_path_exec(&resolved, r"E:\ScanRoot\App\lib\demo.dll"));
}
