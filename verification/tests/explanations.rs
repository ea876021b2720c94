use smart_disk_cleaner::dedup::hashed_whole;
use smart_disk_cleaner::diagnostics::{probe_diagnosis, DiagnosticOperation, ProbeOutcome};
use smart_disk_cleaner::insight::{
    finish_explanation, local_file_explanation, remote_path_insight, review_candidates, AiFileInsightResponse,
    ExplainOutcome,
};
use smart_disk_cleaner::models::{
    AdvisorOutput, AiInsightTargetKind, AnalysisResult, DedupResult, DiagnosticCode, DiagnosticSeverity,
    FileAiInsight, FileRecord, FileSuggestion, RiskLevel, ScanReport, SuggestedAction, Timestamp,
};
use smart_disk_cleaner::platform::{is_macos_root, is_windows_drive_root};
use smart_disk_cleaner::process::follow_up_question;
use smart_disk_cleaner::remote::{configured_api_key, frame_json_reply, AdvisorConfig, ReplyFraming};

fn suggestion(path: &str, action: SuggestedAction) -> FileSuggestion {
    FileSuggestion { path: path.to_string(), action, risk: RiskLevel::Low, reason: "r".to_string() }
}

fn insight(action: SuggestedAction, risk: RiskLevel) -> FileAiInsight {
    FileAiInsight {
        path: r"C:\data\a.log".to_string(),
        target_kind: AiInsightTargetKind::File,
        source: "local_rules".to_string(),
        summary: "本地摘要".to_string(),
        suggested_action: action,
        risk,
        reason: "本地理由".to_string(),
        remote_attempted: false,
        used_fallback: false,
        fallback_reason: None,
    }
}

fn config(key: Option<&str>) -> AdvisorConfig {
    AdvisorConfig {
        api_key: key.map(str::to_string),
        base_url: "https://api.example.com".to_string(),
        model: "m".to_string(),
        max_items: 2,
        strict_file_ai_remote_only: false,
    }
}

#[test]
fn replies_are_framed_around_their_object() {
    let (t, f) = frame_json_reply("  好的：{\"summary\":\"x\"} 结束 ");
    assert_eq!(t, "好的：{\"summary\":\"x\"} 结束");
    assert!(matches!(f, ReplyFraming::Object(o) if o == "{\"summary\":\"x\"}"));
    assert!(matches!(frame_json_reply("no json here").1, ReplyFraming::Whole));
    assert!(matches!(frame_json_reply("} then {").1, ReplyFraming::Reversed));
}

#[test]
fn api_keys_are_trimmed_and_required() {
    assert_eq!(configured_api_key(&config(Some("  sk-1 "))).ok().unwrap(), "sk-1");
    assert_eq!(configured_api_key(&config(Some("   "))).err().unwrap(), "请先配置 AI API Key。");
    assert_eq!(configured_api_key(&config(None)).err().unwrap(), "请先配置 AI API Key。");
}

#[test]
fn review_sends_all_but_kept_copies_up_to_the_limit() {
    let all = vec![
        suggestion("a", SuggestedAction::Keep),
        suggestion("b", SuggestedAction::Delete),
        suggestion("c", SuggestedAction::Review),
        suggestion("d", SuggestedAction::Move),
    ];
    let sent = review_candidates(&all, 2);
    assert_eq!(sent.iter().map(|s| s.path.as_str()).collect::<Vec<_>>(), vec!["b", "c"]);
    assert!(review_candidates(&all, 0).is_empty());
}

#[test]
fn explanations_fall_back_unless_strict() {
    let local = insight(SuggestedAction::Delete, RiskLevel::Low);
    let kept = finish_explanation(local.clone(), ExplainOutcome::NoKey, false).ok().unwrap();
    assert!(!kept.used_fallback && !kept.remote_attempted);
    assert!(finish_explanation(local.clone(), ExplainOutcome::NoKey, true).is_err());
    let fell_back = finish_explanation(local.clone(), ExplainOutcome::Failed("timeout".to_string()), false).ok().unwrap();
    assert!(fell_back.used_fallback && fell_back.remote_attempted);
    assert_eq!(fell_back.fallback_reason.as_deref(), Some("timeout"));
    assert_eq!(fell_back.summary, local.summary);
    assert_eq!(
        finish_explanation(local, ExplainOutcome::Failed("timeout".to_string()), true).err().unwrap(),
        "远程 AI 调用失败：timeout"
    );
}

#[test]
fn remote_explanations_cannot_lower_the_risk() {
    let local = insight(SuggestedAction::Review, RiskLevel::High);
    let reply = AiFileInsightResponse {
        summary: "  ".to_string(),
        suggested_action: SuggestedAction::Delete,
        risk: RiskLevel::Low,
        reason: "可以删除".to_string(),
    };
    let r = remote_path_insight(&local, reply, "gpt-x");
    assert_eq!(r.source, "remote:gpt-x");
    assert_eq!(r.suggested_action, SuggestedAction::Review);
    assert_eq!(r.risk, RiskLevel::High);
    assert_eq!(r.summary, "本地摘要");
    assert_eq!(r.reason, "可以删除");
    assert!(r.remote_attempted && !r.used_fallback);
}

#[test]
fn files_missing_from_the_scan_are_not_explained() {
    let report = ScanReport {
        generated_at: Timestamp { secs: 0, nanos: 0 },
        scan_duration_ms: 0,
        root: r"C:\data".to_string(),
        scanned_files: vec![FileRecord {
            path: r"C:\data\a.log".to_string(),
            size: 10,
            extension: Some("log".to_string()),
            modified_at: None,
            is_empty: false,
        }],
        analysis: AnalysisResult {
            total_files: 1,
            total_size: 10,
            empty_files: Vec::new(),
            empty_dirs: Vec::new(),
            large_files: Vec::new(),
            temporary_files: Vec::new(),
            archive_files: Vec::new(),
            type_breakdown: Vec::new(),
        },
        dedup: DedupResult { groups: Vec::new(), failures: Vec::new() },
        modules: Vec::new(),
        advisor: AdvisorOutput { source: "local_rules".to_string(), summary: String::new(), suggestions: Vec::new() },
        failures: Vec::new(),
    };
    let found = local_file_explanation(&report, "a.log").ok().unwrap();
    assert_eq!(found.path, r"C:\data\a.log");
    assert_eq!(found.source, "local_rules");
    assert_eq!(local_file_explanation(&report, "b.log").err().unwrap(), "未在最近一次扫描结果中找到该文件。");
}

#[test]
fn probes_report_missing_and_accessible_paths() {
    let missing = probe_diagnosis(r"C:\gone.txt", DiagnosticOperation::Probe, ProbeOutcome::Missing);
    assert_eq!(missing.code, DiagnosticCode::NotFound);
    assert_eq!(missing.severity, DiagnosticSeverity::Warning);
    assert_eq!(missing.summary, "目标路径不存在。");
    let found = probe_diagnosis(
        r"C:\a.txt",
        DiagnosticOperation::Recycle,
        ProbeOutcome::Found { is_dir: false, is_file: true, readonly: true, len: 12 },
    );
    assert_eq!(found.code, DiagnosticCode::Accessible);
    assert_eq!(found.operation, "recycle");
    assert_eq!(found.details, vec!["路径类型：文件".to_string(), "只读：true".to_string(), "文件大小：12 字节".to_string()]);
    assert_eq!(found.suggestions.len(), 2);
}

#[test]
fn roots_and_small_files_are_recognized() {
    assert!(is_windows_drive_root(r"C:\"));
    assert!(!is_windows_drive_root(r"C:\Users"));
    assert!(is_macos_root("/"));
    assert!(!is_macos_root("/Users"));
    assert!(hashed_whole(131_072));
    assert!(!hashed_whole(131_073));
    assert_eq!(follow_up_question("  为什么？ ").ok().unwrap(), "为什么？");
    assert!(follow_up_question("   ").is_err());
}
