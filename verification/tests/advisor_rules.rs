use smart_disk_cleaner::advisor::merge_ai_suggestions;
use smart_disk_cleaner::insight::{advice_after_review, ReviewReply};
use smart_disk_cleaner::models::{
    AnalysisResult, DedupResult, DuplicateGroup, FileRecord, FileSuggestion, PathIssue, RiskLevel,
    SuggestedAction,
};
use smart_disk_cleaner::remote::{build_compatible_endpoint, normalize_model_ids, ModelEntry};
use smart_disk_cleaner::sizes::format_bytes_human;
use smart_disk_cleaner::suggestions::build_rule_based_suggestions;

fn file(path: &str, extension: Option<&str>) -> FileRecord {
    FileRecord {
        path: path.to_string(),
        size: 10,
        extension: extension.map(str::to_string),
        modified_at: None,
        is_empty: false,
    }
}

fn suggestion(path: &str, action: SuggestedAction, risk: RiskLevel, reason: &str) -> FileSuggestion {
    FileSuggestion {
        path: path.to_string(),
        action,
        risk,
        reason: reason.to_string(),
    }
}

fn empty_analysis() -> AnalysisResult {
    AnalysisResult {
        total_files: 0,
        total_size: 0,
        empty_files: Vec::new(),
        empty_dirs: Vec::new(),
        large_files: Vec::new(),
        temporary_files: Vec::new(),
        archive_files: Vec::new(),
        type_breakdown: Vec::new(),
    }
}

#[test]
fn marks_project_duplicates_as_review_only() {
    let dedup = DedupResult {
        groups: vec![DuplicateGroup {
            hash: "same".to_string(),
            total_size: 20,
            files: vec![
                file(r"E:\agent\数学建模工作流\AGENTS.md", Some("md")),
                file(r"E:\agent\自动炒股\AGENTS.md", Some("md")),
            ],
            suggested_keep: Some(r"E:\agent\自动炒股\AGENTS.md".to_string()),
        }],
        failures: Vec::<PathIssue>::new(),
    };

    let suggestions = build_rule_based_suggestions(&empty_analysis(), &dedup);
    assert_eq!(suggestions.len(), 2);
    assert!(suggestions
        .iter()
        .all(|item| item.action == SuggestedAction::Review && item.risk == RiskLevel::High));
}

#[test]
fn keeps_binary_duplicate_cleanup_behavior() {
    let dedup = DedupResult {
        groups: vec![DuplicateGroup {
            hash: "same".to_string(),
            total_size: 20,
            files: vec![
                file(r"E:\archive\installer_old.zip", Some("zip")),
                file(r"E:\archive\installer_new.zip", Some("zip")),
            ],
            suggested_keep: Some(r"E:\archive\installer_new.zip".to_string()),
        }],
        failures: Vec::<PathIssue>::new(),
    };

    let suggestions = build_rule_based_suggestions(&empty_analysis(), &dedup);
    assert!(suggestions.iter().any(|item| {
        item.path == r"E:\archive\installer_new.zip" && item.action == SuggestedAction::Keep
    }));
    assert!(suggestions.iter().any(|item| {
        item.path == r"E:\archive\installer_old.zip" && item.action == SuggestedAction::Delete
    }));
}

#[test]
fn reviews_duplicate_documents_instead_of_deleting() {
    let dedup = DedupResult {
        groups: vec![DuplicateGroup {
            hash: "same".to_string(),
            total_size: 20,
            files: vec![
                file(r"E:\Downloads\课程课件.pdf", Some("pdf")),
                file(r"E:\Documents\课程课件.pdf", Some("pdf")),
            ],
            suggested_keep: Some(r"E:\Documents\课程课件.pdf".to_string()),
        }],
        failures: Vec::<PathIssue>::new(),
    };

    let suggestions = build_rule_based_suggestions(&empty_analysis(), &dedup);
    assert!(suggestions
        .iter()
        .all(|item| item.action == SuggestedAction::Review && item.risk == RiskLevel::High));
}

#[test]
fn reviews_generic_duplicates_outside_safe_cleanup_categories() {
    let dedup = DedupResult {
        groups: vec![DuplicateGroup {
            hash: "same".to_string(),
            total_size: 20,
            files: vec![
                file(r"E:\Videos\clip_a.mp4", Some("mp4")),
                file(r"E:\Backup\clip_a.mp4", Some("mp4")),
            ],
            suggested_keep: Some(r"E:\Backup\clip_a.mp4".to_string()),
        }],
        failures: Vec::<PathIssue>::new(),
    };

    let suggestions = build_rule_based_suggestions(&empty_analysis(), &dedup);
    assert!(suggestions.iter().any(|item| {
        item.path == r"E:\Backup\clip_a.mp4" && item.action == SuggestedAction::Keep
    }));
    assert!(suggestions.iter().any(|item| {
        item.path == r"E:\Videos\clip_a.mp4"
            && item.action == SuggestedAction::Review
            && item.risk == RiskLevel::Medium
    }));
}

#[test]
fn ai_cannot_override_high_risk_review_to_delete() {
    let merged = merge_ai_suggestions(
        &vec![suggestion(r"E:\project\README.md", SuggestedAction::Review, RiskLevel::High, "本地规则")],
        &vec![suggestion(r"E:\project\README.md", SuggestedAction::Delete, RiskLevel::Low, "AI 想删")],
    );

    assert_eq!(merged.len(), 1);
    assert_eq!(merged[0].action, SuggestedAction::Review);
    assert_eq!(merged[0].risk, RiskLevel::High);
}

#[test]
fn ai_can_downgrade_delete_to_review() {
    let merged = merge_ai_suggestions(
        &vec![suggestion(
            r"E:\Downloads\old_installer.zip",
            SuggestedAction::Delete,
            RiskLevel::Low,
            "本地规则",
        )],
        &vec![suggestion(
            r"E:\Downloads\old_installer.zip",
            SuggestedAction::Review,
            RiskLevel::Medium,
            "AI 建议再确认",
        )],
    );

    assert_eq!(merged.len(), 1);
    assert_eq!(merged[0].action, SuggestedAction::Review);
    assert_eq!(merged[0].risk, RiskLevel::Medium);
    assert_eq!(merged[0].reason, "AI 建议再确认");
}

#[test]
fn builds_compatible_endpoint_for_root_base_url() {
    assert_eq!(
        build_compatible_endpoint("https://api.openai.com", "models"),
        "https://api.openai.com/v1/models"
    );
}

#[test]
fn builds_compatible_endpoint_for_v1_base_url() {
    assert_eq!(
        build_compatible_endpoint("https://www.packyapi.com/v1/", "chat/completions"),
        "https://www.packyapi.com/v1/chat/completions"
    );
}

#[test]
fn normalizes_model_ids_from_mixed_entries() {
    let models = normalize_model_ids(vec![
        ModelEntry::WithId { id: "gpt-4.1-mini".to_string() },
        ModelEntry::WithName { name: "custom-model".to_string() },
        ModelEntry::Plain("gpt-4.1-mini".to_string()),
        ModelEntry::Plain(" ".to_string()),
    ]);

    assert_eq!(models, vec!["custom-model".to_string(), "gpt-4.1-mini".to_string()]);
}

#[test]
fn formats_bytes_with_human_readable_units() {
    assert_eq!(format_bytes_human(999), "999 B");
    assert_eq!(format_bytes_human(2048), "2.0 KB");
    assert_eq!(format_bytes_human(399145), "389.8 KB");
    assert_eq!(format_bytes_human(5 * 1024 * 1024), "5.0 MB");
}

#[test]
fn formats_gigabytes_with_two_decimals() {
    assert_eq!(format_bytes_human(1024 * 1024 * 1024), "1.00 GB");
    assert_eq!(format_bytes_human(3 * 512 * 1024 * 1024), "1.50 GB");
    assert_eq!(format_bytes_human(u64::MAX), format!("{:.2} GB", (u64::MAX as f64) / (1024.0 * 1024.0 * 1024.0)));
}

#[test]
fn formats_sizes_like_float_rendering() {
    for bytes in [1024u64, 1075, 1126, 1587, 10239, 1048575, 1048576, 1153433, 987654321, 1073741823] {
        let expected = if bytes < 1024 * 1024 {
            format!("{:.1} KB", bytes as f64 / 1024.0)
        } else if bytes < 1024 * 1024 * 1024 {
            format!("{:.1} MB", bytes as f64 / (1024.0 * 1024.0))
        } else {
            format!("{:.2} GB", bytes as f64 / (1024.0 * 1024.0 * 1024.0))
        };
        assert_eq!(format_bytes_human(bytes), expected);
    }
}

#[test]
fn failed_review_falls_back_to_local_rules() {
    let analysis = empty_analysis();
    let dedup = DedupResult { groups: Vec::new(), failures: Vec::new() };
    let local = vec![suggestion(r"C:\tmp\a.tmp", SuggestedAction::Delete, RiskLevel::Low, "temp")];
    let fallback = advice_after_review(&analysis, &dedup, local.clone(), None, "gpt-x");
    assert_eq!(fallback.source, "local_rules");
    assert_eq!(fallback.suggestions.len(), 1);
    assert_eq!(fallback.suggestions[0].path, local[0].path);
    assert!(!fallback.summary.is_empty());
    let reply = ReviewReply {
        summary: "  远程摘要  ".to_string(),
        suggestions: vec![suggestion(r"C:\tmp\a.tmp", SuggestedAction::Review, RiskLevel::Medium, "check")],
    };
    let remote = advice_after_review(&analysis, &dedup, local.clone(), Some(reply), "gpt-x");
    assert_eq!(remote.source, "remote:gpt-x");
    assert_eq!(remote.summary, "远程摘要");
    assert_eq!(remote.suggestions.len(), 1);
    assert_eq!(remote.suggestions[0].action, SuggestedAction::Review);
    assert_eq!(remote.suggestions[0].risk, RiskLevel::Medium);
}
