use smart_disk_cleaner::dedup::{
    cached_hash, hashed_entry, hashed_whole, size_buckets, sort_prefiltered, DedupCollector, DedupSearch, HashCache,
    HashCacheEntry, HashedFileEntry, PrefilterOutcome, PARTIAL_HASH_WINDOW_BYTES,
};
use smart_disk_cleaner::diagnostics::DiagnosticOperation;
use smart_disk_cleaner::executor::{
    classify_recycle_error, destination_candidate, clearance_for, message_only, move_step, move_target, outcome_log, prepare_move,
    recycle_step, refusal_log, MoveStep, PathClearance, RecycleErrorClass, RecycleStep,
};
use smart_disk_cleaner::hashing::{le_bytes_of, partial_signature, root_cache_key, ContentHash};
use smart_disk_cleaner::migration_advice::{
    build_migration_advice, build_summary, default_target_root, is_download_archive_candidate,
    is_one_click_candidate,
};
use smart_disk_cleaner::models::{
    AdvisorOutput, AnalysisResult, DedupResult, DiagnosticCode, ExecutionMode, FileRecord, FileSuggestion,
    RiskLevel, ScanReport, SuggestedAction, Timestamp,
};
use smart_disk_cleaner::scanner::{build_exclude_matcher, check_scan_root, is_excluded, ScanWalk, WalkEntry};

fn lower_extension(path: &str) -> Option<String> {
    let name = path.rsplit(|c| c == '/' || c == '\\').next().unwrap_or("");
    match name.rfind('.') {
        Some(i) if i > 0 => Some(name[i + 1..].to_ascii_lowercase()),
        _ => None,
    }
}

fn file(path: &str, size: u64) -> FileRecord {
    FileRecord {
        path: path.to_string(),
        size,
        extension: lower_extension(path),
        modified_at: None,
        is_empty: size == 0,
    }
}

fn report_with(root: &str, files: Vec<FileRecord>) -> ScanReport {
    ScanReport {
        generated_at: Timestamp { secs: 0, nanos: 0 },
        scan_duration_ms: 0,
        root: root.to_string(),
        scanned_files: files,
        analysis: AnalysisResult {
            total_files: 0,
            total_size: 0,
            empty_files: Vec::new(),
            empty_dirs: Vec::new(),
            large_files: Vec::new(),
            temporary_files: Vec::new(),
            archive_files: Vec::new(),
            type_breakdown: Vec::new(),
        },
        dedup: DedupResult { groups: Vec::new(), failures: Vec::new() },
        modules: Vec::new(),
        advisor: AdvisorOutput { source: "local_rules".to_string(), summary: String::new(), suggestions: Vec::new() },
        failures: Vec::new(),
    }
}

#[test]
fn surfaces_wechat_and_conda_opportunities() {
    let report = report_with(
        r"C:\Users\demo",
        vec![
            file(r"C:\Users\demo\Documents\WeChat Files\wxid_1\FileStorage\Video\clip.mp4", 1024),
            file(r"C:\Users\demo\Miniconda3\pkgs\python-3.11.egg-info\record.json", 2048),
            file(r"C:\Users\demo\Miniconda3\envs\data\python.exe", 4096),
        ],
    );
    let default_root = default_target_root(false, None);
    let advice = build_migration_advice(&report, Some(r"E:\Archive"), &default_root);
    assert!(advice.opportunities.iter().any(|item| item.title.contains("微信数据目录")));
    assert!(advice.opportunities.iter().any(|item| item.title.contains("Conda 包缓存")));
    assert!(advice.opportunities.iter().any(|item| item.title.contains("Conda 环境目录")));
}

#[test]
fn keeps_system_files_out_of_one_click_candidates() {
    let report = report_with(
        r"C:\Users\demo",
        vec![
            file(r"C:\Windows\Temp\huge.iso", 800 * 1024 * 1024),
            file(r"C:\Users\demo\Downloads\movie.mkv", 900 * 1024 * 1024),
        ],
    );
    let default_root = default_target_root(false, None);
    let advice = build_migration_advice(&report, None, &default_root);
    assert_eq!(advice.opportunities.iter().filter(|item| !item.one_click_paths.is_empty()).count(), 1);
    assert!(advice.opportunities.iter().all(|item| item.source_path != r"C:\Windows\Temp\huge.iso"));
}

#[test]
fn wechat_opportunity_targets_app_data_under_target_root() {
    let report = report_with(
        r"C:\Users\demo",
        vec![file(r"C:\Users\demo\Documents\WeChat Files\wxid_1\a.dat", 1024)],
    );
    let advice = build_migration_advice(&report, Some(r"E:\Archive"), r"D:\SmartDiskCleanerMigration");
    assert_eq!(advice.opportunities.len(), 1);
    let o = &advice.opportunities[0];
    assert_eq!(o.id, r"wechat:C:\Users\demo\Documents\WeChat Files");
    assert_eq!(o.source_path, r"C:\Users\demo\Documents\WeChat Files");
    assert_eq!(o.recommended_target_dir, r"E:\Archive\app-data");
    assert_eq!(o.recommended_target_path, r"E:\Archive\app-data\WeChat Files");
    assert_eq!(o.estimated_size, 1024);
    assert_eq!(advice.plans.len(), 1);
    assert_eq!(advice.plans[0].id, format!("plan:{}", o.id));
    assert!(advice.summary.starts_with("已识别 1 个迁移机会，预计涉及 1.0 KB。"));
}

#[test]
fn one_click_file_moves_below_files_folder() {
    let report = report_with(
        r"C:\Users\demo",
        vec![file(r"C:\Users\demo\Downloads\setup.zip", 200 * 1024 * 1024)],
    );
    let advice = build_migration_advice(&report, Some(""), r"D:\SmartDiskCleanerMigration");
    assert_eq!(advice.opportunities.len(), 1);
    let o = &advice.opportunities[0];
    assert_eq!(o.category, smart_disk_cleaner::models::MigrationCategory::DownloadArchives);
    assert_eq!(o.risk, RiskLevel::Low);
    assert_eq!(o.id, r"download_archive:C:\Users\demo\Downloads\setup.zip");
    assert_eq!(o.title, "迁移 setup.zip");
    assert_eq!(o.recommended_target_path, r"D:\SmartDiskCleanerMigration\files\Users\demo\Downloads\setup.zip");
    assert_eq!(o.recommended_target_dir, r"D:\SmartDiskCleanerMigration\files\Users\demo\Downloads");
    assert_eq!(o.one_click_paths, vec![r"C:\Users\demo\Downloads\setup.zip".to_string()]);
}

#[test]
fn one_click_rules_need_size_place_and_kind() {
    assert!(is_download_archive_candidate(r"C:\Users\demo\Downloads\a.ZIP", 128 * 1024 * 1024));
    assert!(!is_download_archive_candidate(r"C:\Users\demo\Downloads\a.zip", 128 * 1024 * 1024 - 1));
    assert!(!is_download_archive_candidate(r"C:\Users\demo\Music\a.zip", 200 * 1024 * 1024));
    assert!(is_one_click_candidate(r"C:\Users\demo\Videos\film.mp4", 256 * 1024 * 1024));
    assert!(!is_one_click_candidate(r"C:\Users\demo\Videos\film.mp4", 256 * 1024 * 1024 - 1));
    assert!(!is_one_click_candidate(r"C:\Users\demo\AppData\Local\film.mp4", 512 * 1024 * 1024));
    assert!(!is_one_click_candidate(r"C:\Users\demo\Miniconda3\film.mp4", 512 * 1024 * 1024));
    assert!(!is_one_click_candidate(r"C:\Users\demo\Videos\notes.txt", 512 * 1024 * 1024));
    assert!(is_one_click_candidate("/Users/demo/Movies/clip.mov", 300 * 1024 * 1024));
}

#[test]
fn empty_advice_has_fixed_summary() {
    let summary = build_summary(&Vec::new());
    assert!(summary.starts_with("当前扫描结果中没有检测到"));
}

#[test]
fn default_target_root_per_platform() {
    assert_eq!(default_target_root(false, Some("/home/x")), r"D:\SmartDiskCleanerMigration");
    assert_eq!(default_target_root(true, Some("/Users/x")), "/Users/x/SmartDiskCleanerMigration");
    assert_eq!(default_target_root(true, None), "/Users/Shared/SmartDiskCleanerMigration");
}

#[test]
fn rejects_keep_or_review_suggestions() {
    let kept_path = r"E:\test\README.md";
    let suggestions = vec![FileSuggestion {
        path: kept_path.to_string(),
        action: SuggestedAction::Keep,
        risk: RiskLevel::Low,
        reason: "保留".to_string(),
    }];
    let at = Timestamp { secs: 0, nanos: 0 };
    let mut logs = Vec::new();
    for path in [kept_path] {
        let clearance = clearance_for(&suggestions, path);
        if let Some(log) = refusal_log(at, path, ExecutionMode::Recycle, true, clearance) {
            logs.push(log);
        }
    }
    assert_eq!(logs.len(), 1);
    assert!(!logs[0].success);
    assert!(logs[0].detail.contains("禁止直接清理"));
}

#[test]
fn clearance_refuses_unlisted_paths_and_allows_delete() {
    let suggestions = vec![
        FileSuggestion { path: r"E:\a\cache.bin".to_string(), action: SuggestedAction::Delete, risk: RiskLevel::Medium, reason: String::new() },
        FileSuggestion { path: r"E:\a\notes.txt".to_string(), action: SuggestedAction::Review, risk: RiskLevel::Low, reason: String::new() },
    ];
    assert_eq!(clearance_for(&suggestions, "E:/a/cache.bin"), PathClearance::Allowed(SuggestedAction::Delete));
    assert_eq!(clearance_for(&suggestions, r"E:\a\notes.txt"), PathClearance::Blocked);
    assert_eq!(clearance_for(&suggestions, r"E:\a\other.txt"), PathClearance::NotListed);
    let at = Timestamp { secs: 5, nanos: 0 };
    let log = refusal_log(at, r"E:\a\other.txt", ExecutionMode::Move, false, PathClearance::NotListed).unwrap();
    assert_eq!(log.detail, "该路径不在建议清单中，已拒绝执行。");
    assert!(refusal_log(at, "x", ExecutionMode::Move, false, PathClearance::Allowed(SuggestedAction::Delete)).is_none());
    let ok = outcome_log(at, "x", ExecutionMode::Recycle, true, Ok("模拟执行：已演练回收操作".to_string()));
    assert!(ok.success);
    let failed = outcome_log(at, "x", ExecutionMode::Recycle, false, Err(message_only("坏了".to_string(), "x", DiagnosticOperation::Recycle)));
    assert!(!failed.success);
    let d = failed.diagnosis.unwrap();
    assert_eq!(d.code, DiagnosticCode::Unknown);
    assert_eq!(d.operation, "recycle");
    assert_eq!(d.details, vec!["坏了".to_string()]);
}

#[test]
fn recycle_errors_are_read_from_their_message() {
    assert!(matches!(classify_recycle_error("The file is being used by another process"), RecycleErrorClass::OsError(32)));
    assert!(matches!(classify_recycle_error("Sharing violation"), RecycleErrorClass::OsError(32)));
    assert!(matches!(classify_recycle_error("LOCK VIOLATION"), RecycleErrorClass::OsError(33)));
    match classify_recycle_error("Access is denied.") {
        RecycleErrorClass::Described(info) => {
            assert_eq!(info.kind_name, "PermissionDenied");
            assert_eq!(info.message, "Access is denied.");
            assert_eq!(info.raw_os_error, None);
        },
        other => panic!("unexpected {:?}", other),
    }
    match classify_recycle_error("cannot find the file") {
        RecycleErrorClass::Described(info) => assert_eq!(info.kind_name, "NotFound"),
        other => panic!("unexpected {:?}", other),
    }
    match classify_recycle_error("boom") {
        RecycleErrorClass::Described(info) => assert_eq!(info.kind_name, "Other"),
        other => panic!("unexpected {:?}", other),
    }
}

#[test]
fn dry_runs_only_rehearse() {
    let path = r"E:\data\a.zip";
    match recycle_step(path, true, true) {
        RecycleStep::Rehearse(d) => assert_eq!(d, "模拟执行：已演练回收操作"),
        other => panic!("unexpected step: {other:?}"),
    }
    assert!(matches!(recycle_step(path, true, false), RecycleStep::Recycle));
    match recycle_step(path, false, false) {
        RecycleStep::Refuse(f) => assert_eq!(f.detail, format!("目标不存在：{path}")),
        other => panic!("unexpected step: {other:?}"),
    }
    match move_step(r"F:\archive\a.zip", true) {
        MoveStep::Rehearse(d) => assert_eq!(d, r"模拟执行：将移动到 F:\archive\a.zip"),
        other => panic!("unexpected step: {other:?}"),
    }
    assert!(matches!(move_step(r"F:\archive\a.zip", false), MoveStep::Rename(d) if d == r"F:\archive\a.zip"));
    assert_eq!(move_target(path, &Some(r"F:\archive".to_string()), true).ok().unwrap(), r"F:\archive");
    assert_eq!(move_target(path, &None, true).err().unwrap().detail, "移动模式需要指定目标目录。");
    assert_eq!(move_target(path, &Some(r"F:\archive".to_string()), false).err().unwrap().detail, format!("目标不存在：{path}"));
}

#[test]
fn destination_names_count_up_with_stem_and_extension() {
    assert_eq!(destination_candidate(r"E:\target", r"C:\data\report.tar.gz", 0).ok().unwrap(), r"E:\target\report.tar.gz");
    assert_eq!(destination_candidate(r"E:\target", r"C:\data\report.tar.gz", 3).ok().unwrap(), r"E:\target\report.tar_3.gz");
    assert_eq!(destination_candidate(r"E:\target\", r"C:\data\README", 12).ok().unwrap(), r"E:\target\README_12");
    let err = destination_candidate(r"E:\target", r"C:\", 0).err().unwrap();
    assert_eq!(err.detail, r"无效的文件名：C:\");
}

#[test]
fn builtin_patterns_skip_build_directories() {
    let matcher = build_exclude_matcher(&[]).ok().unwrap();
    let root = "/tmp/scan-root";
    assert!(!is_excluded(root, root, &matcher));
    assert!(!is_excluded("/tmp/scan-root/docs/keep.txt", root, &matcher));
    assert!(is_excluded("/tmp/scan-root/.cargo-target/smart-disk-cleaner", root, &matcher));
    assert!(is_excluded("/tmp/scan-root/project/node_modules/x.js", root, &matcher));
}

#[test]
fn user_patterns_skip_matching_directories() {
    let matcher = build_exclude_matcher(&["  **/archive/**  ".to_string(), "   ".to_string()]).ok().unwrap();
    let root = "/tmp/scan-root";
    assert!(is_excluded("/tmp/scan-root/archive/old.zip", root, &matcher));
    assert!(!is_excluded("/tmp/scan-root/notes/keep.txt", root, &matcher));
}

#[test]
fn invalid_user_pattern_is_reported() {
    assert!(build_exclude_matcher(&["a[".to_string()]).is_err());
}

#[test]
fn walk_records_files_directories_and_failures() {
    let mut walk = ScanWalk::new();
    let root = "/tmp/r";
    assert!(walk.record(root, WalkEntry::Directory { path: "/tmp/r".to_string(), listing: Ok(false) }).is_none());
    walk.record(root, WalkEntry::File { path: "/tmp/r/A.TXT".to_string(), size: 4, modified_at: None });
    walk.record(root, WalkEntry::File { path: "/tmp/r/empty".to_string(), size: 0, modified_at: None });
    walk.record(root, WalkEntry::Directory { path: "/tmp/r/e".to_string(), listing: Ok(true) });
    walk.record(root, WalkEntry::Directory { path: "/tmp/r/locked".to_string(), listing: Err("denied".to_string()) });
    walk.record(root, WalkEntry::MetadataFailed { path: "/tmp/r/x".to_string(), message: "gone".to_string() });
    walk.record(root, WalkEntry::WalkFailed { path: None, message: "loop".to_string() });
    let (progress, result) = walk.finish(root);
    assert_eq!(progress.phase, "done");
    assert_eq!(progress.files_found, 2);
    assert_eq!(progress.dirs_visited, 3);
    assert_eq!(progress.bytes_found, 4);
    assert_eq!(result.files[0].extension.as_deref(), Some("txt"));
    assert!(result.files[1].is_empty);
    assert_eq!(result.empty_dirs, vec!["/tmp/r/e".to_string()]);
    assert_eq!(result.failures.len(), 3);
    assert_eq!(result.failures[0].message, "failed to read directory: denied");
    assert_eq!(result.failures[1].message, "failed to read metadata: gone");
    assert_eq!(result.failures[2].path, "/tmp/r");
    assert_eq!(check_scan_root("/nope", false, false).err().unwrap(), "scan path does not exist: /nope");
    assert_eq!(check_scan_root("/f", true, false).err().unwrap(), "scan path is not a directory: /f");
    assert!(check_scan_root("/d", true, true).is_ok());
}

#[test]
fn walk_reports_progress_every_hundred_entries() {
    let mut walk = ScanWalk::new();
    let mut reports = 0;
    for i in 0..250u64 {
        if walk.record("/r", WalkEntry::Other { path: format!("/r/{i}") }).is_some() {
            reports += 1;
        }
    }
    assert_eq!(reports, 2);
}

#[test]
fn content_hash_matches_blake3_of_all_bytes() {
    let mut h = ContentHash::new();
    h.update(b"hello ");
    h.update(b"world");
    assert_eq!(h.hex(), blake3::hash(b"hello world").to_hex().to_string());
    assert_eq!(root_cache_key("E:/data"), blake3::hash(b"E:/data").to_hex().to_string());
    assert_eq!(le_bytes_of(0x0102030405060708), vec![8, 7, 6, 5, 4, 3, 2, 1]);
    let mut sample = b"head".to_vec();
    sample.extend_from_slice(&300u64.to_le_bytes());
    sample.extend_from_slice(b"tail");
    assert_eq!(partial_signature(b"head", 300, b"tail"), blake3::hash(&sample).to_hex().to_string());
}

fn hashed(path: &str, size: u64, hash: &str) -> HashedFileEntry {
    HashedFileEntry {
        file: file(path, size),
        size,
        modified_at: None,
        hash: hash.to_string(),
        cached_at: Timestamp { secs: 1, nanos: 0 },
    }
}

#[test]
fn prefiltering_keeps_only_shared_hashes_and_samples() {
    let outcomes = vec![
        PrefilterOutcome::Exact(hashed("/a", 10, "h1")),
        PrefilterOutcome::Exact(hashed("/b", 10, "h2")),
        PrefilterOutcome::Exact(hashed("/c", 10, "h1")),
        PrefilterOutcome::Partial { file: file("/d", 10), signature: "s".to_string() },
        PrefilterOutcome::Partial { file: file("/e", 10), signature: "s".to_string() },
        PrefilterOutcome::Partial { file: file("/f", 10), signature: "t".to_string() },
        PrefilterOutcome::Failed { path: "/g".to_string(), message: "io".to_string() },
    ];
    let (ready, candidates, failures) = sort_prefiltered(outcomes);
    let ready_paths: Vec<&str> = ready.iter().map(|e| e.file.path.as_str()).collect();
    assert_eq!(ready_paths, vec!["/a", "/c"]);
    let cand_paths: Vec<&str> = candidates.iter().map(|f| f.path.as_str()).collect();
    assert_eq!(cand_paths, vec!["/d", "/e"]);
    assert_eq!(failures[0].message, "failed to sample file for duplicate detection: io");
}

#[test]
fn size_buckets_need_two_files_of_a_size() {
    let files = vec![file("/a", 5), file("/b", 5), file("/c", 7), file("/d", 0), file("/e", 0)];
    let buckets = size_buckets(&files);
    assert_eq!(buckets.len(), 1);
    assert_eq!(buckets[0].key, "5");
    assert_eq!(buckets[0].files.len(), 2);
}

#[test]
fn cached_hash_needs_matching_size_and_time() {
    let stamp = Some(Timestamp { secs: 9, nanos: 0 });
    let cache = HashCache {
        entries: vec![HashCacheEntry {
            path: "/a".to_string(),
            size: 10,
            modified_at: stamp,
            hash: "abc".to_string(),
            cached_at: Timestamp { secs: 1, nanos: 0 },
        }],
    };
    let mut f = file("/a", 10);
    f.modified_at = stamp;
    let now = Timestamp { secs: 50, nanos: 0 };
    let hit = cached_hash(&cache, &f, now).unwrap();
    assert_eq!(hit.hash, "abc");
    assert_eq!(hit.cached_at, now);
    f.size = 11;
    assert!(cached_hash(&cache, &f, now).is_none());
}

#[test]
fn collector_groups_equal_hashes_largest_first() {
    let ready = vec![hashed("/a", 10, "x"), hashed("/b", 10, "x")];
    let mut c = DedupCollector::new(ready, Vec::new(), 3);
    c.record(&file("/c", 30), Ok(hashed("/c", 30, "y")));
    c.record(&file("/d", 30), Ok(hashed("/d", 30, "y")));
    let p = c.record(&file("/e", 30), Err("denied".to_string())).unwrap();
    assert_eq!(p.files_hashed, 3);
    let (result, cache, done) = c.finish();
    assert_eq!(result.groups.len(), 2);
    assert_eq!(result.groups[0].hash, "y");
    assert_eq!(result.groups[0].total_size, 60);
    assert_eq!(result.groups[1].total_size, 20);
    assert_eq!(result.failures[0].message, "failed to hash file: denied");
    assert_eq!(cache.entries.len(), 4);
    assert_eq!(done.phase, "done");
}

/// Walks a tree given in walk order, skipping what the matcher excludes
/// together with everything below an excluded directory.
fn walk_tree(root: &str, patterns: &[String], entries: &[(&str, Option<u64>)]) -> Vec<String> {
    let matcher = build_exclude_matcher(patterns).ok().unwrap();
    let mut walk = ScanWalk::new();
    let mut skipped: Vec<String> = Vec::new();
    for (path, size) in entries {
        if skipped.iter().any(|d| path.starts_with(&format!("{d}/"))) {
            continue;
        }
        if is_excluded(path, root, &matcher) {
            if size.is_none() {
                skipped.push(path.to_string());
            }
            continue;
        }
        let entry = match size {
            Some(n) => WalkEntry::File { path: path.to_string(), size: *n, modified_at: None },
            None => WalkEntry::Directory { path: path.to_string(), listing: Ok(false) },
        };
        walk.record(root, entry);
    }
    let (_, scan) = walk.finish(root);
    scan.files.into_iter().map(|f| f.path).collect()
}

#[test]
fn skips_builtin_cache_and_build_directories() {
    let root = "/tmp/sdc-scanner-builtin";
    let files = walk_tree(
        root,
        &[],
        &[
            (root, None),
            ("/tmp/sdc-scanner-builtin/docs", None),
            ("/tmp/sdc-scanner-builtin/docs/keep.txt", Some(4)),
            ("/tmp/sdc-scanner-builtin/.cargo-target", None),
            ("/tmp/sdc-scanner-builtin/.cargo-target/smart-disk-cleaner", None),
            ("/tmp/sdc-scanner-builtin/.cargo-target/smart-disk-cleaner/artifact.lib", Some(8)),
        ],
    );
    assert_eq!(files.len(), 1);
    assert!(files.iter().all(|f| f.ends_with("keep.txt")));
}

#[test]
fn skips_user_defined_patterns() {
    let root = "/tmp/sdc-scanner-custom";
    let files = walk_tree(
        root,
        &["**/archive/**".to_string()],
        &[
            (root, None),
            ("/tmp/sdc-scanner-custom/notes", None),
            ("/tmp/sdc-scanner-custom/notes/keep.txt", Some(4)),
            ("/tmp/sdc-scanner-custom/archive", None),
            ("/tmp/sdc-scanner-custom/archive/old.zip", Some(3)),
        ],
    );
    assert_eq!(files.len(), 1);
    assert!(files.iter().all(|f| f.ends_with("keep.txt")));
}

fn content_hex(bytes: &[u8]) -> String {
    let mut h = ContentHash::new();
    h.update(bytes);
    h.hex()
}

/// Duplicate detection over files held in memory, as the program runs it
/// over files on disk.
fn dedup_in_memory(files: &[(FileRecord, Vec<u8>)]) -> DedupResult {
    let at = Timestamp { secs: 1, nanos: 0 };
    let records: Vec<FileRecord> = files.iter().map(|(f, _)| f.clone()).collect();
    let bytes_of = |path: &str| files.iter().find(|(f, _)| f.path == path).map(|(_, b)| b.clone()).unwrap();
    let window = PARTIAL_HASH_WINDOW_BYTES as usize;
    let mut ready = Vec::new();
    let mut candidates = Vec::new();
    let mut failures = Vec::new();
    for bucket in size_buckets(&records) {
        let outcomes: Vec<PrefilterOutcome> = bucket
            .files
            .iter()
            .map(|f| {
                let b = bytes_of(&f.path);
                if hashed_whole(f.size) {
                    PrefilterOutcome::Exact(hashed_entry(f, content_hex(&b), at))
                } else {
                    let tail_start = b.len() - window;
                    let signature = partial_signature(&b[..window], f.size, &b[tail_start..]);
                    PrefilterOutcome::Partial { file: f.clone(), signature }
                }
            })
            .collect();
        let (exact, partial, issues) = sort_prefiltered(outcomes);
        ready.extend(exact);
        candidates.extend(partial);
        failures.extend(issues);
    }
    let mut collector = DedupCollector::new(ready, failures, candidates.len());
    for f in &candidates {
        let entry = hashed_entry(f, content_hex(&bytes_of(&f.path)), at);
        collector.record(f, Ok(entry));
    }
    collector.finish().0
}

#[test]
fn finds_large_duplicates_after_partial_prefilter() {
    let window = PARTIAL_HASH_WINDOW_BYTES as usize;
    let mut shared = vec![b'A'; window];
    shared.extend(vec![b'B'; window]);
    shared.extend(vec![b'C'; window]);
    let mut unique_bytes = shared.clone();
    unique_bytes[window..2 * window].fill(b'Z');
    let size = shared.len() as u64;
    let a = file("/tmp/large-dupes/a.bin", size);
    let b = file("/tmp/large-dupes/b.bin", size);
    let c = file("/tmp/large-dupes/c.bin", size);
    let result = dedup_in_memory(&[(a.clone(), shared.clone()), (b.clone(), shared), (c.clone(), unique_bytes)]);
    assert_eq!(result.groups.len(), 1);
    assert_eq!(result.groups[0].files.len(), 2);
    assert!(result.groups[0].files.iter().any(|f| f.path == a.path));
    assert!(result.groups[0].files.iter().any(|f| f.path == b.path));
    assert!(!result.groups[0].files.iter().any(|f| f.path == c.path));
}

#[test]
fn does_not_mark_same_size_large_files_as_duplicates_when_hash_differs() {
    let window = PARTIAL_HASH_WINDOW_BYTES as usize;
    let left_bytes = vec![b'A'; window * 3];
    let mut right_bytes = left_bytes.clone();
    right_bytes[window..window * 2].fill(b'Q');
    let size = left_bytes.len() as u64;
    let result = dedup_in_memory(&[
        (file("/tmp/same-size/left.bin", size), left_bytes),
        (file("/tmp/same-size/right.bin", size), right_bytes),
    ]);
    assert!(result.groups.is_empty());
}

#[test]
fn still_allows_delete_suggestions_in_dry_run() {
    let path = "/tmp/smart_disk_cleaner_executor_actionable/cache.bin";
    let suggestions = vec![FileSuggestion {
        path: path.to_string(),
        action: SuggestedAction::Delete,
        risk: RiskLevel::Medium,
        reason: "删除".to_string(),
    }];
    let at = Timestamp { secs: 1, nanos: 0 };
    let clearance = clearance_for(&suggestions, path);
    assert!(refusal_log(at, path, ExecutionMode::Recycle, true, clearance).is_none());
    let outcome = match recycle_step(path, true, true) {
        RecycleStep::Rehearse(detail) => Ok(detail),
        RecycleStep::Refuse(f) => Err(f),
        RecycleStep::Recycle => panic!("a dry run must not recycle"),
    };
    let logs = vec![outcome_log(at, path, ExecutionMode::Recycle, true, outcome)];
    assert_eq!(logs.len(), 1);
    assert!(logs[0].success);
    assert!(logs[0].detail.contains("模拟执行"));
}

#[test]
fn cancelled_scans_and_searches_fail() {
    let mut walk = ScanWalk::new();
    let r = walk.record_checked("/r", WalkEntry::File { path: "/r/a".to_string(), size: 3, modified_at: None }, true);
    assert_eq!(r.err().unwrap(), "scan cancelled by user");
    assert!(walk.files.is_empty());
    assert!(walk.record_checked("/r", WalkEntry::File { path: "/r/a".to_string(), size: 3, modified_at: None }, false).is_ok());
    assert_eq!(walk.bytes_found, 3);
    let pending = DedupCollector::new(Vec::new(), Vec::new(), 2);
    assert_eq!(pending.finish_checked(true).err().unwrap(), "dedup cancelled by user");
    let nothing_left = DedupCollector::new(vec![hashed("/a", 1, "x"), hashed("/b", 1, "x")], Vec::new(), 0);
    assert_eq!(nothing_left.finish_checked(true).ok().unwrap().0.groups.len(), 1);
}

#[test]
fn search_rounds_carry_samples_into_hashing() {
    let mut search = DedupSearch::new();
    search.record_bucket(vec![
        PrefilterOutcome::Exact(hashed("/a", 10, "h")),
        PrefilterOutcome::Exact(hashed("/b", 10, "h")),
        PrefilterOutcome::Failed { path: "/c".to_string(), message: "io".to_string() },
    ]);
    search.record_bucket(vec![
        PrefilterOutcome::Partial { file: file("/d", 300_000), signature: "s".to_string() },
        PrefilterOutcome::Partial { file: file("/e", 300_000), signature: "s".to_string() },
    ]);
    let (collector, candidates) = search.start_hashing();
    assert_eq!(collector.entries.len(), 2);
    assert_eq!(collector.failures.len(), 1);
    assert_eq!(collector.total, 2);
    assert_eq!(candidates.iter().map(|f| f.path.as_str()).collect::<Vec<_>>(), vec!["/d", "/e"]);
}

#[test]
fn dry_run_moves_create_no_directory() {
    let target = Some(r"F:\archive".to_string());
    let rehearsal = prepare_move(r"E:\a.zip", &target, true, true).ok().unwrap();
    assert_eq!(rehearsal.target_dir, r"F:\archive");
    assert!(!rehearsal.create_target_dir);
    assert!(prepare_move(r"E:\a.zip", &target, true, false).ok().unwrap().create_target_dir);
    assert!(prepare_move(r"E:\a.zip", &None, true, true).is_err());
}
