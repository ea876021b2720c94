use smart_disk_cleaner::migration_run::{
    close_process_log, env_restored_log, env_set_log, file_restored_log, link_log, link_removed_log,
    moved_log, verify_log, yaml_rehearsed_log, yaml_updated_log, env_rehearsed_log, CloseOutcome,
};
use smart_disk_cleaner::models::{DiagnosticCode, ExecutionMode, Timestamp};
use smart_disk_cleaner::order::{path_starts_with_exec, same_path_exec};
use smart_disk_cleaner::paths::{components_of, file_name_of};
use smart_disk_cleaner::platform::normalize_path;

fn text(cs: &[char]) -> String {
    cs.iter().collect()
}

fn comps(p: &str) -> Vec<String> {
    components_of(p).iter().map(|c| text(c)).collect()
}

#[test]
fn inner_current_dir_is_no_component() {
    assert!(same_path_exec("a/./b", "a/b"));
    assert!(same_path_exec("/x/./y/.", "/x/y"));
    assert_eq!(comps("a/./b"), vec!["a".to_string(), "b".to_string()]);
    assert_eq!(comps("/./a"), vec!["\\".to_string(), "a".to_string()]);
    assert!(path_starts_with_exec("a/./b/c", "a/b"));
}

#[test]
fn leading_current_dir_of_a_relative_path_stays() {
    assert_eq!(comps("./a"), vec![".".to_string(), "a".to_string()]);
    assert_eq!(comps("C:./x"), vec!["C:".to_string(), ".".to_string(), "x".to_string()]);
    assert!(!same_path_exec("./a", "a"));
    assert!(same_path_exec("././a", "./a"));
}

#[test]
fn file_name_skips_current_dir() {
    assert_eq!(file_name_of("dir/.").map(|n| text(&n)), Some("dir".to_string()));
    assert_eq!(file_name_of("."), None);
    assert_eq!(file_name_of("./"), None);
    assert_eq!(file_name_of("a/.."), None);
    assert_eq!(file_name_of("a/b.txt").map(|n| text(&n)), Some("b.txt".to_string()));
}

#[test]
fn normalized_path_is_stable() {
    let once = normalize_path("C:\\Users\\ABC\\Ünï.TXT");
    assert_eq!(once, "c:/users/abc/Ünï.txt");
    assert_eq!(normalize_path(&once), once);
    assert_eq!(once.len(), "C:\\Users\\ABC\\Ünï.TXT".len());
    assert!(!once.contains('\\'));
}

#[test]
fn migration_step_logs_are_moves() {
    let at = Timestamp { secs: 3, nanos: 0 };
    let done = CloseOutcome::Done { stdout: String::new() };
    let logs = vec![
        moved_log(at, "C:/a", "D:/a"),
        verify_log(at, "D:/a", false, true),
        yaml_rehearsed_log(at, "C:/c.yml", "root"),
        yaml_updated_log(at, "C:/c.yml"),
        env_rehearsed_log(at, "HOME", "D:/h"),
        env_set_log(at, "HOME", false),
        link_log(at, "C:/a", "D:/a", false, false, false),
        file_restored_log(at, "C:/c.yml", true),
        env_restored_log(at, "HOME", true),
        link_removed_log(at, "C:/a", true, true),
        close_process_log(at, "app", false, &done),
    ];
    for l in &logs {
        assert_eq!(l.mode, ExecutionMode::Move);
    }
}

#[test]
fn failed_steps_carry_the_plain_diagnosis() {
    let at = Timestamp { secs: 3, nanos: 0 };
    let l = verify_log(at, "D:/a", false, false);
    let d = l.diagnosis.expect("a diagnosis");
    assert_eq!(d.code, DiagnosticCode::NotFound);
    assert_eq!(d.details, vec![d.summary.clone()]);
    assert_eq!(d.suggestions, vec!["请检查迁移计划、目标路径和相关程序状态后重试。".to_string()]);
    assert!(d.possible_related_apps.is_empty());
    assert_eq!(d.error_kind, None);
    assert_eq!(d.raw_os_error, None);

    let failed = CloseOutcome::Failed { stderr: "  denied \n".to_string() };
    let l = close_process_log(at, "app", false, &failed);
    assert_eq!(l.detail, "关闭进程 app 失败：denied");
    let d = l.diagnosis.expect("a diagnosis");
    assert_eq!(d.path, ".");
    assert_eq!(d.details, vec!["无法自动关闭进程 app。".to_string()]);
    assert_eq!(d.suggestions.len(), 1);
    assert_eq!(d.error_kind, None);
}
