//! Carrying out cleanup on the paths a report suggests: which paths may be
//! touched, where a moved file lands, and what each attempt is logged as.
//! The file operations themselves (recycling, renaming, copying) are done
//! by the caller, which hands the outcome back.

use vstd::prelude::*;
use crate::diagnostics::{diagnose_io_error, operation_name, related_apps, io_outcome, io_details, DiagnosticOperation, IoErrorInfo};
use crate::models::{DiagnosticCode, DiagnosticSeverity, ExecutionMode, FileSuggestion, OperationLogEntry, PathDiagnosis, SuggestedAction, Timestamp};
use crate::order::same_path_exec;
use crate::paths::{extension, extension_of, file_name, file_name_of, file_stem, file_stem_of, same_path};
use crate::scan_view::{path_join, path_join_exec};
use crate::text::{append_chars, append_str, chars_of, contains, decimal, lower, owned, push_decimal, string_of, string_views, to_lower, contains_lit};

verus! {

/// What the caller asked for: the report to act on, how to act, on which
/// paths, where moved files go, and whether only to rehearse.
#[derive(Clone, Debug)]
pub struct ExecuteOptions {
    pub report_path: String,
    pub mode: ExecutionMode,
    pub paths: Vec<String>,
    pub target_dir: Option<String>,
    pub dry_run: bool,
}

/// Why a path may or may not be acted on.
#[derive(Clone, Copy, Debug, PartialEq, Eq, Structural)]
pub enum PathClearance {
    /// The report suggests nothing for the path.
    NotListed,
    /// The report says to keep or review it.
    Blocked,
    /// The report suggests this action.
    Allowed(SuggestedAction),
}

/// The first suggestion for the path, if any.
pub open spec fn suggestion_index(s: Seq<FileSuggestion>, path: Seq<char>) -> int
    decreases s.len(),
{
    if s.len() == 0 {
        -1
    } else if suggestion_index(s.drop_last(), path) >= 0 {
        suggestion_index(s.drop_last(), path)
    } else if same_path(s.last().path@, path) {
        s.len() - 1
    } else {
        -1
    }
}

/// The clearance of a path: not listed, blocked where the first suggestion for
/// it says keep or review, allowed with the suggested action otherwise.
pub open spec fn clearance_of(s: Seq<FileSuggestion>, path: Seq<char>) -> PathClearance {
    let i = suggestion_index(s, path);
    if i < 0 {
        PathClearance::NotListed
    } else {
        match s[i].action {
            SuggestedAction::Keep | SuggestedAction::Review => PathClearance::Blocked,
            a => PathClearance::Allowed(a),
        }
    }
}

proof fn lemma_suggestion_index_bounds(s: Seq<FileSuggestion>, path: Seq<char>)
    ensures
        -1 <= suggestion_index(s, path) < s.len(),
        suggestion_index(s, path) >= 0 ==> same_path(s[suggestion_index(s, path)].path@, path),
    decreases s.len(),
{
    if s.len() > 0 {
        lemma_suggestion_index_bounds(s.drop_last(), path);
    }
}

/// Whether the report lets the path be acted on.
pub fn clearance_for(suggestions: &[FileSuggestion], path: &str) -> (g: PathClearance)
    ensures
        g == clearance_of(suggestions@, path@),
{
    let mut i: usize = 0;
    while i < suggestions.len()
        invariant
            i <= suggestions@.len(),
            suggestion_index(suggestions@.take(i as int), path@) == -1,
        decreases suggestions@.len() - i,
    {
        let ghost t = suggestions@.take(i + 1);
        assert(t.drop_last() =~= suggestions@.take(i as int));
        assert(t.last() == suggestions@[i as int]);
        if same_path_exec(suggestions[i].path.as_str(), path) {
            proof {
                lemma_index_prefix(suggestions@, path@, i + 1);
            }
            return match suggestions[i].action {
                SuggestedAction::Keep | SuggestedAction::Review => PathClearance::Blocked,
                a => PathClearance::Allowed(a),
            };
        }
        i += 1;
    }
    assert(suggestions@.take(suggestions@.len() as int) =~= suggestions@);
    PathClearance::NotListed
}

proof fn lemma_index_prefix(s: Seq<FileSuggestion>, path: Seq<char>, k: int)
    requires
        0 <= k <= s.len(),
        suggestion_index(s.take(k), path) >= 0,
    ensures
        suggestion_index(s, path) == suggestion_index(s.take(k), path),
    decreases s.len() - k,
{
    if k < s.len() {
        assert(s.take(k + 1).drop_last() =~= s.take(k));
        lemma_index_prefix(s, path, k + 1);
    } else {
        assert(s.take(k) =~= s);
    }
}

/// Why an attempt on a path failed, with the diagnosis of the path.
#[derive(Clone, Debug)]
pub struct ExecutionFailure {
    pub detail: String,
    pub diagnosis: PathDiagnosis,
}

/// The advice given with a failure that no I/O error explains.
pub open spec fn retry_advice() -> Seq<char> {
    "请确认路径状态后重试该操作。"@
}

/// A failure known by its message alone: an unknown problem, a warning,
/// whose summary and only detail are the message.
pub fn message_only(detail: String, path: &str, operation: DiagnosticOperation) -> (f: ExecutionFailure)
    ensures
        f.detail == detail,
        f.diagnosis.path@ == path@,
        f.diagnosis.operation@ == operation_name(operation),
        f.diagnosis.code == DiagnosticCode::Unknown,
        f.diagnosis.severity == DiagnosticSeverity::Warning,
        f.diagnosis.summary == detail,
        f.diagnosis.details@ == seq![detail],
        string_views(f.diagnosis.suggestions@) == seq![retry_advice()],
        f.diagnosis.possible_related_apps@.len() == 0,
        f.diagnosis.error_kind is None,
        f.diagnosis.raw_os_error is None,
{
    let mut suggestions: Vec<String> = Vec::new();
    suggestions.push(owned("请确认路径状态后重试该操作。"));
    assert(string_views(suggestions@) =~= seq![retry_advice()]);
    let mut details: Vec<String> = Vec::new();
    details.push(detail.clone());
    assert(details@ =~= seq![detail]);
    ExecutionFailure {
        diagnosis: PathDiagnosis {
            path: owned(path),
            operation: owned(operation.as_str()),
            code: DiagnosticCode::Unknown,
            severity: DiagnosticSeverity::Warning,
            summary: detail.clone(),
            details,
            suggestions,
            possible_related_apps: Vec::new(),
            error_kind: None,
            raw_os_error: None,
        },
        detail,
    }
}

/// A failure explained by an I/O error at `path`.
pub fn from_io_error(detail: String, path: &str, operation: DiagnosticOperation, err: &IoErrorInfo, readonly: bool) -> (f: ExecutionFailure)
    ensures
        f.detail == detail,
        f.diagnosis.path@ == path@,
        f.diagnosis.operation@ == operation_name(operation),
        (f.diagnosis.code, f.diagnosis.severity, f.diagnosis.summary@, string_views(f.diagnosis.suggestions@))
            == io_outcome(*err, readonly),
        string_views(f.diagnosis.details@) == io_details(*err),
        string_views(f.diagnosis.possible_related_apps@) == related_apps(path@),
        f.diagnosis.error_kind == Some(err.kind_name),
        f.diagnosis.raw_os_error == err.raw_os_error,
{
    ExecutionFailure { diagnosis: diagnose_io_error(path, operation, err, readonly), detail }
}

fn text2(a: &str, b: &str) -> (r: String)
    ensures
        r@ == a@ + b@,
{
    let mut v = chars_of(a);
    append_str(&mut v, b);
    string_of(v.as_slice())
}

/// The log text of a path the report does not list.
pub open spec fn not_listed_detail() -> Seq<char> {
    "该路径不在建议清单中，已拒绝执行。"@
}

/// The log text of a path the report says to keep or review.
pub open spec fn blocked_detail() -> Seq<char> {
    "该文件被标记为“保留”或“待审”，系统已禁止直接清理，请先人工确认。"@
}

/// The log entry of a path the clearance refuses, or `None` where it may be
/// acted on.
pub fn refusal_log(at: Timestamp, path: &str, mode: ExecutionMode, dry_run: bool, clearance: PathClearance) -> (r: Option<OperationLogEntry>)
    ensures
        match clearance {
            PathClearance::Allowed(_) => r is None,
            _ => r matches Some(l) && {
                &&& l.at == at && l.path@ == path@ && l.mode == mode && l.dry_run == dry_run
                &&& !l.success
                &&& l.diagnosis is None
                &&& l.detail@ == (if clearance is NotListed { not_listed_detail() } else { blocked_detail() })
            },
        },
{
    let detail = match clearance {
        PathClearance::Allowed(_) => {
            return None;
        },
        PathClearance::NotListed => owned("该路径不在建议清单中，已拒绝执行。"),
        PathClearance::Blocked => owned("该文件被标记为“保留”或“待审”，系统已禁止直接清理，请先人工确认。"),
    };
    Some(OperationLogEntry { at, path: owned(path), mode, dry_run, success: false, detail, diagnosis: None })
}

/// The log entry of an attempt: a success with its detail, or a failure
/// with its detail and diagnosis.
pub fn outcome_log(at: Timestamp, path: &str, mode: ExecutionMode, dry_run: bool, outcome: Result<String, ExecutionFailure>) -> (l: OperationLogEntry)
    ensures
        l.at == at && l.path@ == path@ && l.mode == mode && l.dry_run == dry_run,
        match outcome {
            Ok(detail) => l.success && l.detail == detail && l.diagnosis is None,
            Err(f) => !l.success && l.detail == f.detail && l.diagnosis == Some(f.diagnosis),
        },
{
    match outcome {
        Ok(detail) => OperationLogEntry { at, path: owned(path), mode, dry_run, success: true, detail, diagnosis: None },
        Err(f) => OperationLogEntry {
            at,
            path: owned(path),
            mode,
            dry_run,
            success: false,
            detail: f.detail,
            diagnosis: Some(f.diagnosis),
        },
    }
}

/// The failure of acting on a path that does not exist.
pub fn missing_target(path: &str, operation: DiagnosticOperation) -> (f: ExecutionFailure)
    ensures
        f.detail@ == "目标不存在："@ + path@,
        f.diagnosis.path@ == path@,
        f.diagnosis.operation@ == operation_name(operation),
        f.diagnosis.code == DiagnosticCode::Unknown,
{
    message_only(text2("目标不存在：", path), path, operation)
}

/// The detail of a rehearsed recycle.
pub fn recycle_rehearsed_detail() -> (r: String)
    ensures
        r@ == "模拟执行：已演练回收操作"@,
{
    owned("模拟执行：已演练回收操作")
}

/// The detail of a recycled path.
pub fn recycled_detail() -> (r: String)
    ensures
        r@ == "已移入回收站"@,
{
    owned("已移入回收站")
}

/// How a failed recycle is read from the recycler's message.
#[derive(Clone, Debug)]
pub enum RecycleErrorClass {
    /// It stands for this operating system error code.
    OsError(i32),
    /// It stands for an error of this kind and message.
    Described(IoErrorInfo),
}

/// The kind name and message of a described recycle failure.
pub open spec fn described(kind: Seq<char>, info: IoErrorInfo, message: Seq<char>) -> bool {
    info.raw_os_error is None && info.kind_name@ == kind && info.message@ == message
}

/// How the recycler's message is read, lower-cased: a sharing violation
/// (32), a lock violation (33), a denied permission, a missing path, or
/// another error, the last three keeping the message.
pub open spec fn recycle_class_ok(message: Seq<char>, c: RecycleErrorClass) -> bool {
    let t = lower(message);
    if contains(t, "being used by another process"@) || contains(t, "sharing violation"@) {
        c == RecycleErrorClass::OsError(32)
    } else if contains(t, "lock violation"@) {
        c == RecycleErrorClass::OsError(33)
    } else if contains(t, "access is denied"@) || contains(t, "permission denied"@) {
        c matches RecycleErrorClass::Described(i) && described("PermissionDenied"@, i, message)
    } else if contains(t, "not found"@) || contains(t, "cannot find"@) {
        c matches RecycleErrorClass::Described(i) && described("NotFound"@, i, message)
    } else {
        c matches RecycleErrorClass::Described(i) && described("Other"@, i, message)
    }
}

fn info_of(kind: &str, message: &str) -> (i: IoErrorInfo)
    ensures
        described(kind@, i, message@),
{
    IoErrorInfo { raw_os_error: None, kind_name: owned(kind), message: owned(message) }
}

/// Reads the recycler's error message as an I/O error.
pub fn classify_recycle_error(message: &str) -> (c: RecycleErrorClass)
    ensures
        recycle_class_ok(message@, c),
{
    let t = to_lower(chars_of(message).as_slice());
    let s = t.as_slice();
    if contains_lit(s, "being used by another process") || contains_lit(s, "sharing violation") {
        RecycleErrorClass::OsError(32)
    } else if contains_lit(s, "lock violation") {
        RecycleErrorClass::OsError(33)
    } else if contains_lit(s, "access is denied") || contains_lit(s, "permission denied") {
        RecycleErrorClass::Described(info_of("PermissionDenied", message))
    } else if contains_lit(s, "not found") || contains_lit(s, "cannot find") {
        RecycleErrorClass::Described(info_of("NotFound", message))
    } else {
        RecycleErrorClass::Described(info_of("Other", message))
    }
}

/// The failure of a recycle, with the recycler's message and the I/O error
/// it was read as.
pub fn recycle_failure(path: &str, message: &str, err: &IoErrorInfo, readonly: bool) -> (f: ExecutionFailure)
    ensures
        f.detail@ == "移入回收站失败："@ + message@,
        f.diagnosis.path@ == path@,
        f.diagnosis.operation@ == operation_name(DiagnosticOperation::Recycle),
        (f.diagnosis.code, f.diagnosis.severity, f.diagnosis.summary@, string_views(f.diagnosis.suggestions@))
            == io_outcome(*err, readonly),
{
    from_io_error(text2("移入回收站失败：", message), path, DiagnosticOperation::Recycle, err, readonly)
}

/// The failure of a move without a target directory.
pub fn missing_target_dir(path: &str) -> (f: ExecutionFailure)
    ensures
        f.detail@ == "移动模式需要指定目标目录。"@,
        f.diagnosis.path@ == path@,
        f.diagnosis.operation@ == operation_name(DiagnosticOperation::Move),
{
    message_only(owned("移动模式需要指定目标目录。"), path, DiagnosticOperation::Move)
}

/// The failure of creating the target directory, diagnosed there.
pub fn target_dir_failure(target_dir: &str, err: &IoErrorInfo, readonly: bool) -> (f: ExecutionFailure)
    ensures
        f.detail@ == "创建目标目录失败："@ + target_dir@,
        f.diagnosis.path@ == target_dir@,
        f.diagnosis.operation@ == operation_name(DiagnosticOperation::Move),
        (f.diagnosis.code, f.diagnosis.severity, f.diagnosis.summary@, string_views(f.diagnosis.suggestions@))
            == io_outcome(*err, readonly),
{
    from_io_error(text2("创建目标目录失败：", target_dir), target_dir, DiagnosticOperation::Move, err, readonly)
}

/// How many destination names are tried: the file's own name, then
/// numbered names up to 999.
pub const DESTINATION_ATTEMPTS: u32 = 1000;

/// The numbered name of a file: its stem, `_`, the number, and its
/// extension where it has one.
pub open spec fn numbered_name(stem: Seq<char>, ext: Option<Seq<char>>, index: nat) -> Seq<char> {
    match ext {
        Some(e) => stem + seq!['_'] + decimal(index) + seq!['.'] + e,
        None => stem + seq!['_'] + decimal(index),
    }
}

/// The destination tried at an attempt: the file's own name in the target
/// directory first, then its numbered names; `None` where the source has
/// no file name.
pub open spec fn destination_at(target_dir: Seq<char>, source: Seq<char>, attempt: nat) -> Option<Seq<char>> {
    match file_name(source) {
        None => None,
        Some(n) => if attempt == 0 {
            Some(path_join(target_dir, n))
        } else {
            Some(path_join(target_dir, numbered_name(file_stem(source).unwrap(), extension(source), attempt)))
        },
    }
}

/// The message of a source without a usable file name.
pub open spec fn invalid_name_detail(source: Seq<char>) -> Seq<char> {
    "无效的文件名："@ + source
}

/// The destination a move tries at an attempt, or the failure of a
/// source without a file name.
pub fn destination_candidate(target_dir: &str, source: &str, attempt: u32) -> (r: Result<String, ExecutionFailure>)
    requires
        attempt < DESTINATION_ATTEMPTS,
    ensures
        match r {
            Ok(d) => destination_at(target_dir@, source@, attempt as nat) == Some(d@),
            Err(f) => destination_at(target_dir@, source@, attempt as nat) is None
                && f.detail@ == invalid_name_detail(source@)
                && f.diagnosis.path@ == source@
                && f.diagnosis.operation@ == operation_name(DiagnosticOperation::Move),
        },
{
    let name = match file_name_of(source) {
        Some(n) => n,
        None => {
            return Err(message_only(text2("无效的文件名：", source), source, DiagnosticOperation::Move));
        },
    };
    if attempt == 0 {
        let d = path_join_exec(target_dir, name.as_slice());
        return Ok(string_of(d.as_slice()));
    }
    let stem = match file_stem_of(source) {
        Some(s) => s,
        None => {
            return Err(message_only(text2("无效的文件名：", source), source, DiagnosticOperation::Move));
        },
    };
    let mut numbered = stem;
    numbered.push('_');
    push_decimal(&mut numbered, attempt as u64);
    match extension_of(source) {
        Some(e) => {
            numbered.push('.');
            append_chars(&mut numbered, e.as_slice());
        },
        None => {},
    }
    let d = path_join_exec(target_dir, numbered.as_slice());
    Ok(string_of(d.as_slice()))
}

/// The failure of a move when every destination name is taken.
pub fn too_many_names(target_dir: &str, source: &str) -> (f: ExecutionFailure)
    ensures
        f.detail@ == "目标目录中的同名文件过多："@ + target_dir@,
        f.diagnosis.path@ == source@,
        f.diagnosis.operation@ == operation_name(DiagnosticOperation::Move),
{
    message_only(text2("目标目录中的同名文件过多：", target_dir), source, DiagnosticOperation::Move)
}

/// The detail of a rehearsed move.
pub fn move_rehearsed_detail(destination: &str) -> (r: String)
    ensures
        r@ == "模拟执行：将移动到 "@ + destination@,
{
    text2("模拟执行：将移动到 ", destination)
}

/// The detail of a moved path.
pub fn moved_detail(destination: &str) -> (r: String)
    ensures
        r@ == "已移动到 "@ + destination@,
{
    text2("已移动到 ", destination)
}

/// The failure of a move whose rename and fallback copy both failed; the
/// fallback's I/O error explains it.
pub fn move_failure(path: &str, destination: &str, rename_error: &str, err: &IoErrorInfo, readonly: bool) -> (f: ExecutionFailure)
    ensures
        f.detail@ == "重命名失败且回退移动也失败："@ + path@ + " -> "@ + destination@ + "（"@ + rename_error@ + "）"@,
        f.diagnosis.path@ == path@,
        f.diagnosis.operation@ == operation_name(DiagnosticOperation::Move),
        (f.diagnosis.code, f.diagnosis.severity, f.diagnosis.summary@, string_views(f.diagnosis.suggestions@))
            == io_outcome(*err, readonly),
{
    let mut v = chars_of("重命名失败且回退移动也失败：");
    append_str(&mut v, path);
    append_str(&mut v, " -> ");
    append_str(&mut v, destination);
    append_str(&mut v, "（");
    append_str(&mut v, rename_error);
    append_str(&mut v, "）");
    from_io_error(string_of(v.as_slice()), path, DiagnosticOperation::Move, err, readonly)
}

/// The message of an entry a fallback copy cannot handle.
pub fn unsupported_entry_message(path: &str) -> (r: String)
    ensures
        r@ == "不支持的文件系统项："@ + path@,
{
    text2("不支持的文件系统项：", path)
}

/// What is done with a path that is to be recycled.
#[derive(Debug)]
pub enum RecycleStep {
    /// Nothing is done: the path cannot be recycled.
    Refuse(ExecutionFailure),
    /// Nothing is changed; the detail says what was rehearsed.
    Rehearse(String),
    /// The path goes to the recycle bin.
    Recycle,
}

/// The step of recycling `path`: refused where it does not exist,
/// rehearsed in a dry run, carried out otherwise.
pub fn recycle_step(path: &str, exists: bool, dry_run: bool) -> (r: RecycleStep)
    ensures
        !exists ==> (r matches RecycleStep::Refuse(f) && f.detail@ == "目标不存在："@ + path@
            && f.diagnosis.path@ == path@
            && f.diagnosis.operation@ == operation_name(DiagnosticOperation::Recycle)),
        exists && dry_run ==> (r matches RecycleStep::Rehearse(d) && d@ == "模拟执行：已演练回收操作"@),
        exists && !dry_run ==> (r is Recycle),
{
    if !exists {
        RecycleStep::Refuse(missing_target(path, DiagnosticOperation::Recycle))
    } else if dry_run {
        RecycleStep::Rehearse(recycle_rehearsed_detail())
    } else {
        RecycleStep::Recycle
    }
}

/// The directory a path is moved into: refused where none was given, or
/// where the path does not exist.
pub fn move_target(path: &str, target_dir: &Option<String>, exists: bool) -> (r: Result<String, ExecutionFailure>)
    ensures
        match target_dir {
            None => r matches Err(f) && f.detail@ == "移动模式需要指定目标目录。"@ && f.diagnosis.path@ == path@,
            Some(t) => if exists {
                r matches Ok(d) && d == t
            } else {
                r matches Err(f) && f.detail@ == "目标不存在："@ + path@ && f.diagnosis.path@ == path@
                    && f.diagnosis.operation@ == operation_name(DiagnosticOperation::Move)
            },
        },
{
    match target_dir {
        None => Err(missing_target_dir(path)),
        Some(t) => if exists {
            Ok(t.clone())
        } else {
            Err(missing_target(path, DiagnosticOperation::Move))
        },
    }
}

/// How a move begins: the directory the path goes into, and whether that
/// directory is created now.
#[derive(Debug)]
pub struct MovePreparation {
    pub target_dir: String,
    pub create_target_dir: bool,
}

/// The start of a move: refused as [`move_target`] refuses it; otherwise the
/// target directory, which is created only when the move is carried out, so
/// that a dry run leaves the disk as it was.
pub fn prepare_move(path: &str, target_dir: &Option<String>, exists: bool, dry_run: bool) -> (r: Result<MovePreparation, ExecutionFailure>)
    ensures
        match target_dir {
            None => r matches Err(f) && f.detail@ == "移动模式需要指定目标目录。"@ && f.diagnosis.path@ == path@,
            Some(t) => if exists {
                r matches Ok(p) && p.target_dir == t && p.create_target_dir == !dry_run
            } else {
                r matches Err(f) && f.detail@ == "目标不存在："@ + path@ && f.diagnosis.path@ == path@
                    && f.diagnosis.operation@ == operation_name(DiagnosticOperation::Move)
            },
        },
{
    let t = move_target(path, target_dir, exists)?;
    Ok(MovePreparation { target_dir: t, create_target_dir: !dry_run })
}

/// What is done with a path once its destination is chosen.
#[derive(Debug)]
pub enum MoveStep {
    /// Nothing is changed; the detail says where the path would go.
    Rehearse(String),
    /// The path is renamed to this destination.
    Rename(String),
}

/// The step of moving a path to `destination`: rehearsed in a dry run,
/// carried out otherwise.
pub fn move_step(destination: &str, dry_run: bool) -> (r: MoveStep)
    ensures
        dry_run ==> (r matches MoveStep::Rehearse(d) && d@ == "模拟执行：将移动到 "@ + destination@),
        !dry_run ==> (r matches MoveStep::Rename(d) && d@ == destination@),
{
    if dry_run {
        MoveStep::Rehearse(move_rehearsed_detail(destination))
    } else {
        MoveStep::Rename(owned(destination))
    }
}

/// Cleanup acts only where the report suggests it: a path it clears is
/// listed, and its first suggestion is to delete or move it; a path the
/// report says to keep or review, or does not list, is refused.
pub proof fn law_cleanup_acts_only_on_suggested_changes(suggestions: Seq<FileSuggestion>, path: Seq<char>)
    ensures
        clearance_of(suggestions, path) matches PathClearance::Allowed(a) ==> {
            let i = suggestion_index(suggestions, path);
            &&& 0 <= i < suggestions.len()
            &&& same_path(suggestions[i].path@, path)
            &&& suggestions[i].action == a
            &&& (a == SuggestedAction::Delete || a == SuggestedAction::Move)
        },
        suggestion_index(suggestions, path) < 0 ==> clearance_of(suggestions, path) == PathClearance::NotListed,
        ({
            let i = suggestion_index(suggestions, path);
            i >= 0 && (suggestions[i].action == SuggestedAction::Keep || suggestions[i].action == SuggestedAction::Review)
                ==> clearance_of(suggestions, path) == PathClearance::Blocked
        }),
{
    lemma_suggestion_index_bounds(suggestions, path);
}

} // verus!
