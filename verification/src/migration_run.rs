//! Running a migration plan and rolling a run back: which actions run,
//! what each step checks before it acts, what is recorded to undo it, how
//! each outcome is logged, and when a run stops. The steps' file, process
//! and environment work is done by the caller.

use vstd::prelude::*;
use crate::migration_advice::{system_sensitive, is_system_sensitive_path};
use crate::models::{
    ActionParam, DiagnosticCode, DiagnosticSeverity, ExecutionMode, MigrationAction, MigrationActionKind,
    MigrationCheckpoint, MigrationCheckpointKind, MigrationExecutionRecord, MigrationPlan, MigrationRollbackAction,
    MigrationRunStatus, OperationLogEntry, ParamValue, PathDiagnosis, Timestamp,
};
use crate::scan_view::{path_join, path_join_exec};
use crate::text::{
    contains, contains_lit, trim_chars,
    append_str, chars_of, eq_chars, owned, push_signed, signed_decimal, starts_with, string_of, string_views,
    trim, trim_str, replace_all, replace_all_exec, split_on, split_on_exec, views, join, join_exec, copy_chars,
    lacks_char, occurs_at,
};

verus! {

fn text2(a: &str, b: &str) -> (r: String)
    ensures
        r@ == a@ + b@,
{
    let mut v = chars_of(a);
    append_str(&mut v, b);
    string_of(v.as_slice())
}

fn text3(a: &str, b: &str, c: &str) -> (r: String)
    ensures
        r@ == a@ + b@ + c@,
{
    let mut v = chars_of(a);
    append_str(&mut v, b);
    append_str(&mut v, c);
    string_of(v.as_slice())
}

fn text4(a: &str, b: &str, c: &str, d: &str) -> (r: String)
    ensures
        r@ == a@ + b@ + c@ + d@,
{
    let mut v = chars_of(a);
    append_str(&mut v, b);
    append_str(&mut v, c);
    append_str(&mut v, d);
    string_of(v.as_slice())
}

fn text5(a: &str, b: &str, c: &str, d: &str, e: &str) -> (r: String)
    ensures
        r@ == a@ + b@ + c@ + d@ + e@,
{
    let mut v = chars_of(a);
    append_str(&mut v, b);
    append_str(&mut v, c);
    append_str(&mut v, d);
    append_str(&mut v, e);
    string_of(v.as_slice())
}

/// The first parameter with this key, if any.
pub open spec fn param_index(ps: Seq<ActionParam>, key: Seq<char>) -> int
    decreases ps.len(),
{
    if ps.len() == 0 {
        -1
    } else if param_index(ps.drop_last(), key) >= 0 {
        param_index(ps.drop_last(), key)
    } else if ps.last().key@ == key {
        ps.len() - 1
    } else {
        -1
    }
}

proof fn lemma_param_index(ps: Seq<ActionParam>, key: Seq<char>)
    ensures
        -1 <= param_index(ps, key) < ps.len(),
        param_index(ps, key) >= 0 ==> ps[param_index(ps, key)].key@ == key,
    decreases ps.len(),
{
    if ps.len() > 0 {
        lemma_param_index(ps.drop_last(), key);
    }
}

proof fn lemma_param_index_prefix(ps: Seq<ActionParam>, key: Seq<char>, m: int)
    requires
        0 <= m <= ps.len(),
        param_index(ps.take(m), key) >= 0,
    ensures
        param_index(ps, key) == param_index(ps.take(m), key),
    decreases ps.len() - m,
{
    if m < ps.len() {
        assert(ps.take(m + 1).drop_last() =~= ps.take(m));
        lemma_param_index_prefix(ps, key, m + 1);
    } else {
        assert(ps.take(m) =~= ps);
    }
}

fn find_param(ps: &Vec<ActionParam>, key: &str) -> (r: Option<usize>)
    ensures
        match r {
            Some(i) => i == param_index(ps@, key@) && i < ps@.len(),
            None => param_index(ps@, key@) == -1,
        },
{
    let k = chars_of(key);
    let mut i: usize = 0;
    while i < ps.len()
        invariant
            i <= ps@.len(),
            k@ == key@,
            param_index(ps@.take(i as int), key@) == -1,
        decreases ps@.len() - i,
    {
        assert(ps@.take(i + 1).drop_last() =~= ps@.take(i as int));
        assert(ps@.take(i + 1).last() == ps@[i as int]);
        if eq_chars(chars_of(ps[i].key.as_str()).as_slice(), k.as_slice()) {
            proof {
                lemma_param_index_prefix(ps@, key@, i + 1);
            }
            return Some(i);
        }
        i += 1;
    }
    assert(ps@.take(ps@.len() as int) =~= ps@);
    None
}

/// The text under a key, where the key's value is text.
pub open spec fn param_text(ps: Seq<ActionParam>, key: Seq<char>) -> Option<Seq<char>> {
    let i = param_index(ps, key);
    if i < 0 {
        None
    } else {
        match ps[i].value {
            ParamValue::Text(t) => Some(t@),
            _ => None,
        }
    }
}

/// The flag under a key, where the key's value is a flag; else the default.
pub open spec fn param_flag(ps: Seq<ActionParam>, key: Seq<char>, default: bool) -> bool {
    let i = param_index(ps, key);
    if i < 0 {
        default
    } else {
        match ps[i].value {
            ParamValue::Flag(b) => b,
            _ => default,
        }
    }
}

/// The text under a key of the parameters, if its value is text.
pub fn param_text_of(ps: &Vec<ActionParam>, key: &str) -> (r: Option<String>)
    ensures
        match r {
            Some(t) => param_text(ps@, key@) == Some(t@),
            None => param_text(ps@, key@) is None,
        },
{
    proof {
        lemma_param_index(ps@, key@);
    }
    match find_param(ps, key) {
        None => None,
        Some(i) => match &ps[i].value {
            ParamValue::Text(t) => Some(t.clone()),
            _ => None,
        },
    }
}

/// The flag under a key of the parameters, or the default.
pub fn param_flag_of(ps: &Vec<ActionParam>, key: &str, default: bool) -> (r: bool)
    ensures
        r == param_flag(ps@, key@, default),
{
    proof {
        lemma_param_index(ps@, key@);
    }
    match find_param(ps, key) {
        None => default,
        Some(i) => match &ps[i].value {
            ParamValue::Flag(b) => *b,
            _ => default,
        },
    }
}

/// An action's text parameter, or the error that it is missing.
pub fn action_param_str(action: &MigrationAction, key: &str) -> (r: Result<String, String>)
    ensures
        match r {
            Ok(t) => param_text(action.params@, key@) == Some(t@),
            Err(e) => param_text(action.params@, key@) is None && e@ == "迁移动作参数缺少字段 "@ + key@ + "。"@,
        },
{
    match param_text_of(&action.params, key) {
        Some(t) => Ok(t),
        None => Err(text3("迁移动作参数缺少字段 ", key, "。")),
    }
}

/// A rollback action's text parameter, or the error that it is missing.
pub fn rollback_param_str(action: &MigrationRollbackAction, key: &str) -> (r: Result<String, String>)
    ensures
        match r {
            Ok(t) => param_text(action.params@, key@) == Some(t@),
            Err(e) => param_text(action.params@, key@) is None && e@ == "回滚动作参数缺少字段 "@ + key@ + "。"@,
        },
{
    match param_text_of(&action.params, key) {
        Some(t) => Ok(t),
        None => Err(text3("回滚动作参数缺少字段 ", key, "。")),
    }
}

/// A character allowed in a process name.
pub open spec fn process_name_char(c: char) -> bool {
    ('a' <= c && c <= 'z') || ('A' <= c && c <= 'Z') || ('0' <= c && c <= '9') || c == '.' || c == '_' || c == '-'
}

/// A process name, trimmed: not empty, and made of letters, digits and
/// `.`, `_`, `-` only.
pub fn sanitize_process_name(value: &str) -> (r: Result<String, String>)
    ensures
        match r {
            Ok(n) => n@ == trim(value@) && n@.len() > 0 && forall|i: int| 0 <= i < n@.len() ==> process_name_char(#[trigger] n@[i]),
            Err(e) => if trim(value@).len() == 0 {
                e@ == "进程名不能为空。"@
            } else {
                (exists|i: int| 0 <= i < trim(value@).len() && !process_name_char(#[trigger] trim(value@)[i]))
                    && e@ == "检测到非法进程名："@ + trim(value@)
            },
        },
{
    let t = trim_str(value);
    if t.len() == 0 {
        return Err(owned("进程名不能为空。"));
    }
    let mut i: usize = 0;
    while i < t.len()
        invariant
            i <= t@.len(),
            t@ == trim(value@),
            forall|k: int| 0 <= k < i ==> process_name_char(#[trigger] t@[k]),
        decreases t@.len() - i,
    {
        let c = t[i];
        if !(('a' <= c && c <= 'z') || ('A' <= c && c <= 'Z') || ('0' <= c && c <= '9') || c == '.' || c == '_' || c == '-') {
            let mut e = chars_of("检测到非法进程名：");
            crate::text::append_chars(&mut e, t.as_slice());
            assert(!process_name_char(t@[i as int]));
            assert(t@ == trim(value@));
            assert(!process_name_char(trim(value@)[i as int]));
            let r = string_of(e.as_slice());
            assert(r@ == "检测到非法进程名："@ + trim(value@));
            return Err(r);
        }
        i += 1;
    }
    Ok(string_of(t.as_slice()))
}

/// A path from a plan: `~/` stands for the home folder where there is one.
pub open spec fn user_path(value: Seq<char>, home: Option<Seq<char>>) -> Seq<char> {
    if starts_with(value, "~/"@) && home is Some {
        path_join(home.unwrap(), value.skip(2))
    } else {
        value
    }
}

/// Resolves `~/` against the home folder.
pub fn resolve_user_path(value: &str, home: Option<&str>) -> (r: String)
    ensures
        r@ == user_path(value@, match home {
            Some(h) => Some(h@),
            None => None,
        }),
{
    let v = chars_of(value);
    let tilde = v.len() >= 2 && v[0] == '~' && v[1] == '/';
    proof {
        reveal_strlit("~/");
        assert(tilde == starts_with(value@, "~/"@)) by {
            if starts_with(value@, "~/"@) {
                assert(value@[0] == "~/"@[0]);
                assert(value@[1] == "~/"@[1]);
            }
            if tilde {
                assert(value@.take(2) =~= "~/"@);
            }
        }
    }
    match home {
        Some(h) => {
            if tilde {
                let mut rest: Vec<char> = Vec::new();
                let mut i: usize = 2;
                while i < v.len()
                    invariant
                        2 <= i <= v@.len(),
                        rest@ =~= v@.subrange(2, i as int),
                    decreases v@.len() - i,
                {
                    rest.push(v[i]);
                    i += 1;
                }
                assert(rest@ =~= value@.skip(2));
                let j = path_join_exec(h, rest.as_slice());
                return string_of(j.as_slice());
            }
            owned(value)
        },
        None => owned(value),
    }
}

/// Whether the general mover may touch the path: not a system location of
/// Windows or macOS.
pub fn is_safe_generic_move_path(path: &str) -> (r: bool)
    ensures
        r == !system_sensitive(path@),
{
    !is_system_sensitive_path(path)
}

/// The log entry of a migration step that went through.
pub fn success_log(at: Timestamp, path: &str, dry_run: bool, detail: String) -> (l: OperationLogEntry)
    ensures
        l.at == at && l.path@ == path@ && l.mode == ExecutionMode::Move && l.dry_run == dry_run,
        l.success && l.detail == detail && l.diagnosis is None,
{
    OperationLogEntry { at, path: owned(path), mode: ExecutionMode::Move, dry_run, success: true, detail, diagnosis: None }
}

/// The log entry of a migration step that failed.
pub fn failure_log(at: Timestamp, path: &str, dry_run: bool, detail: String, diagnosis: Option<PathDiagnosis>) -> (l: OperationLogEntry)
    ensures
        l.at == at && l.path@ == path@ && l.mode == ExecutionMode::Move && l.dry_run == dry_run,
        !l.success && l.detail == detail && l.diagnosis == diagnosis,
{
    OperationLogEntry { at, path: owned(path), mode: ExecutionMode::Move, dry_run, success: false, detail, diagnosis }
}

/// The advice every plain diagnosis of a migration step carries.
pub open spec fn plan_retry_advice() -> Seq<char> {
    "请检查迁移计划、目标路径和相关程序状态后重试。"@
}

/// The diagnosis of a migration step, known by its summary alone.
pub fn simple_diagnosis(path: &str, operation: &str, code: DiagnosticCode, severity: DiagnosticSeverity, summary: String) -> (d: PathDiagnosis)
    ensures
        d.path@ == path@,
        d.operation@ == operation@,
        d.code == code,
        d.severity == severity,
        d.summary == summary,
        d.details@ == seq![summary],
        string_views(d.suggestions@) == seq![plan_retry_advice()],
        d.possible_related_apps@.len() == 0,
        d.error_kind is None,
        d.raw_os_error is None,
{
    let mut details: Vec<String> = Vec::new();
    details.push(summary.clone());
    assert(details@ =~= seq![summary]);
    let mut suggestions: Vec<String> = Vec::new();
    suggestions.push(owned("请检查迁移计划、目标路径和相关程序状态后重试。"));
    assert(string_views(suggestions@) =~= seq![plan_retry_advice()]);
    PathDiagnosis {
        path: owned(path),
        operation: owned(operation),
        code,
        severity,
        summary,
        details,
        suggestions,
        possible_related_apps: Vec::new(),
        error_kind: None,
        raw_os_error: None,
    }
}

fn text_param(key: &str, value: &str) -> (p: ActionParam)
    ensures
        p.key@ == key@,
        p.value matches ParamValue::Text(t) && t@ == value@,
{
    ActionParam { key: owned(key), value: ParamValue::Text(owned(value)) }
}

fn optional_param(key: &str, value: &Option<String>) -> (p: ActionParam)
    ensures
        p.key@ == key@,
        match *value {
            Some(v) => p.value matches ParamValue::Text(t) && t@ == v@,
            None => p.value is Null,
        },
{
    match value {
        Some(v) => ActionParam { key: owned(key), value: ParamValue::Text(v.clone()) },
        None => ActionParam { key: owned(key), value: ParamValue::Null },
    }
}

pub open spec fn params_of(ps: Seq<ActionParam>) -> Seq<(Seq<char>, crate::migration::ParamShape)> {
    ps.map_values(|p: ActionParam| crate::migration::param_shape(p))
}

pub open spec fn optional_shape(v: Option<Seq<char>>) -> crate::migration::ParamShape {
    match v {
        Some(t) => crate::migration::ParamShape::Text(t),
        None => crate::migration::ParamShape::Null,
    }
}

pub open spec fn opt_text(v: Option<String>) -> Option<Seq<char>> {
    match v {
        Some(t) => Some(t@),
        None => None,
    }
}

/// What is recorded before a move: whether the source and the target
/// existed, and how to move the path back.
pub fn move_records(source: &str, target: &str, source_exists: bool, target_exists: bool, allow_special: bool) -> (r: (MigrationCheckpoint, MigrationRollbackAction))
    ensures
        r.0.key@ == "path-state:"@ + source@,
        r.0.kind == MigrationCheckpointKind::PathState,
        r.0.target@ == source@,
        params_of(r.0.snapshot@) == seq![
            ("sourceExists"@, crate::migration::ParamShape::Flag(source_exists)),
            ("targetExists"@, crate::migration::ParamShape::Flag(target_exists)),
        ],
        r.1.id@ == "rollback:move:"@ + source@,
        r.1.kind == MigrationActionKind::MovePath,
        r.1.title@ == "恢复原始路径"@,
        r.1.detail@ == "把迁移后的路径移回原位置。"@,
        params_of(r.1.params@) == seq![
            ("sourcePath"@, crate::migration::ParamShape::Text(target@)),
            ("targetPath"@, crate::migration::ParamShape::Text(source@)),
            ("allowSpecialPaths"@, crate::migration::ParamShape::Flag(allow_special)),
        ],
{
    let mut snapshot: Vec<ActionParam> = Vec::new();
    snapshot.push(ActionParam { key: owned("sourceExists"), value: ParamValue::Flag(source_exists) });
    snapshot.push(ActionParam { key: owned("targetExists"), value: ParamValue::Flag(target_exists) });
    let mut params: Vec<ActionParam> = Vec::new();
    params.push(text_param("sourcePath", target));
    params.push(text_param("targetPath", source));
    params.push(ActionParam { key: owned("allowSpecialPaths"), value: ParamValue::Flag(allow_special) });
    let c = MigrationCheckpoint {
        key: text2("path-state:", source),
        kind: MigrationCheckpointKind::PathState,
        target: owned(source),
        snapshot,
    };
    let a = MigrationRollbackAction {
        id: text2("rollback:move:", source),
        kind: MigrationActionKind::MovePath,
        title: owned("恢复原始路径"),
        detail: owned("把迁移后的路径移回原位置。"),
        params,
    };
    assert(params_of(c.snapshot@) =~= seq![
        ("sourceExists"@, crate::migration::ParamShape::Flag(source_exists)),
        ("targetExists"@, crate::migration::ParamShape::Flag(target_exists)),
    ]);
    assert(params_of(a.params@) =~= seq![
        ("sourcePath"@, crate::migration::ParamShape::Text(target@)),
        ("targetPath"@, crate::migration::ParamShape::Text(source@)),
        ("allowSpecialPaths"@, crate::migration::ParamShape::Flag(allow_special)),
    ]);
    (c, a)
}

/// How to remove the compatibility link made at `source`.
pub fn link_rollback(source: &str) -> (a: MigrationRollbackAction)
    ensures
        a.id@ == "rollback:junction:"@ + source@,
        a.kind == MigrationActionKind::CreateJunction,
        a.title@ == "移除兼容链接"@,
        a.detail@ == "删除迁移后创建的兼容链接。"@,
        params_of(a.params@) == seq![("removePath"@, crate::migration::ParamShape::Text(source@))],
{
    let mut params: Vec<ActionParam> = Vec::new();
    params.push(text_param("removePath", source));
    assert(params_of(params@) =~= seq![("removePath"@, crate::migration::ParamShape::Text(source@))]);
    MigrationRollbackAction {
        id: text2("rollback:junction:", source),
        kind: MigrationActionKind::CreateJunction,
        title: owned("移除兼容链接"),
        detail: owned("删除迁移后创建的兼容链接。"),
        params,
    }
}

/// What is recorded before a configuration file is changed: its content,
/// if it had one, and how to put it back.
pub fn file_records(path: &str, previous: &Option<String>) -> (r: (MigrationCheckpoint, MigrationRollbackAction))
    ensures
        r.0.key@ == "file:"@ + path@,
        r.0.kind == MigrationCheckpointKind::FileContent,
        r.0.target@ == path@,
        params_of(r.0.snapshot@) == seq![("content"@, optional_shape(opt_text(*previous)))],
        r.1.id@ == "rollback:file:"@ + path@,
        r.1.kind == MigrationActionKind::UpdateYamlList,
        r.1.title@ == "恢复配置文件"@,
        r.1.detail@ == "恢复迁移前的配置文件内容。"@,
        params_of(r.1.params@) == seq![
            ("path"@, crate::migration::ParamShape::Text(path@)),
            ("content"@, optional_shape(opt_text(*previous))),
        ],
{
    let mut snapshot: Vec<ActionParam> = Vec::new();
    snapshot.push(optional_param("content", previous));
    let mut params: Vec<ActionParam> = Vec::new();
    params.push(text_param("path", path));
    params.push(optional_param("content", previous));
    assert(params_of(snapshot@) =~= seq![("content"@, optional_shape(opt_text(*previous)))]);
    assert(params_of(params@) =~= seq![
        ("path"@, crate::migration::ParamShape::Text(path@)),
        ("content"@, optional_shape(opt_text(*previous))),
    ]);
    (
        MigrationCheckpoint {
            key: text2("file:", path),
            kind: MigrationCheckpointKind::FileContent,
            target: owned(path),
            snapshot,
        },
        MigrationRollbackAction {
            id: text2("rollback:file:", path),
            kind: MigrationActionKind::UpdateYamlList,
            title: owned("恢复配置文件"),
            detail: owned("恢复迁移前的配置文件内容。"),
            params,
        },
    )
}

/// What is recorded before a user environment variable is set: its value,
/// if it had one, and how to put it back.
pub fn env_records(name: &str, previous: &Option<String>) -> (r: (MigrationCheckpoint, MigrationRollbackAction))
    ensures
        r.0.key@ == "env:"@ + name@,
        r.0.kind == MigrationCheckpointKind::EnvVar,
        r.0.target@ == name@,
        params_of(r.0.snapshot@) == seq![("value"@, optional_shape(opt_text(*previous)))],
        r.1.id@ == "rollback:env:"@ + name@,
        r.1.kind == MigrationActionKind::SetEnvVar,
        r.1.title@ == "恢复环境变量 "@ + name@,
        r.1.detail@ == "恢复迁移前的用户环境变量。"@,
        params_of(r.1.params@) == seq![
            ("name"@, crate::migration::ParamShape::Text(name@)),
            ("value"@, optional_shape(opt_text(*previous))),
        ],
{
    let mut snapshot: Vec<ActionParam> = Vec::new();
    snapshot.push(optional_param("value", previous));
    let mut params: Vec<ActionParam> = Vec::new();
    params.push(text_param("name", name));
    params.push(optional_param("value", previous));
    assert(params_of(snapshot@) =~= seq![("value"@, optional_shape(opt_text(*previous)))]);
    assert(params_of(params@) =~= seq![
        ("name"@, crate::migration::ParamShape::Text(name@)),
        ("value"@, optional_shape(opt_text(*previous))),
    ]);
    (
        MigrationCheckpoint { key: text2("env:", name), kind: MigrationCheckpointKind::EnvVar, target: owned(name), snapshot },
        MigrationRollbackAction {
            id: text2("rollback:env:", name),
            kind: MigrationActionKind::SetEnvVar,
            title: text2("恢复环境变量 ", name),
            detail: owned("恢复迁移前的用户环境变量。"),
            params,
        },
    )
}

/// The log entry that settles a move before it is attempted, if any: a
/// system location without leave, a missing source, an existing target,
/// or a rehearsal.
pub fn move_precheck(
    at: Timestamp,
    source: &str,
    target: &str,
    dry_run: bool,
    allow_special: bool,
    source_exists: bool,
    target_exists: bool,
) -> (r: Option<OperationLogEntry>)
    ensures
        match r {
            None => !dry_run && (allow_special || !system_sensitive(source@)) && source_exists && !target_exists,
            Some(l) => {
                &&& l.at == at && l.path@ == source@ && l.dry_run == dry_run && l.diagnosis is None
                &&& if !allow_special && system_sensitive(source@) {
                    !l.success && l.detail@ == "该路径不在通用迁移执行器允许的安全范围内。"@
                } else if !source_exists {
                    !l.success && l.detail@ == "源路径不存在："@ + source@
                } else if target_exists {
                    !l.success && l.detail@ == "目标路径已存在："@ + target@
                } else {
                    dry_run && l.success && l.detail@ == "模拟执行：会把 "@ + source@ + " 移动到 "@ + target@ + "。"@
                }
            },
        },
{
    if !allow_special && !is_safe_generic_move_path(source) {
        return Some(failure_log(at, source, dry_run, owned("该路径不在通用迁移执行器允许的安全范围内。"), None));
    }
    if !source_exists {
        return Some(failure_log(at, source, dry_run, text2("源路径不存在：", source), None));
    }
    if target_exists {
        return Some(failure_log(at, source, dry_run, text2("目标路径已存在：", target), None));
    }
    if dry_run {
        return Some(success_log(at, source, true, text5("模拟执行：会把 ", source, " 移动到 ", target, "。")));
    }
    None
}

/// The log entry of a path moved to `target`.
pub fn moved_log(at: Timestamp, source: &str, target: &str) -> (l: OperationLogEntry)
    ensures
        l.at == at && l.mode == ExecutionMode::Move && l.path@ == source@ && !l.dry_run && l.success && l.diagnosis is None,
        l.detail@ == "已移动到 "@ + target@ + "。"@,
{
    success_log(at, source, false, text3("已移动到 ", target, "。"))
}

/// The log entry of checking that a path exists after a migration.
pub fn verify_log(at: Timestamp, path: &str, dry_run: bool, exists: bool) -> (l: OperationLogEntry)
    ensures
        l.at == at && l.mode == ExecutionMode::Move && l.path@ == path@ && l.dry_run == dry_run,
        (if dry_run {
            l.success && l.detail@ == "模拟执行：会验证 "@ + path@ + " 是否存在。"@ && (l.diagnosis is None)
        } else if exists {
            l.success && l.detail@ == "验证通过："@ + path@ + " 存在。"@ && (l.diagnosis is None)
        } else {
            &&& !l.success && l.detail@ == "验证失败："@ + path@ + " 不存在。"@
            &&& l.diagnosis matches Some(d) && d.code == DiagnosticCode::NotFound
                && d.severity == DiagnosticSeverity::Warning && d.operation@ == "verify_path_exists"@
                && d.summary@ == "迁移完成后未找到目标路径。"@ && d.path@ == path@
                && d.details@ == seq![d.summary] && string_views(d.suggestions@) == seq![plan_retry_advice()]
                && d.possible_related_apps@.len() == 0 && (d.error_kind is None) && (d.raw_os_error is None)
        }),
{
    if dry_run {
        return success_log(at, path, true, text3("模拟执行：会验证 ", path, " 是否存在。"));
    }
    if exists {
        success_log(at, path, false, text3("验证通过：", path, " 存在。"))
    } else {
        let d = simple_diagnosis(path, "verify_path_exists", DiagnosticCode::NotFound, DiagnosticSeverity::Warning, owned("迁移完成后未找到目标路径。"));
        failure_log(at, path, false, text3("验证失败：", path, " 不存在。"), Some(d))
    }
}

/// A configuration list with `value` first and no other copy of it.
pub open spec fn list_with_first(existing: Seq<Seq<char>>, value: Seq<char>) -> Seq<Seq<char>>
    decreases existing.len(),
{
    if existing.len() == 0 {
        seq![value]
    } else if existing.last() == value {
        list_with_first(existing.drop_last(), value)
    } else {
        list_with_first(existing.drop_last(), value).push(existing.last())
    }
}

/// The new list of a configuration key: the value first, then the other
/// texts the list held, in order.
pub fn yaml_list_with_first(existing: &Vec<String>, value: &str) -> (r: Vec<String>)
    ensures
        string_views(r@) == list_with_first(string_views(existing@), value@),
{
    let mut out: Vec<String> = Vec::new();
    out.push(owned(value));
    let v = chars_of(value);
    let ghost ev = string_views(existing@);
    let mut i: usize = 0;
    assert(string_views(out@) =~= list_with_first(ev.take(0), value@));
    while i < existing.len()
        invariant
            i <= existing@.len(),
            v@ == value@,
            ev == string_views(existing@),
            string_views(out@) == list_with_first(ev.take(i as int), value@),
        decreases existing@.len() - i,
    {
        assert(ev.take(i + 1).drop_last() =~= ev.take(i as int));
        assert(ev.take(i + 1).last() == existing@[i as int]@);
        if !eq_chars(chars_of(existing[i].as_str()).as_slice(), v.as_slice()) {
            let ghost before = out@;
            out.push(existing[i].clone());
            assert(string_views(out@) =~= string_views(before).push(existing@[i as int]@));
        }
        i += 1;
    }
    assert(ev.take(existing@.len() as int) =~= ev);
    out
}

/// The ids of the actions a run carries out when none were chosen: the
/// required ones and those on by default.
pub open spec fn default_ids(actions: Seq<MigrationAction>) -> Seq<Seq<char>>
    decreases actions.len(),
{
    if actions.len() == 0 {
        Seq::empty()
    } else if actions.last().required || actions.last().enabled_by_default {
        default_ids(actions.drop_last()).push(actions.last().id@)
    } else {
        default_ids(actions.drop_last())
    }
}

/// The chosen action ids: those asked for, or the defaults when none were.
pub fn selected_action_ids(plan: &MigrationPlan, requested: &Vec<String>) -> (r: Vec<String>)
    ensures
        string_views(r@) == (if requested@.len() == 0 { default_ids(plan.actions@) } else { string_views(requested@) }),
{
    if requested.len() > 0 {
        return crate::text::copy_strings(requested);
    }
    let mut out: Vec<String> = Vec::new();
    let mut i: usize = 0;
    while i < plan.actions.len()
        invariant
            i <= plan.actions@.len(),
            string_views(out@) == default_ids(plan.actions@.take(i as int)),
        decreases plan.actions@.len() - i,
    {
        assert(plan.actions@.take(i + 1).drop_last() =~= plan.actions@.take(i as int));
        assert(plan.actions@.take(i + 1).last() == plan.actions@[i as int]);
        let a = &plan.actions[i];
        if a.required || a.enabled_by_default {
            let ghost before = out@;
            out.push(a.id.clone());
            assert(string_views(out@) =~= string_views(before).push(a.id@));
        }
        i += 1;
    }
    assert(plan.actions@.take(plan.actions@.len() as int) =~= plan.actions@);
    out
}

/// Whether a run carries out an action: when it is required or chosen.
pub fn runs_action(action: &MigrationAction, selected: &Vec<String>) -> (r: bool)
    ensures
        r == (action.required || string_views(selected@).contains(action.id@)),
{
    if action.required {
        return true;
    }
    let id = chars_of(action.id.as_str());
    let mut i: usize = 0;
    while i < selected.len()
        invariant
            i <= selected@.len(),
            id@ == action.id@,
            forall|k: int| 0 <= k < i ==> #[trigger] selected@[k]@ != action.id@,
        decreases selected@.len() - i,
    {
        if eq_chars(chars_of(selected[i].as_str()).as_slice(), id.as_slice()) {
            assert(string_views(selected@)[i as int] == action.id@);
            return true;
        }
        i += 1;
    }
    assert forall|k: int| 0 <= k < string_views(selected@).len() implies string_views(selected@)[k] != action.id@ by {
        assert(string_views(selected@)[k] == selected@[k]@);
    }
    false
}

/// The state of a run: what was logged, recorded to undo, and why it
/// stopped, if it did.
#[derive(Debug)]
pub struct PlanRun {
    pub logs: Vec<OperationLogEntry>,
    pub checkpoints: Vec<MigrationCheckpoint>,
    pub rollback_actions: Vec<MigrationRollbackAction>,
    pub failure_reason: Option<String>,
}

/// The status of a finished run: a rehearsal, a failure where a step
/// failed, a success otherwise.
pub open spec fn run_status(dry_run: bool, failed: bool) -> MigrationRunStatus {
    if dry_run {
        MigrationRunStatus::DryRun
    } else if failed {
        MigrationRunStatus::Failed
    } else {
        MigrationRunStatus::Succeeded
    }
}

impl PlanRun {
    /// A run that has done nothing yet.
    pub fn new() -> (r: PlanRun)
        ensures
            r.logs@.len() == 0,
            r.checkpoints@.len() == 0,
            r.rollback_actions@.len() == 0,
            r.failure_reason is None,
    {
        PlanRun { logs: Vec::new(), checkpoints: Vec::new(), rollback_actions: Vec::new(), failure_reason: None }
    }

    /// Takes in the outcome of one step and says whether the run goes on:
    /// a logged success goes on; a logged failure stops it with its detail;
    /// an error stops it and is logged against the plan's source.
    pub fn record(&mut self, outcome: Result<OperationLogEntry, String>, at: Timestamp, source_path: &str, dry_run: bool) -> (go_on: bool)
        ensures
            final(self).checkpoints@ == old(self).checkpoints@,
            final(self).rollback_actions@ == old(self).rollback_actions@,
            final(self).logs@.len() == old(self).logs@.len() + 1,
            final(self).logs@.take(old(self).logs@.len() as int) == old(self).logs@,
            match outcome {
                Ok(l) => {
                    &&& final(self).logs@.last() == l
                    &&& go_on == l.success
                    &&& if l.success {
                        final(self).failure_reason == old(self).failure_reason
                    } else {
                        final(self).failure_reason == Some(l.detail)
                    }
                },
                Err(e) => {
                    let l = final(self).logs@.last();
                    &&& !go_on
                    &&& final(self).failure_reason == Some(e)
                    &&& l.at == at && l.path@ == source_path@ && l.mode == ExecutionMode::Move
                    &&& l.dry_run == dry_run && !l.success && l.detail == e
                    &&& l.diagnosis matches Some(d) && d.code == DiagnosticCode::Unknown
                        && d.severity == DiagnosticSeverity::Warning && d.operation@ == "execute_plan"@
                        && d.summary@ == "迁移计划执行中断。"@ && d.path@ == source_path@
                        && d.details@ == seq![d.summary] && string_views(d.suggestions@) == seq![plan_retry_advice()]
                        && d.possible_related_apps@.len() == 0 && (d.error_kind is None) && (d.raw_os_error is None)
                },
            },
    {
        match outcome {
            Ok(l) => {
                let success = l.success;
                if !success {
                    self.failure_reason = Some(l.detail.clone());
                }
                self.logs.push(l);
                success
            },
            Err(e) => {
                self.failure_reason = Some(e.clone());
                let d = simple_diagnosis(source_path, "execute_plan", DiagnosticCode::Unknown, DiagnosticSeverity::Warning, owned("迁移计划执行中断。"));
                let l = failure_log(at, source_path, dry_run, e, Some(d));
                self.logs.push(l);
                false
            },
        }
    }

    /// The record of the finished run.
    pub fn finish(self, plan: &MigrationPlan, started_at: Timestamp, finished_at: Timestamp, dry_run: bool) -> (r: MigrationExecutionRecord)
        requires
            millis_fit(started_at),
        ensures
            r.run_id@ == "run-"@ + signed_decimal(started_at.secs * 1000 + started_at.nanos / 1_000_000),
            r.plan_id == plan.id,
            r.title == plan.title,
            r.started_at == started_at,
            r.finished_at == finished_at,
            r.dry_run == dry_run,
            r.status == run_status(dry_run, self.failure_reason is Some),
            r.checkpoints@ == self.checkpoints@,
            r.rollback_actions@ == self.rollback_actions@,
            r.logs@ == self.logs@,
            r.failure_reason == self.failure_reason,
    {
        let status = if dry_run {
            MigrationRunStatus::DryRun
        } else if self.failure_reason.is_some() {
            MigrationRunStatus::Failed
        } else {
            MigrationRunStatus::Succeeded
        };
        MigrationExecutionRecord {
            run_id: run_label("run-", started_at),
            plan_id: plan.id.clone(),
            title: plan.title.clone(),
            started_at,
            finished_at,
            dry_run,
            status,
            checkpoints: self.checkpoints,
            rollback_actions: self.rollback_actions,
            logs: self.logs,
            failure_reason: self.failure_reason,
        }
    }
}

/// A start time whose milliseconds since the epoch fit the 64-bit count
/// they are labelled with.
pub open spec fn millis_fit(at: Timestamp) -> bool {
    i64::MIN <= at.secs * 1000 + at.nanos / 1_000_000 <= i64::MAX
}

/// A run's label: a prefix and the start time in milliseconds since the
/// epoch.
pub fn run_label(prefix: &str, at: Timestamp) -> (r: String)
    requires
        millis_fit(at),
    ensures
        r@ == prefix@ + signed_decimal(at.secs * 1000 + at.nanos / 1_000_000),
{
    let mut v = chars_of(prefix);
    let ms: i128 = (at.secs as i128) * 1000 + (at.nanos / 1_000_000) as i128;
    push_signed(&mut v, ms as i64);
    string_of(v.as_slice())
}

/// What a plan's action asks to be done, with its parameters read.
#[derive(Clone, Debug)]
pub enum PlanStep {
    StopProcess { process_name: String },
    Move { source: String, target: String, allow_special: bool },
    UpdateYamlList { path: String, key: String, value: String },
    SetEnvVar { name: String, value: String },
    CreateLink { source: String, target: String },
    VerifyPath { path: String },
}

/// Reads an action's parameters into the step it asks for, or the error
/// of the first parameter missing.
pub fn plan_step(action: &MigrationAction) -> (r: Result<PlanStep, String>)
    ensures
        ({
            let ps = action.params@;
            match action.kind {
                MigrationActionKind::StopProcess => match param_text(ps, "processName"@) {
                    Some(n) => r matches Ok(PlanStep::StopProcess { process_name }) && process_name@ == n,
                    None => r matches Err(e) && e@ == "迁移动作参数缺少字段 processName。"@,
                },
                MigrationActionKind::MovePath => match (param_text(ps, "sourcePath"@), param_text(ps, "targetPath"@)) {
                    (Some(a), Some(b)) => r matches Ok(PlanStep::Move { source, target, allow_special })
                        && source@ == a && target@ == b && allow_special == param_flag(ps, "allowSpecialPaths"@, false),
                    (None, _) => r matches Err(e) && e@ == "迁移动作参数缺少字段 sourcePath。"@,
                    (Some(_), None) => r matches Err(e) && e@ == "迁移动作参数缺少字段 targetPath。"@,
                },
                MigrationActionKind::UpdateYamlList => match (param_text(ps, "path"@), param_text(ps, "key"@), param_text(ps, "value"@)) {
                    (Some(a), Some(b), Some(c)) => r matches Ok(PlanStep::UpdateYamlList { path, key, value })
                        && path@ == a && key@ == b && value@ == c,
                    (None, _, _) => r matches Err(e) && e@ == "迁移动作参数缺少字段 path。"@,
                    (Some(_), None, _) => r matches Err(e) && e@ == "迁移动作参数缺少字段 key。"@,
                    (Some(_), Some(_), None) => r matches Err(e) && e@ == "迁移动作参数缺少字段 value。"@,
                },
                MigrationActionKind::SetEnvVar => match (param_text(ps, "name"@), param_text(ps, "value"@)) {
                    (Some(a), Some(b)) => r matches Ok(PlanStep::SetEnvVar { name, value }) && name@ == a && value@ == b,
                    (None, _) => r matches Err(e) && e@ == "迁移动作参数缺少字段 name。"@,
                    (Some(_), None) => r matches Err(e) && e@ == "迁移动作参数缺少字段 value。"@,
                },
                MigrationActionKind::CreateJunction => match (param_text(ps, "sourcePath"@), param_text(ps, "targetPath"@)) {
                    (Some(a), Some(b)) => r matches Ok(PlanStep::CreateLink { source, target }) && source@ == a && target@ == b,
                    (None, _) => r matches Err(e) && e@ == "迁移动作参数缺少字段 sourcePath。"@,
                    (Some(_), None) => r matches Err(e) && e@ == "迁移动作参数缺少字段 targetPath。"@,
                },
                MigrationActionKind::VerifyPathExists => match param_text(ps, "path"@) {
                    Some(a) => r matches Ok(PlanStep::VerifyPath { path }) && path@ == a,
                    None => r matches Err(e) && e@ == "迁移动作参数缺少字段 path。"@,
                },
            }
        }),
{
    proof {
        reveal_strlit("迁移动作参数缺少字段 ");
        reveal_strlit("。");
        reveal_strlit("processName");
        reveal_strlit("sourcePath");
        reveal_strlit("targetPath");
        reveal_strlit("path");
        reveal_strlit("key");
        reveal_strlit("value");
        reveal_strlit("name");
        reveal_strlit("迁移动作参数缺少字段 processName。");
        reveal_strlit("迁移动作参数缺少字段 sourcePath。");
        reveal_strlit("迁移动作参数缺少字段 targetPath。");
        reveal_strlit("迁移动作参数缺少字段 path。");
        reveal_strlit("迁移动作参数缺少字段 key。");
        reveal_strlit("迁移动作参数缺少字段 value。");
        reveal_strlit("迁移动作参数缺少字段 name。");
    }
    match action.kind {
        MigrationActionKind::StopProcess => {
            let n = action_param_str(action, "processName")?;
            Ok(PlanStep::StopProcess { process_name: n })
        },
        MigrationActionKind::MovePath => {
            let a = action_param_str(action, "sourcePath")?;
            let b = action_param_str(action, "targetPath")?;
            let allow = param_flag_of(&action.params, "allowSpecialPaths", false);
            Ok(PlanStep::Move { source: a, target: b, allow_special: allow })
        },
        MigrationActionKind::UpdateYamlList => {
            let a = action_param_str(action, "path")?;
            let b = action_param_str(action, "key")?;
            let c = action_param_str(action, "value")?;
            Ok(PlanStep::UpdateYamlList { path: a, key: b, value: c })
        },
        MigrationActionKind::SetEnvVar => {
            let a = action_param_str(action, "name")?;
            let b = action_param_str(action, "value")?;
            Ok(PlanStep::SetEnvVar { name: a, value: b })
        },
        MigrationActionKind::CreateJunction => {
            let a = action_param_str(action, "sourcePath")?;
            let b = action_param_str(action, "targetPath")?;
            Ok(PlanStep::CreateLink { source: a, target: b })
        },
        MigrationActionKind::VerifyPathExists => {
            let a = action_param_str(action, "path")?;
            Ok(PlanStep::VerifyPath { path: a })
        },
    }
}

/// What a rollback action asks to be undone, with its parameters read.
#[derive(Clone, Debug)]
pub enum RollbackStep {
    Move { source: String, target: String, allow_special: bool },
    RestoreFile { path: String, content: Option<String> },
    RestoreEnv { name: String, value: Option<String> },
    RemoveLink { path: String },
}

/// The value kept under a key: text, nothing, or something malformed.
pub open spec fn kept_value(ps: Seq<ActionParam>, key: Seq<char>) -> Option<Option<Seq<char>>> {
    let i = param_index(ps, key);
    if i < 0 {
        Some(None)
    } else {
        match ps[i].value {
            ParamValue::Text(t) => Some(Some(t@)),
            ParamValue::Null => Some(None),
            ParamValue::Flag(_) => None,
        }
    }
}

fn kept_value_of(ps: &Vec<ActionParam>, key: &str) -> (r: Option<Option<String>>)
    ensures
        match kept_value(ps@, key@) {
            Some(v) => r matches Some(x) && opt_text(x) == v,
            None => r is None,
        },
{
    proof {
        lemma_param_index(ps@, key@);
    }
    match find_param(ps, key) {
        None => Some(None),
        Some(i) => match &ps[i].value {
            ParamValue::Text(t) => Some(Some(t.clone())),
            ParamValue::Null => Some(None),
            ParamValue::Flag(_) => None,
        },
    }
}

/// Reads a rollback action into the step that undoes it, or why it cannot.
pub fn rollback_step(action: &MigrationRollbackAction) -> (r: Result<RollbackStep, String>)
    ensures
        ({
            let ps = action.params@;
            match action.kind {
                MigrationActionKind::MovePath => match (param_text(ps, "sourcePath"@), param_text(ps, "targetPath"@)) {
                    (Some(a), Some(b)) => r matches Ok(RollbackStep::Move { source, target, allow_special })
                        && source@ == a && target@ == b && allow_special == param_flag(ps, "allowSpecialPaths"@, true),
                    (None, _) => r matches Err(e) && e@ == "回滚动作参数缺少字段 sourcePath。"@,
                    (Some(_), None) => r matches Err(e) && e@ == "回滚动作参数缺少字段 targetPath。"@,
                },
                MigrationActionKind::UpdateYamlList => match param_text(ps, "path"@) {
                    None => r matches Err(e) && e@ == "回滚动作参数缺少字段 path。"@,
                    Some(a) => match kept_value(ps, "content"@) {
                        Some(c) => r matches Ok(RollbackStep::RestoreFile { path, content }) && path@ == a && opt_text(content) == c,
                        None => r matches Err(e) && e@ == "配置文件回滚快照格式不正确。"@,
                    },
                },
                MigrationActionKind::SetEnvVar => match param_text(ps, "name"@) {
                    None => r matches Err(e) && e@ == "回滚动作参数缺少字段 name。"@,
                    Some(a) => match kept_value(ps, "value"@) {
                        Some(v) => r matches Ok(RollbackStep::RestoreEnv { name, value }) && name@ == a && opt_text(value) == v,
                        None => r matches Err(e) && e@ == "环境变量回滚快照格式不正确。"@,
                    },
                },
                MigrationActionKind::CreateJunction => match param_text(ps, "removePath"@) {
                    Some(a) => r matches Ok(RollbackStep::RemoveLink { path }) && path@ == a,
                    None => r matches Err(e) && e@ == "回滚动作参数缺少字段 removePath。"@,
                },
                _ => r matches Err(e) && e@ == "当前 rollback action 不支持该动作类型。"@,
            }
        }),
{
    proof {
        reveal_strlit("回滚动作参数缺少字段 ");
        reveal_strlit("。");
        reveal_strlit("sourcePath");
        reveal_strlit("targetPath");
        reveal_strlit("path");
        reveal_strlit("name");
        reveal_strlit("removePath");
        reveal_strlit("回滚动作参数缺少字段 sourcePath。");
        reveal_strlit("回滚动作参数缺少字段 targetPath。");
        reveal_strlit("回滚动作参数缺少字段 path。");
        reveal_strlit("回滚动作参数缺少字段 name。");
        reveal_strlit("回滚动作参数缺少字段 removePath。");
    }
    match action.kind {
        MigrationActionKind::MovePath => {
            let a = rollback_param_str(action, "sourcePath")?;
            let b = rollback_param_str(action, "targetPath")?;
            let allow = param_flag_of(&action.params, "allowSpecialPaths", true);
            Ok(RollbackStep::Move { source: a, target: b, allow_special: allow })
        },
        MigrationActionKind::UpdateYamlList => {
            let a = rollback_param_str(action, "path")?;
            match kept_value_of(&action.params, "content") {
                Some(c) => Ok(RollbackStep::RestoreFile { path: a, content: c }),
                None => Err(owned("配置文件回滚快照格式不正确。")),
            }
        },
        MigrationActionKind::SetEnvVar => {
            let a = rollback_param_str(action, "name")?;
            match kept_value_of(&action.params, "value") {
                Some(v) => Ok(RollbackStep::RestoreEnv { name: a, value: v }),
                None => Err(owned("环境变量回滚快照格式不正确。")),
            }
        },
        MigrationActionKind::CreateJunction => {
            let a = rollback_param_str(action, "removePath")?;
            Ok(RollbackStep::RemoveLink { path: a })
        },
        _ => Err(owned("当前 rollback action 不支持该动作类型。")),
    }
}

/// The first recorded run with this id.
pub open spec fn run_index(runs: Seq<MigrationExecutionRecord>, run_id: Seq<char>) -> int
    decreases runs.len(),
{
    if runs.len() == 0 {
        -1
    } else if run_index(runs.drop_last(), run_id) >= 0 {
        run_index(runs.drop_last(), run_id)
    } else if runs.last().run_id@ == run_id {
        runs.len() - 1
    } else {
        -1
    }
}

proof fn lemma_run_index(runs: Seq<MigrationExecutionRecord>, run_id: Seq<char>)
    ensures
        -1 <= run_index(runs, run_id) < runs.len(),
        run_index(runs, run_id) >= 0 ==> runs[run_index(runs, run_id)].run_id@ == run_id,
    decreases runs.len(),
{
    if runs.len() > 0 {
        lemma_run_index(runs.drop_last(), run_id);
    }
}

proof fn lemma_run_index_prefix(runs: Seq<MigrationExecutionRecord>, run_id: Seq<char>, m: int)
    requires
        0 <= m <= runs.len(),
        run_index(runs.take(m), run_id) >= 0,
    ensures
        run_index(runs, run_id) == run_index(runs.take(m), run_id),
    decreases runs.len() - m,
{
    if m < runs.len() {
        assert(runs.take(m + 1).drop_last() =~= runs.take(m));
        lemma_run_index_prefix(runs, run_id, m + 1);
    } else {
        assert(runs.take(m) =~= runs);
    }
}

fn find_run(runs: &Vec<MigrationExecutionRecord>, run_id: &str) -> (r: Option<usize>)
    ensures
        match r {
            Some(i) => i == run_index(runs@, run_id@) && i < runs@.len(),
            None => run_index(runs@, run_id@) == -1,
        },
{
    let id = chars_of(run_id);
    let mut i: usize = 0;
    while i < runs.len()
        invariant
            i <= runs@.len(),
            id@ == run_id@,
            run_index(runs@.take(i as int), run_id@) == -1,
        decreases runs@.len() - i,
    {
        assert(runs@.take(i + 1).drop_last() =~= runs@.take(i as int));
        assert(runs@.take(i + 1).last() == runs@[i as int]);
        if eq_chars(chars_of(runs[i].run_id.as_str()).as_slice(), id.as_slice()) {
            proof {
                lemma_run_index_prefix(runs@, run_id@, i + 1);
            }
            return Some(i);
        }
        i += 1;
    }
    assert(runs@.take(runs@.len() as int) =~= runs@);
    None
}

/// The run to roll back, or why it cannot be: it is not recorded, it was
/// a rehearsal, or it was rolled back already.
pub fn rollback_target(runs: &Vec<MigrationExecutionRecord>, run_id: &str) -> (r: Result<usize, String>)
    ensures
        ({
            let i = run_index(runs@, run_id@);
            match r {
                Ok(k) => k == i && 0 <= i < runs@.len() && !runs@[i].dry_run
                    && runs@[i].status != MigrationRunStatus::RolledBack,
                Err(e) => if i < 0 {
                    e@ == "未找到指定的迁移执行记录。"@
                } else if runs@[i].dry_run {
                    e@ == "模拟执行记录不需要回滚。"@
                } else {
                    runs@[i].status == MigrationRunStatus::RolledBack && e@ == "该迁移记录已经回滚过了。"@
                },
            }
        }),
{
    proof {
        lemma_run_index(runs@, run_id@);
    }
    let i = match find_run(runs, run_id) {
        Some(i) => i,
        None => {
            return Err(owned("未找到指定的迁移执行记录。"));
        },
    };
    if runs[i].dry_run {
        return Err(owned("模拟执行记录不需要回滚。"));
    }
    if runs[i].status == MigrationRunStatus::RolledBack {
        return Err(owned("该迁移记录已经回滚过了。"));
    }
    Ok(i)
}

/// The state of a rollback: what was logged and why it stopped, if it did.
#[derive(Debug)]
pub struct RollbackRun {
    pub logs: Vec<OperationLogEntry>,
    pub failure_reason: Option<String>,
}

impl RollbackRun {
    pub fn new() -> (r: RollbackRun)
        ensures
            r.logs@.len() == 0,
            r.failure_reason is None,
    {
        RollbackRun { logs: Vec::new(), failure_reason: None }
    }

    /// Takes in the outcome of undoing one step and says whether the
    /// rollback goes on; an error is logged against `.`.
    pub fn record(&mut self, outcome: Result<OperationLogEntry, String>, at: Timestamp) -> (go_on: bool)
        ensures
            final(self).logs@.len() == old(self).logs@.len() + 1,
            final(self).logs@.take(old(self).logs@.len() as int) == old(self).logs@,
            match outcome {
                Ok(l) => {
                    &&& final(self).logs@.last() == l
                    &&& go_on == l.success
                    &&& (if l.success {
                        final(self).failure_reason == old(self).failure_reason
                    } else {
                        final(self).failure_reason == Some(l.detail)
                    })
                },
                Err(e) => {
                    let l = final(self).logs@.last();
                    &&& !go_on
                    &&& final(self).failure_reason == Some(e)
                    &&& l.at == at && l.path@ == "."@ && l.mode == ExecutionMode::Move
                    &&& !l.dry_run && !l.success && l.detail == e && (l.diagnosis is None)
                },
            },
    {
        match outcome {
            Ok(l) => {
                let success = l.success;
                if !success {
                    self.failure_reason = Some(l.detail.clone());
                }
                self.logs.push(l);
                success
            },
            Err(e) => {
                self.failure_reason = Some(e.clone());
                let l = failure_log(at, ".", false, e, None);
                self.logs.push(l);
                false
            },
        }
    }

    /// The record of the finished rollback of `original`.
    pub fn finish(self, original: &MigrationExecutionRecord, started_at: Timestamp, finished_at: Timestamp) -> (r: MigrationExecutionRecord)
        requires
            millis_fit(started_at),
        ensures
            r.run_id@ == "rollback-"@ + signed_decimal(started_at.secs * 1000 + started_at.nanos / 1_000_000),
            r.plan_id == original.plan_id,
            r.title@ == "回滚 "@ + original.title@,
            r.started_at == started_at,
            r.finished_at == finished_at,
            !r.dry_run,
            r.status == (if self.failure_reason is Some { MigrationRunStatus::Failed } else { MigrationRunStatus::RolledBack }),
            r.checkpoints@.len() == 0,
            r.rollback_actions@.len() == 0,
            r.logs@ == self.logs@,
            r.failure_reason == self.failure_reason,
    {
        let status = if self.failure_reason.is_some() { MigrationRunStatus::Failed } else { MigrationRunStatus::RolledBack };
        MigrationExecutionRecord {
            run_id: run_label("rollback-", started_at),
            plan_id: original.plan_id.clone(),
            title: text2("回滚 ", original.title.as_str()),
            started_at,
            finished_at,
            dry_run: false,
            status,
            checkpoints: Vec::new(),
            rollback_actions: Vec::new(),
            logs: self.logs,
            failure_reason: self.failure_reason,
        }
    }
}

/// Marks the first recorded run with this id as rolled back.
pub fn mark_rolled_back(runs: &mut Vec<MigrationExecutionRecord>, run_id: &str)
    ensures
        final(runs)@.len() == old(runs)@.len(),
        forall|k: int| 0 <= k < old(runs)@.len() && k != run_index(old(runs)@, run_id@) ==> #[trigger] final(runs)@[k] == old(runs)@[k],
        run_index(old(runs)@, run_id@) >= 0 ==> ({
            let i = run_index(old(runs)@, run_id@);
            let (a, b) = (final(runs)@[i], old(runs)@[i]);
            &&& a.status == MigrationRunStatus::RolledBack
            &&& a.run_id == b.run_id && a.plan_id == b.plan_id && a.title == b.title
            &&& a.started_at == b.started_at && a.finished_at == b.finished_at && a.dry_run == b.dry_run
            &&& a.checkpoints == b.checkpoints && a.rollback_actions == b.rollback_actions
            &&& a.logs == b.logs && a.failure_reason == b.failure_reason
        }),
{
    match find_run(runs, run_id) {
        None => {},
        Some(i) => {
            let mut item = MigrationExecutionRecord {
                run_id: String::new(),
                plan_id: String::new(),
                title: String::new(),
                started_at: Timestamp { secs: 0, nanos: 0 },
                finished_at: Timestamp { secs: 0, nanos: 0 },
                dry_run: false,
                status: MigrationRunStatus::RolledBack,
                checkpoints: Vec::new(),
                rollback_actions: Vec::new(),
                logs: Vec::new(),
                failure_reason: None,
            };
            runs.set_and_swap(i, &mut item);
            item.status = MigrationRunStatus::RolledBack;
            runs.set(i, item);
        },
    }
}

/// How closing a process before a migration went.
#[derive(Clone, Debug)]
pub enum CloseOutcome {
    /// The closing command failed, with what it wrote to its error stream.
    Failed { stderr: String },
    /// The closing command ran, with what it wrote to its output.
    Done { stdout: String },
}

/// The log entry of closing a process before a migration: rehearsed, or
/// failed (with the command's error text where it gave one), or done
/// (saying whether the process was running at all).
pub fn close_process_log(at: Timestamp, name: &str, dry_run: bool, outcome: &CloseOutcome) -> (l: OperationLogEntry)
    ensures
        l.at == at && l.path@ == "."@ && l.mode == ExecutionMode::Move,
        (if dry_run {
            l.dry_run && l.success && (l.diagnosis is None) && l.detail@ == "模拟执行：会在迁移前关闭进程 "@ + name@ + "。"@
        } else {
            &&& !l.dry_run
            &&& match *outcome {
                CloseOutcome::Failed { stderr } => {
                    &&& !l.success
                    &&& l.detail@ == (if trim(stderr@).len() == 0 {
                        "关闭进程 "@ + name@ + " 失败。"@
                    } else {
                        "关闭进程 "@ + name@ + " 失败："@ + trim(stderr@)
                    })
                    &&& l.diagnosis matches Some(d) && d.code == DiagnosticCode::InUseByAnotherProcess
                        && d.severity == DiagnosticSeverity::Warning && d.operation@ == "terminate_process"@
                        && d.summary@ == "无法自动关闭进程 "@ + name@ + "。"@ && d.path@ == "."@
                        && d.details@ == seq![d.summary] && string_views(d.suggestions@) == seq![plan_retry_advice()]
                        && d.possible_related_apps@.len() == 0 && (d.error_kind is None) && (d.raw_os_error is None)
                },
                CloseOutcome::Done { stdout } => {
                    &&& l.success && (l.diagnosis is None)
                    &&& l.detail@ == (if contains(stdout@, "not-running"@) {
                        "迁移前检查：进程 "@ + name@ + " 当前未运行。"@
                    } else {
                        "迁移前已自动关闭进程 "@ + name@ + "。"@
                    })
                },
            }
        }),
{
    if dry_run {
        return success_log(at, ".", true, text3("模拟执行：会在迁移前关闭进程 ", name, "。"));
    }
    match outcome {
        CloseOutcome::Failed { stderr } => {
            let t = trim_chars(chars_of(stderr.as_str()).as_slice());
            let detail = if t.len() == 0 {
                text3("关闭进程 ", name, " 失败。")
            } else {
                let ts = string_of(t.as_slice());
                text4("关闭进程 ", name, " 失败：", ts.as_str())
            };
            let d = simple_diagnosis(".", "terminate_process", DiagnosticCode::InUseByAnotherProcess, DiagnosticSeverity::Warning, text3("无法自动关闭进程 ", name, "。"));
            failure_log(at, ".", false, detail, Some(d))
        },
        CloseOutcome::Done { stdout } => {
            let detail = if contains_lit(chars_of(stdout.as_str()).as_slice(), "not-running") {
                text3("迁移前检查：进程 ", name, " 当前未运行。")
            } else {
                text3("迁移前已自动关闭进程 ", name, "。")
            };
            success_log(at, ".", false, detail)
        },
    }
}

/// The log entry of a rehearsed configuration update.
pub fn yaml_rehearsed_log(at: Timestamp, path: &str, key: &str) -> (l: OperationLogEntry)
    ensures
        l.at == at && l.mode == ExecutionMode::Move && l.path@ == path@ && l.dry_run && l.success && (l.diagnosis is None),
        l.detail@ == "模拟执行：会更新 "@ + path@ + " 中的 "@ + key@ + "。"@,
{
    success_log(at, path, true, text5("模拟执行：会更新 ", path, " 中的 ", key, "。"))
}

/// The log entry of an updated configuration file.
pub fn yaml_updated_log(at: Timestamp, path: &str) -> (l: OperationLogEntry)
    ensures
        l.at == at && l.mode == ExecutionMode::Move && l.path@ == path@ && !l.dry_run && l.success && (l.diagnosis is None),
        l.detail@ == "已更新配置文件 "@ + path@ + "。"@,
{
    success_log(at, path, false, text3("已更新配置文件 ", path, "。"))
}

/// The log entry of a rehearsed environment variable update.
pub fn env_rehearsed_log(at: Timestamp, name: &str, value: &str) -> (l: OperationLogEntry)
    ensures
        l.at == at && l.mode == ExecutionMode::Move && l.path@ == "."@ && l.dry_run && l.success && (l.diagnosis is None),
        l.detail@ == "模拟执行：会设置用户环境变量 "@ + name@ + "="@ + value@ + "。"@,
{
    success_log(at, ".", true, text5("模拟执行：会设置用户环境变量 ", name, "=", value, "。"))
}

/// The log entry of setting a user environment variable: updated, or the
/// setting command failed.
pub fn env_set_log(at: Timestamp, name: &str, succeeded: bool) -> (l: OperationLogEntry)
    ensures
        l.at == at && l.mode == ExecutionMode::Move && l.path@ == "."@ && !l.dry_run && (l.diagnosis is None) && l.success == succeeded,
        l.detail@ == (if succeeded {
            "已更新用户环境变量 "@ + name@ + "。"@
        } else {
            "设置环境变量 "@ + name@ + " 失败。"@
        }),
{
    if succeeded {
        success_log(at, ".", false, text3("已更新用户环境变量 ", name, "。"))
    } else {
        failure_log(at, ".", false, text3("设置环境变量 ", name, " 失败。"), None)
    }
}

/// What a compatibility link is called in a sentence: a symbolic link on
/// macOS, a junction elsewhere (a Latin word, set off by a space).
pub open spec fn link_word(macos: bool) -> Seq<char> {
    if macos {
        "符号链接"@
    } else {
        " Junction"@
    }
}

/// The link's name when a word follows it.
pub open spec fn link_word_before(macos: bool) -> Seq<char> {
    if macos {
        "符号链接"@
    } else {
        " Junction "@
    }
}

fn link_word_of(macos: bool) -> (r: &'static str)
    ensures
        r@ == link_word(macos),
{
    if macos {
        "符号链接"
    } else {
        " Junction"
    }
}

fn link_word_before_of(macos: bool) -> (r: &'static str)
    ensures
        r@ == link_word_before(macos),
{
    if macos {
        "符号链接"
    } else {
        " Junction "
    }
}

/// The log entry of a compatibility link at `source` pointing to `target`:
/// rehearsed, refused because the source path still exists, or created.
pub fn link_log(at: Timestamp, source: &str, target: &str, dry_run: bool, source_exists: bool, macos: bool) -> (l: OperationLogEntry)
    ensures
        l.at == at && l.mode == ExecutionMode::Move && l.path@ == source@ && l.dry_run == dry_run && (l.diagnosis is None),
        (if dry_run {
            l.success && l.detail@ == "模拟执行：会在 "@ + source@ + " 创建"@ + link_word_before(macos) + "指向 "@ + target@ + "。"@
        } else if source_exists {
            !l.success && l.detail@ == "原路径仍然存在，无法创建"@ + link_word(macos) + "。"@
        } else {
            l.success && l.detail@ == "已创建"@ + link_word_before(macos) + "指向 "@ + target@ + "。"@
        }),
{
    let w = link_word_of(macos);
    let wb = link_word_before_of(macos);
    if dry_run {
        let mut v = chars_of("模拟执行：会在 ");
        append_str(&mut v, source);
        append_str(&mut v, " 创建");
        append_str(&mut v, wb);
        append_str(&mut v, "指向 ");
        append_str(&mut v, target);
        append_str(&mut v, "。");
        return success_log(at, source, true, string_of(v.as_slice()));
    }
    if source_exists {
        return failure_log(at, source, false, text3("原路径仍然存在，无法创建", w, "。"), None);
    }
    success_log(at, source, false, text5("已创建", wb, "指向 ", target, "。"))
}

/// The log entry of restoring a configuration file: its old content
/// written back, or the file removed where it had none.
pub fn file_restored_log(at: Timestamp, path: &str, had_content: bool) -> (l: OperationLogEntry)
    ensures
        l.at == at && l.mode == ExecutionMode::Move && l.path@ == path@ && !l.dry_run && l.success && (l.diagnosis is None),
        l.detail@ == (if had_content {
            "已恢复配置文件 "@ + path@ + "。"@
        } else {
            "已移除新增配置文件 "@ + path@ + "。"@
        }),
{
    if had_content {
        success_log(at, path, false, text3("已恢复配置文件 ", path, "。"))
    } else {
        success_log(at, path, false, text3("已移除新增配置文件 ", path, "。"))
    }
}

/// The log entry of restoring a user environment variable.
pub fn env_restored_log(at: Timestamp, name: &str, succeeded: bool) -> (l: OperationLogEntry)
    ensures
        l.at == at && l.mode == ExecutionMode::Move && l.path@ == "."@ && !l.dry_run && (l.diagnosis is None) && l.success == succeeded,
        l.detail@ == (if succeeded {
            "已恢复环境变量 "@ + name@ + "。"@
        } else {
            "恢复环境变量 "@ + name@ + " 失败。"@
        }),
{
    if succeeded {
        success_log(at, ".", false, text3("已恢复环境变量 ", name, "。"))
    } else {
        failure_log(at, ".", false, text3("恢复环境变量 ", name, " 失败。"), None)
    }
}

/// The log entry of removing a compatibility link: skipped where none is
/// found, removed otherwise.
pub fn link_removed_log(at: Timestamp, path: &str, existed: bool, macos: bool) -> (l: OperationLogEntry)
    ensures
        l.at == at && l.mode == ExecutionMode::Move && l.path@ == path@ && !l.dry_run && l.success && (l.diagnosis is None),
        l.detail@ == (if existed {
            "已移除"@ + link_word(macos) + " "@ + path@ + "。"@
        } else {
            "回滚时未发现"@ + link_word(macos) + " "@ + path@ + "，已跳过。"@
        }),
{
    let w = link_word_of(macos);
    if existed {
        success_log(at, path, false, text5("已移除", w, " ", path, "。"))
    } else {
        success_log(at, path, false, text5("回滚时未发现", w, " ", path, "，已跳过。"))
    }
}

proof fn lemma_params_read(ps: Seq<ActionParam>, shapes: Seq<(Seq<char>, crate::migration::ParamShape)>)
    requires
        params_of(ps) == shapes,
    ensures
        ps.len() == shapes.len(),
        forall|i: int| 0 <= i < ps.len() ==> #[trigger] ps[i].key@ == shapes[i].0
            && crate::migration::param_shape(ps[i]).1 == shapes[i].1,
{
    assert forall|i: int| 0 <= i < ps.len() implies #[trigger] ps[i].key@ == shapes[i].0
        && crate::migration::param_shape(ps[i]).1 == shapes[i].1 by {
        assert(params_of(ps)[i] == crate::migration::param_shape(ps[i]));
    }
}

/// Undoing a move moves the path back: the rollback recorded for moving
/// `source` to `target` reads as a move from `target` to `source`, with
/// the same leave for special paths.
pub proof fn law_move_rollback_moves_back(a: MigrationRollbackAction, source: Seq<char>, target: Seq<char>, allow: bool)
    requires
        a.kind == MigrationActionKind::MovePath,
        params_of(a.params@) == seq![
            ("sourcePath"@, crate::migration::ParamShape::Text(target)),
            ("targetPath"@, crate::migration::ParamShape::Text(source)),
            ("allowSpecialPaths"@, crate::migration::ParamShape::Flag(allow)),
        ],
    ensures
        param_text(a.params@, "sourcePath"@) == Some(target),
        param_text(a.params@, "targetPath"@) == Some(source),
        param_flag(a.params@, "allowSpecialPaths"@, true) == allow,
{
    let ps = a.params@;
    let shapes = seq![
        ("sourcePath"@, crate::migration::ParamShape::Text(target)),
        ("targetPath"@, crate::migration::ParamShape::Text(source)),
        ("allowSpecialPaths"@, crate::migration::ParamShape::Flag(allow)),
    ];
    lemma_params_read(ps, shapes);
    reveal_strlit("sourcePath");
    reveal_strlit("targetPath");
    reveal_strlit("allowSpecialPaths");
    assert(ps.take(1).drop_last() =~= Seq::<ActionParam>::empty());
    assert(ps.take(2).drop_last() =~= ps.take(1));
    assert(ps.take(3) =~= ps);
    assert(ps.take(2).last() == ps[1]);
    assert(ps.take(1).last() == ps[0]);
    assert(ps.drop_last() =~= ps.take(2));
    assert(ps[0].key@ == "sourcePath"@);
    assert(ps[1].key@ == "targetPath"@);
    assert(ps[2].key@ == "allowSpecialPaths"@);
    assert("sourcePath"@[0] != "targetPath"@[0]);
    assert("sourcePath"@[0] != "allowSpecialPaths"@[0]);
    assert("targetPath"@[0] != "allowSpecialPaths"@[0]);
    assert(ps[0].key@ != "targetPath"@);
    assert(ps[0].key@ != "allowSpecialPaths"@);
    assert(ps[1].key@ != "allowSpecialPaths"@);
    assert(param_index(Seq::<ActionParam>::empty(), "sourcePath"@) == -1);
    assert(param_index(ps.take(1), "sourcePath"@) == 0);
    assert(param_index(ps.take(2), "sourcePath"@) == 0);
    assert(param_index(ps, "sourcePath"@) == 0);
    assert(param_index(Seq::<ActionParam>::empty(), "targetPath"@) == -1);
    assert(param_index(ps.take(1), "targetPath"@) == -1);
    assert(param_index(ps.take(2), "targetPath"@) == 1);
    assert(param_index(ps, "targetPath"@) == 1);
    assert(param_index(Seq::<ActionParam>::empty(), "allowSpecialPaths"@) == -1);
    assert(param_index(ps.take(1), "allowSpecialPaths"@) == -1);
    assert(param_index(ps.take(2), "allowSpecialPaths"@) == -1);
    assert(param_index(ps, "allowSpecialPaths"@) == 2);
}

/// Undoing a configuration change puts back what the file held: the
/// rollback recorded for the file reads as a restore of that file with its
/// old content (or its removal, where it had none).
pub proof fn law_file_rollback_restores(a: MigrationRollbackAction, path: Seq<char>, previous: Option<Seq<char>>)
    requires
        a.kind == MigrationActionKind::UpdateYamlList,
        params_of(a.params@) == seq![
            ("path"@, crate::migration::ParamShape::Text(path)),
            ("content"@, optional_shape(previous)),
        ],
    ensures
        param_text(a.params@, "path"@) == Some(path),
        kept_value(a.params@, "content"@) == Some(previous),
{
    let ps = a.params@;
    let shapes = seq![
        ("path"@, crate::migration::ParamShape::Text(path)),
        ("content"@, optional_shape(previous)),
    ];
    lemma_params_read(ps, shapes);
    reveal_strlit("path");
    reveal_strlit("content");
    assert(ps.take(1).drop_last() =~= Seq::<ActionParam>::empty());
    assert(ps.take(2) =~= ps);
    assert(ps.drop_last() =~= ps.take(1));
    assert(ps.take(1).last() == ps[0]);
    assert(ps[0].key@ == "path"@);
    assert(ps[1].key@ == "content"@);
    assert("path"@[0] != "content"@[0]);
    assert(ps[0].key@ != "content"@);
    assert(param_index(Seq::<ActionParam>::empty(), "path"@) == -1);
    assert(param_index(ps.take(1), "path"@) == 0);
    assert(param_index(ps, "path"@) == 0);
    assert(param_index(Seq::<ActionParam>::empty(), "content"@) == -1);
    assert(param_index(ps.take(1), "content"@) == -1);
    assert(param_index(ps, "content"@) == 1);
    match previous {
        Some(t) => {
            assert(crate::migration::param_shape(ps[1]).1 == crate::migration::ParamShape::Text(t));
        },
        None => {
            assert(crate::migration::param_shape(ps[1]).1 == crate::migration::ParamShape::Null);
        },
    }
}

/// Undoing an environment change puts back the variable's old value (or
/// removes it, where it had none).
pub proof fn law_env_rollback_restores(a: MigrationRollbackAction, name: Seq<char>, previous: Option<Seq<char>>)
    requires
        a.kind == MigrationActionKind::SetEnvVar,
        params_of(a.params@) == seq![
            ("name"@, crate::migration::ParamShape::Text(name)),
            ("value"@, optional_shape(previous)),
        ],
    ensures
        param_text(a.params@, "name"@) == Some(name),
        kept_value(a.params@, "value"@) == Some(previous),
{
    let ps = a.params@;
    let shapes = seq![
        ("name"@, crate::migration::ParamShape::Text(name)),
        ("value"@, optional_shape(previous)),
    ];
    lemma_params_read(ps, shapes);
    reveal_strlit("name");
    reveal_strlit("value");
    assert(ps.take(1).drop_last() =~= Seq::<ActionParam>::empty());
    assert(ps.take(2) =~= ps);
    assert(ps.drop_last() =~= ps.take(1));
    assert(ps.take(1).last() == ps[0]);
    assert(ps[0].key@ == "name"@);
    assert(ps[1].key@ == "value"@);
    assert("name"@[0] != "value"@[0]);
    assert(ps[0].key@ != "value"@);
    assert(param_index(Seq::<ActionParam>::empty(), "name"@) == -1);
    assert(param_index(ps.take(1), "name"@) == 0);
    assert(param_index(ps, "name"@) == 0);
    assert(param_index(Seq::<ActionParam>::empty(), "value"@) == -1);
    assert(param_index(ps.take(1), "value"@) == -1);
    assert(param_index(ps, "value"@) == 1);
    match previous {
        Some(t) => {
            assert(crate::migration::param_shape(ps[1]).1 == crate::migration::ParamShape::Text(t));
        },
        None => {
            assert(crate::migration::param_shape(ps[1]).1 == crate::migration::ParamShape::Null);
        },
    }
}

/// A text as one single-quoted shell word: each quote inside closes the
/// quoting, is escaped, and reopens it.
pub open spec fn shell_quoted(value: Seq<char>) -> Seq<char> {
    "'"@ + replace_all(value, "'"@, "'\\''"@) + "'"@
}

/// A text as one single-quoted shell word.
pub fn shell_escape(value: &str) -> (r: String)
    ensures
        r@ == shell_quoted(value@),
{
    let quote = chars_of("'");
    let escaped = chars_of("'\\''");
    proof {
        reveal_strlit("'");
    }
    let body = replace_all_exec(chars_of(value).as_slice(), quote.as_slice(), escaped.as_slice());
    let mut v = chars_of("'");
    crate::text::append_chars(&mut v, body.as_slice());
    append_str(&mut v, "'");
    string_of(v.as_slice())
}

/// The shell script that ends the processes of a (checked) name where
/// `pkill` is how processes are ended.
pub fn pkill_script(sanitized: &str) -> (r: String)
    ensures
        r@ == "pkill -x "@ + shell_quoted(sanitized@) + " >/dev/null 2>&1 || true; echo terminated"@,
{
    let mut v = chars_of("pkill -x ");
    append_str(&mut v, shell_escape(sanitized).as_str());
    append_str(&mut v, " >/dev/null 2>&1 || true; echo terminated");
    string_of(v.as_slice())
}

/// A line without the carriage return that ended it before its newline.
pub open spec fn strip_cr(l: Seq<char>) -> Seq<char> {
    if l.len() > 0 && l.last() == '\r' {
        l.drop_last()
    } else {
        l
    }
}

/// `str::lines`: the parts between newlines, a carriage return before a
/// newline dropped, and no empty line after a final newline.
pub open spec fn text_lines(s: Seq<char>) -> Seq<Seq<char>> {
    let p = split_on(s, '\n');
    let body = p.take(p.len() - 1).map_values(|l: Seq<char>| strip_cr(l));
    if p.last().len() > 0 {
        body.push(p.last())
    } else {
        body
    }
}

/// The comment that marks the line the tool wrote for a variable.
pub open spec fn var_marker(name: Seq<char>) -> Seq<char> {
    "# smart-disk-cleaner:"@ + name
}

/// How a line that sets the variable starts.
pub open spec fn export_prefix(name: Seq<char>) -> Seq<char> {
    "export "@ + name + "="@
}

/// The line that sets a variable, its value quoted with inner quotes
/// escaped.
pub open spec fn export_line(name: Seq<char>, value: Seq<char>) -> Seq<char> {
    export_prefix(name) + "\""@ + replace_all(value, "\""@, "\\\""@) + "\""@
}

/// The lines that do not concern the variable: neither its marker nor a
/// line setting it.
pub open spec fn kept_lines(ls: Seq<Seq<char>>, name: Seq<char>) -> Seq<Seq<char>>
    decreases ls.len(),
{
    if ls.len() == 0 {
        Seq::empty()
    } else if !contains(ls.last(), var_marker(name)) && !starts_with(ls.last(), export_prefix(name)) {
        kept_lines(ls.drop_last(), name).push(ls.last())
    } else {
        kept_lines(ls.drop_last(), name)
    }
}

/// The lines of a shell profile once a variable is set (or, without a
/// value, removed): the other lines, then the marker and the setting.
pub open spec fn profile_lines(text: Seq<char>, name: Seq<char>, value: Option<Seq<char>>) -> Seq<Seq<char>> {
    let kept = kept_lines(text_lines(text), name);
    match value {
        Some(v) => kept.push(var_marker(name)).push(export_line(name, v)),
        None => kept,
    }
}

/// The text of a shell profile once a variable is set or removed: its
/// lines, each ended by a newline.
pub open spec fn profile_text(text: Seq<char>, name: Seq<char>, value: Option<Seq<char>>) -> Seq<char> {
    let ls = profile_lines(text, name, value);
    if ls.len() == 0 {
        Seq::empty()
    } else {
        join(ls, seq!['\n']) + seq!['\n']
    }
}

fn lines_exec(text: &[char]) -> (r: Vec<Vec<char>>)
    ensures
        views(r@) == text_lines(text@),
{
    let parts = split_on_exec(text, '\n');
    let ghost p = views(parts@);
    proof {
        crate::text::lemma_split_on_len(text@, '\n');
    }
    let n = parts.len();
    let mut out: Vec<Vec<char>> = Vec::new();
    let mut i: usize = 0;
    while i + 1 < n
        invariant
            i + 1 <= n,
            n == parts@.len(),
            p == views(parts@),
            views(out@) == p.take(i as int).map_values(|l: Seq<char>| strip_cr(l)),
        decreases n - i,
    {
        let part = &parts[i];
        let mut line = copy_chars(part.as_slice());
        if line.len() > 0 && line[line.len() - 1] == '\r' {
            line.pop();
            assert(line@ =~= part@.drop_last());
        }
        let ghost before = views(out@);
        out.push(line);
        assert(views(out@) =~= before.push(strip_cr(p[i as int])));
        assert(p.take(i + 1).map_values(|l: Seq<char>| strip_cr(l))
            =~= p.take(i as int).map_values(|l: Seq<char>| strip_cr(l)).push(strip_cr(p[i as int])));
        i += 1;
    }
    let last = &parts[n - 1];
    if last.len() > 0 {
        let ghost before = views(out@);
        out.push(copy_chars(last.as_slice()));
        assert(views(out@) =~= before.push(p.last()));
    }
    out
}

fn starts_with_export(line: &[char], name: &str) -> (r: bool)
    ensures
        r == starts_with(line@, export_prefix(name@)),
{
    let mut prefix = chars_of("export ");
    append_str(&mut prefix, name);
    append_str(&mut prefix, "=");
    crate::text::starts_with_chars(line, prefix.as_slice())
}

/// A shell profile with a variable set (or, without a value, removed): the
/// lines that do not concern the variable are kept in order, and a set
/// variable gets its marker and its `export` line at the end.
pub fn profile_with_var(text: &str, name: &str, value: Option<&str>) -> (r: String)
    ensures
        r@ == profile_text(text@, name@, match value { Some(v) => Some(v@), None => None }),
{
    let ls = lines_exec(chars_of(text).as_slice());
    let ghost lv = views(ls@);
    let mut marker = chars_of("# smart-disk-cleaner:");
    append_str(&mut marker, name);
    let mut kept: Vec<Vec<char>> = Vec::new();
    let mut i: usize = 0;
    while i < ls.len()
        invariant
            i <= ls@.len(),
            lv == views(ls@),
            marker@ == var_marker(name@),
            views(kept@) == kept_lines(lv.take(i as int), name@),
        decreases ls@.len() - i,
    {
        assert(lv.take(i + 1).drop_last() =~= lv.take(i as int));
        assert(lv.take(i + 1).last() == ls@[i as int]@);
        let line = &ls[i];
        if !crate::text::contains_chars(line.as_slice(), marker.as_slice()) && !starts_with_export(line.as_slice(), name) {
            let ghost before = views(kept@);
            kept.push(copy_chars(line.as_slice()));
            assert(views(kept@) =~= before.push(line@));
        }
        i += 1;
    }
    assert(lv.take(lv.len() as int) =~= lv);
    match value {
        Some(v) => {
            let ghost before = views(kept@);
            kept.push(copy_chars(marker.as_slice()));
            let mut line = chars_of("export ");
            append_str(&mut line, name);
            append_str(&mut line, "=\"");
            let q = chars_of("\"");
            let eq = chars_of("\\\"");
            proof {
                reveal_strlit("\"");
            }
            let escaped = replace_all_exec(chars_of(v).as_slice(), q.as_slice(), eq.as_slice());
            crate::text::append_chars(&mut line, escaped.as_slice());
            append_str(&mut line, "\"");
            proof {
                reveal_strlit("\"");
                reveal_strlit("=\"");
                reveal_strlit("=");
            }
            assert(line@ =~= export_line(name@, v@));
            kept.push(line);
            assert(views(kept@) =~= before.push(var_marker(name@)).push(export_line(name@, v@)));
        },
        None => {},
    }
    if kept.len() == 0 {
        return String::new();
    }
    let sep = ['\n'];
    assert(sep@ =~= seq!['\n']);
    let mut out = join_exec(&kept, &sep);
    out.push('\n');
    string_of(out.as_slice())
}

/// The line does not end in a carriage return.
pub open spec fn no_trailing_cr(l: Seq<char>) -> bool {
    !(l.len() > 0 && l.last() == '\r')
}

proof fn lemma_lacks_concat(a: Seq<char>, b: Seq<char>, c: char)
    requires
        lacks_char(a, c),
        lacks_char(b, c),
    ensures
        lacks_char(a + b, c),
{
    assert forall|i: int| 0 <= i < (a + b).len() implies (a + b)[i] != c by {
        if i >= a.len() {
            assert((a + b)[i] == b[i - a.len()]);
        }
    }
}

proof fn lemma_text_lines_parts(t: Seq<char>)
    ensures
        forall|k: int| 0 <= k < text_lines(t).len() ==> lacks_char(#[trigger] text_lines(t)[k], '\n'),
{
    let p = split_on(t, '\n');
    crate::text::lemma_split_on_parts(t, '\n');
    crate::text::lemma_split_on_len(t, '\n');
    let ls = text_lines(t);
    assert forall|k: int| 0 <= k < ls.len() implies lacks_char(#[trigger] ls[k], '\n') by {
        assert(lacks_char(p[k], '\n'));
        if k < p.len() - 1 {
            assert(ls[k] == strip_cr(p[k]));
            assert forall|i: int| 0 <= i < strip_cr(p[k]).len() implies strip_cr(p[k])[i] != '\n' by {
                assert(strip_cr(p[k])[i] == p[k][i]);
            }
        } else {
            assert(ls[k] == p.last());
        }
    }
}

proof fn lemma_kept_concat(a: Seq<Seq<char>>, b: Seq<Seq<char>>, name: Seq<char>)
    ensures
        kept_lines(a + b, name) == kept_lines(a, name) + kept_lines(b, name),
    decreases b.len(),
{
    if b.len() == 0 {
        assert(a + b =~= a);
        assert(kept_lines(a, name) + kept_lines(b, name) =~= kept_lines(a, name));
    } else {
        lemma_kept_concat(a, b.drop_last(), name);
        assert((a + b).drop_last() =~= a + b.drop_last());
        assert((a + b).last() == b.last());
        let ka = kept_lines(a, name);
        let kb = kept_lines(b.drop_last(), name);
        assert((ka + kb).push(b.last()) =~= ka + kb.push(b.last()));
    }
}

proof fn lemma_kept_idempotent(a: Seq<Seq<char>>, name: Seq<char>)
    ensures
        kept_lines(kept_lines(a, name), name) == kept_lines(a, name),
    decreases a.len(),
{
    if a.len() > 0 {
        lemma_kept_idempotent(a.drop_last(), name);
        let k = kept_lines(a.drop_last(), name);
        let l = a.last();
        if !contains(l, var_marker(name)) && !starts_with(l, export_prefix(name)) {
            lemma_kept_concat(k, seq![l], name);
            assert(seq![l].drop_last() =~= Seq::<Seq<char>>::empty());
            assert(kept_lines(seq![l], name) == kept_lines(Seq::<Seq<char>>::empty(), name).push(l));
            assert(k + seq![l] =~= k.push(l));
            assert(kept_lines(Seq::<Seq<char>>::empty(), name).push(l) =~= seq![l]);
        }
    }
}

proof fn lemma_kept_members(a: Seq<Seq<char>>, name: Seq<char>)
    ensures
        forall|k: int| 0 <= k < kept_lines(a, name).len() ==> exists|j: int| 0 <= j < a.len() && #[trigger] kept_lines(a, name)[k] == a[j],
    decreases a.len(),
{
    if a.len() > 0 {
        lemma_kept_members(a.drop_last(), name);
        let prev = kept_lines(a.drop_last(), name);
        assert forall|k: int| 0 <= k < kept_lines(a, name).len() implies exists|j: int| 0 <= j < a.len() && #[trigger] kept_lines(a, name)[k] == a[j] by {
            if k < prev.len() {
                assert(kept_lines(a, name)[k] == prev[k]);
                let j = choose|j: int| 0 <= j < a.drop_last().len() && prev[k] == a.drop_last()[j];
                assert(a.drop_last()[j] == a[j]);
            } else {
                assert(kept_lines(a, name)[k] == a[a.len() - 1]);
            }
        }
    }
}

proof fn lemma_text_lines_of_joined(ls: Seq<Seq<char>>)
    requires
        ls.len() >= 1,
        forall|k: int| 0 <= k < ls.len() ==> lacks_char(#[trigger] ls[k], '\n'),
        forall|k: int| 0 <= k < ls.len() ==> no_trailing_cr(#[trigger] ls[k]),
    ensures
        text_lines(join(ls, seq!['\n']) + seq!['\n']) == ls,
{
    let j = join(ls, seq!['\n']);
    crate::text::lemma_split_on_join(ls, '\n');
    crate::text::lemma_split_on_concat(j, Seq::empty(), '\n');
    assert(j + seq!['\n'] + Seq::<char>::empty() =~= j + seq!['\n']);
    assert(split_on(Seq::<char>::empty(), '\n') =~= seq![Seq::<char>::empty()]);
    let p = split_on(j + seq!['\n'], '\n');
    assert(p =~= ls.push(Seq::<char>::empty()));
    assert(p.take(p.len() - 1) =~= ls);
    assert(p.take(p.len() - 1).map_values(|l: Seq<char>| strip_cr(l)) =~= ls) by {
        assert forall|k: int| 0 <= k < ls.len() implies strip_cr(#[trigger] ls[k]) == ls[k] by {
            assert(no_trailing_cr(ls[k]));
        }
    }
}

proof fn lemma_marker_line(name: Seq<char>)
    requires
        lacks_char(name, '\n'),
        no_trailing_cr(name),
    ensures
        lacks_char(var_marker(name), '\n'),
        no_trailing_cr(var_marker(name)),
        contains(var_marker(name), var_marker(name)),
{
    reveal_strlit("# smart-disk-cleaner:");
    let m = var_marker(name);
    let pre: Seq<char> = "# smart-disk-cleaner:"@;
    assert(lacks_char(pre, '\n'));
    lemma_lacks_concat(pre, name, '\n');
    if name.len() == 0 {
        assert(m.last() == pre.last());
    } else {
        assert(m.last() == name.last());
    }
    assert(occurs_at(m, m, 0)) by {
        assert(m.subrange(0, m.len() as int) =~= m);
    }
}

proof fn lemma_export_line(name: Seq<char>, v: Seq<char>)
    requires
        lacks_char(name, '\n'),
        lacks_char(v, '\n'),
    ensures
        lacks_char(export_line(name, v), '\n'),
        no_trailing_cr(export_line(name, v)),
        starts_with(export_line(name, v), export_prefix(name)),
{
    reveal_strlit("export ");
    reveal_strlit("=");
    reveal_strlit("\"");
    reveal_strlit("\\\"");
    let e = export_line(name, v);
    let q: Seq<char> = "\""@;
    let eq: Seq<char> = "\\\""@;
    let r = replace_all(v, q, eq);
    crate::text::lemma_replace_all_lacks(v, q, eq, '\n');
    let ep = export_prefix(name);
    assert(lacks_char("export "@, '\n'));
    assert(lacks_char("="@, '\n'));
    lemma_lacks_concat("export "@, name, '\n');
    lemma_lacks_concat("export "@ + name, "="@, '\n');
    assert(lacks_char(q, '\n'));
    lemma_lacks_concat(ep, q, '\n');
    lemma_lacks_concat(ep + q, r, '\n');
    lemma_lacks_concat(ep + q + r, q, '\n');
    assert(e == ep + q + r + q);
    assert(e.last() == q[0]);
    assert(e.subrange(0, ep.len() as int) =~= ep);
}

proof fn lemma_setting_lines(name: Seq<char>, v: Seq<char>)
    requires
        lacks_char(name, '\n'),
        no_trailing_cr(name),
        lacks_char(v, '\n'),
    ensures
        lacks_char(var_marker(name), '\n'),
        no_trailing_cr(var_marker(name)),
        lacks_char(export_line(name, v), '\n'),
        no_trailing_cr(export_line(name, v)),
        kept_lines(seq![var_marker(name), export_line(name, v)], name) == Seq::<Seq<char>>::empty(),
{
    lemma_marker_line(name);
    lemma_export_line(name, v);
    let m = var_marker(name);
    let e = export_line(name, v);
    let two = seq![m, e];
    assert(two.drop_last() =~= seq![m]);
    assert(two.last() == e);
    assert(seq![m].drop_last() =~= Seq::<Seq<char>>::empty());
    assert(seq![m].last() == m);
    assert(kept_lines(seq![m], name) == kept_lines(Seq::<Seq<char>>::empty(), name));
}

/// Editing a variable of a shell profile again replaces the earlier edit:
/// setting (or removing) a variable and then setting it to another value
/// (or removing it) gives the same profile as the second edit alone; in
/// particular repeating an edit changes nothing. The variable's name and
/// first value hold no newline, the name does not end in a carriage
/// return, and no line the edits keep does either.
pub proof fn law_profile_edit_replaces_earlier(
    text: Seq<char>,
    name: Seq<char>,
    first: Option<Seq<char>>,
    then: Option<Seq<char>>,
)
    requires
        lacks_char(name, '\n'),
        no_trailing_cr(name),
        first matches Some(v) ==> lacks_char(v, '\n'),
        forall|k: int| 0 <= k < kept_lines(text_lines(text), name).len()
            ==> no_trailing_cr(#[trigger] kept_lines(text_lines(text), name)[k]),
    ensures
        profile_text(profile_text(text, name, first), name, then) == profile_text(text, name, then),
{
    let kept = kept_lines(text_lines(text), name);
    let ls = profile_lines(text, name, first);
    lemma_text_lines_parts(text);
    lemma_kept_members(text_lines(text), name);
    assert forall|k: int| 0 <= k < kept.len() implies lacks_char(#[trigger] kept[k], '\n') by {
        let j = choose|j: int| 0 <= j < text_lines(text).len() && kept[k] == text_lines(text)[j];
        assert(lacks_char(text_lines(text)[j], '\n'));
    }
    if ls.len() == 0 {
        assert(profile_text(text, name, first) == Seq::<char>::empty());
        assert(split_on(Seq::<char>::empty(), '\n') =~= seq![Seq::<char>::empty()]);
        assert(text_lines(Seq::<char>::empty()) =~= Seq::<Seq<char>>::empty());
        assert(kept =~= Seq::<Seq<char>>::empty());
        assert(profile_lines(Seq::<char>::empty(), name, then) == profile_lines(text, name, then));
    } else {
        match first {
            Some(v) => {
                lemma_setting_lines(name, v);
                assert forall|k: int| 0 <= k < ls.len() implies lacks_char(#[trigger] ls[k], '\n') && no_trailing_cr(ls[k]) by {
                    if k < kept.len() {
                        assert(ls[k] == kept[k]);
                    } else if k == kept.len() {
                        assert(ls[k] == var_marker(name));
                    } else {
                        assert(ls[k] == export_line(name, v));
                    }
                }
                assert(ls =~= kept + seq![var_marker(name), export_line(name, v)]);
                lemma_kept_concat(kept, seq![var_marker(name), export_line(name, v)], name);
            },
            None => {
                assert(ls == kept);
            },
        }
        lemma_text_lines_of_joined(ls);
        lemma_kept_idempotent(text_lines(text), name);
        assert(kept_lines(ls, name) =~= kept);
        assert(profile_lines(profile_text(text, name, first), name, then) == profile_lines(text, name, then));
    }
}

} // verus!
