//! Diagnosis of a path that a cleanup could not handle: what failed, how
//! serious it is, what to try, and which applications may hold the path.

use vstd::prelude::*;
use crate::models::{DiagnosticCode, DiagnosticSeverity, PathDiagnosis};
use crate::order::text_order_exec;
use crate::paths::{lower_extension, text_order};
use crate::rules::{in_list, listed, lower_extension_of};
use crate::sorting::{slot, stable_sort};
use crate::text::{
    append_str, chars_of, contains, contains_lit, decimal, eq_lit, lower, owned, push_decimal,
    push_signed, signed_decimal, string_of, string_views, strings_of, to_lower,
};

verus! {

/// The operation a diagnosis is made for.
#[derive(Clone, Copy, Debug, PartialEq, Eq, Structural)]
pub enum DiagnosticOperation {
    Probe,
    Recycle,
    Move,
}

pub open spec fn operation_name(op: DiagnosticOperation) -> Seq<char> {
    match op {
        DiagnosticOperation::Probe => "probe"@,
        DiagnosticOperation::Recycle => "recycle"@,
        DiagnosticOperation::Move => "move"@,
    }
}

impl DiagnosticOperation {
    /// The operation's name.
    pub fn as_str(self) -> (r: &'static str)
        ensures
            r@ == operation_name(self),
    {
        match self {
            DiagnosticOperation::Probe => "probe",
            DiagnosticOperation::Recycle => "recycle",
            DiagnosticOperation::Move => "move",
        }
    }
}

/// What is known of a failed I/O operation.
#[derive(Clone, Debug)]
pub struct IoErrorInfo {
    /// The operating system's error code, where there is one.
    pub raw_os_error: Option<i32>,
    /// The name of the error's kind as `ErrorKind` prints it, such as
    /// `NotFound` or `PermissionDenied`.
    pub kind_name: String,
    /// The error's message.
    pub message: String,
}

/// The code, severity, summary and suggestions of a failed I/O operation.
/// Sharing (32) and lock (33) violations of Windows come first; then the
/// kind of the error decides.
pub open spec fn io_outcome(info: IoErrorInfo, readonly: bool) -> (
    DiagnosticCode,
    DiagnosticSeverity,
    Seq<char>,
    Seq<Seq<char>>,
) {
    let k = info.kind_name@;
    if info.raw_os_error == Some(32i32) {
        (
            DiagnosticCode::InUseByAnotherProcess,
            DiagnosticSeverity::Critical,
            "该路径正被其他进程占用。"@,
            seq!["请关闭可能占用该文件的编辑器、终端、压缩工具、播放器或同步客户端。"@, "关闭相关程序后再重试。"@],
        )
    } else if info.raw_os_error == Some(33i32) {
        (
            DiagnosticCode::LockedRegion,
            DiagnosticSeverity::Critical,
            "某个进程锁定了该文件的一部分。"@,
            seq!["请关闭正在读取或写入该文件的应用程序。"@, "如果该文件属于数据库、日志或虚拟机镜像，请先停止相关服务。"@],
        )
    } else if k == "NotFound"@ {
        (
            DiagnosticCode::NotFound,
            DiagnosticSeverity::Warning,
            "未找到目标路径。"@,
            seq!["请重新扫描目录，并确认该路径仍然存在。"@],
        )
    } else if k == "PermissionDenied"@ {
        (
            if readonly { DiagnosticCode::ReadOnly } else { DiagnosticCode::PermissionDenied },
            DiagnosticSeverity::Critical,
            "当前进程权限不足。"@,
            seq!["请检查文件权限以及路径是否为只读。"@, "仅在确认文件可安全处理后，再考虑使用更高权限重试。"@],
        )
    } else if k == "AlreadyExists"@ {
        (
            DiagnosticCode::AlreadyExists,
            DiagnosticSeverity::Warning,
            "目标位置已存在同名项。"@,
            seq!["请更换目标目录，或重命名目标文件。"@],
        )
    } else if k == "InvalidInput"@ {
        (
            DiagnosticCode::InvalidInput,
            DiagnosticSeverity::Warning,
            "提供的路径或参数不适用于当前操作。"@,
            seq!["请检查命令参数和目标路径。"@],
        )
    } else if k == "DirectoryNotEmpty"@ {
        (
            DiagnosticCode::DirectoryNotEmpty,
            DiagnosticSeverity::Warning,
            "目录本应为空，但其中仍包含文件。"@,
            seq!["请先检查目录内容，再重试。"@],
        )
    } else if k == "Unsupported"@ {
        (
            DiagnosticCode::Unsupported,
            DiagnosticSeverity::Warning,
            "当前文件系统或平台不支持该操作。"@,
            seq!["可以改用“复制后删除”方案，或更换目标文件系统。"@],
        )
    } else {
        (
            DiagnosticCode::Unknown,
            DiagnosticSeverity::Warning,
            "该操作因未分类的 I/O 原因失败。"@,
            seq!["请检查原始系统错误以及当前文件系统状态。"@, "确认文件在清理过程中不会被修改后再重试。"@],
        )
    }
}

/// The details of a failed I/O operation: its message, its system code
/// where there is one, and its kind.
pub open spec fn io_details(info: IoErrorInfo) -> Seq<Seq<char>> {
    let code = match info.raw_os_error {
        Some(c) => seq!["原始系统错误码="@ + signed_decimal(c as int)],
        None => Seq::empty(),
    };
    seq!["操作系统错误："@ + info.message@] + code + seq!["错误类型="@ + info.kind_name@]
}

pub open spec fn hint_if(cond: bool, hint: Seq<char>) -> Seq<Seq<char>> {
    if cond {
        seq![hint]
    } else {
        Seq::empty()
    }
}

/// The kind of application that opens files of an extension.
pub open spec fn extension_hints(p: Seq<char>) -> Seq<Seq<char>> {
    match lower_extension(p) {
        Some(e) => if listed(e, seq!["zip", "7z", "rar", "iso"]) {
            seq!["压缩工具或下载器"@]
        } else if listed(e, seq!["pdf"]) {
            seq!["PDF 阅读器"@]
        } else if listed(e, seq!["doc", "docx", "ppt", "pptx", "xls", "xlsx"]) {
            seq!["办公软件"@]
        } else if listed(e, seq!["sqlite", "db", "log"]) {
            seq!["数据库客户端、浏览器或 IDE"@]
        } else if listed(e, seq!["rs", "toml", "js", "ts", "java", "py", "cpp"]) {
            seq!["IDE、终端或构建工具"@]
        } else if listed(e, seq!["mp4", "mp3", "mkv"]) {
            seq!["媒体播放器"@]
        } else {
            Seq::empty()
        },
        None => Seq::empty(),
    }
}

/// The applications a path suggests, in the order they are looked for.
pub open spec fn path_hints(p: Seq<char>) -> Seq<Seq<char>> {
    let t = lower(p);
    hint_if(contains(t, "downloads"@), "浏览器或下载工具"@) + hint_if(
        contains(t, "node_modules"@) || contains(t, "\\target\\"@) || contains(t, "/target/"@),
        "IDE、构建工具或语言服务"@,
    ) + hint_if(
        contains(t, "appdata"@) || contains(t, "cache"@) || contains(t, "temp"@),
        "桌面应用缓存、浏览器或系统后台进程"@,
    ) + hint_if(contains(t, "onedrive"@) || contains(t, "dropbox"@), "文件同步客户端"@)
        + hint_if(contains(t, "steam"@) || contains(t, "games"@), "游戏平台启动器"@)
        + extension_hints(p)
}

/// Texts in ascending order.
pub open spec fn text_first() -> spec_fn(Seq<char>, Seq<char>) -> bool {
    |a: Seq<char>, b: Seq<char>| text_order(a, b) <= 0
}

/// The sequence without repeats of neighbouring equal texts.
pub open spec fn dedup(s: Seq<Seq<char>>) -> Seq<Seq<char>>
    decreases s.len(),
{
    if s.len() <= 1 {
        s
    } else if s[s.len() - 2] == s.last() {
        dedup(s.drop_last())
    } else {
        dedup(s.drop_last()).push(s.last())
    }
}

/// The applications that may hold a path, sorted, each once.
pub open spec fn related_apps(p: Seq<char>) -> Seq<Seq<char>> {
    dedup(stable_sort(path_hints(p), text_first()))
}

fn push_hint(out: &mut Vec<String>, cond: bool, hint: &str)
    ensures
        string_views(final(out)@) == string_views(old(out)@) + hint_if(cond, hint@),
{
    if cond {
        let h = owned(hint);
        out.push(h);
        assert(string_views(out@) =~= string_views(old(out)@) + hint_if(cond, hint@));
    } else {
        assert(string_views(out@) =~= string_views(old(out)@) + hint_if(cond, hint@));
    }
}

fn extension_hints_exec(path: &str) -> (r: Vec<String>)
    ensures
        string_views(r@) == extension_hints(path@),
{
    let mut out: Vec<String> = Vec::new();
    match lower_extension_of(path) {
        Some(e) => {
            let l1: [&str; 4] = ["zip", "7z", "rar", "iso"];
            let l2: [&str; 1] = ["pdf"];
            let l3: [&str; 6] = ["doc", "docx", "ppt", "pptx", "xls", "xlsx"];
            let l4: [&str; 3] = ["sqlite", "db", "log"];
            let l5: [&str; 7] = ["rs", "toml", "js", "ts", "java", "py", "cpp"];
            let l6: [&str; 3] = ["mp4", "mp3", "mkv"];
            assert(l1@ =~= seq!["zip", "7z", "rar", "iso"]);
            assert(l2@ =~= seq!["pdf"]);
            assert(l3@ =~= seq!["doc", "docx", "ppt", "pptx", "xls", "xlsx"]);
            assert(l4@ =~= seq!["sqlite", "db", "log"]);
            assert(l5@ =~= seq!["rs", "toml", "js", "ts", "java", "py", "cpp"]);
            assert(l6@ =~= seq!["mp4", "mp3", "mkv"]);
            let hint: Option<&str> = if in_list(e.as_slice(), &l1) {
                Some("压缩工具或下载器")
            } else if in_list(e.as_slice(), &l2) {
                Some("PDF 阅读器")
            } else if in_list(e.as_slice(), &l3) {
                Some("办公软件")
            } else if in_list(e.as_slice(), &l4) {
                Some("数据库客户端、浏览器或 IDE")
            } else if in_list(e.as_slice(), &l5) {
                Some("IDE、终端或构建工具")
            } else if in_list(e.as_slice(), &l6) {
                Some("媒体播放器")
            } else {
                None
            };
            match hint {
                Some(h) => out.push(owned(h)),
                None => {},
            }
            assert(string_views(out@) =~= extension_hints(path@));
        },
        None => {
            assert(string_views(out@) =~= extension_hints(path@));
        },
    }
    out
}

fn path_hints_exec(path: &str) -> (r: Vec<String>)
    ensures
        string_views(r@) == path_hints(path@),
{
    let t = to_lower(chars_of(path).as_slice());
    let ts = t.as_slice();
    let mut out: Vec<String> = Vec::new();
    push_hint(&mut out, contains_lit(ts, "downloads"), "浏览器或下载工具");
    push_hint(
        &mut out,
        contains_lit(ts, "node_modules") || contains_lit(ts, "\\target\\") || contains_lit(ts, "/target/"),
        "IDE、构建工具或语言服务",
    );
    push_hint(
        &mut out,
        contains_lit(ts, "appdata") || contains_lit(ts, "cache") || contains_lit(ts, "temp"),
        "桌面应用缓存、浏览器或系统后台进程",
    );
    push_hint(&mut out, contains_lit(ts, "onedrive") || contains_lit(ts, "dropbox"), "文件同步客户端");
    push_hint(&mut out, contains_lit(ts, "steam") || contains_lit(ts, "games"), "游戏平台启动器");
    let ext = extension_hints_exec(path);
    let mut i: usize = 0;
    let ghost base = string_views(out@);
    while i < ext.len()
        invariant
            i <= ext@.len(),
            string_views(out@) == base + string_views(ext@).take(i as int),
        decreases ext@.len() - i,
    {
        let h = ext[i].clone();
        let ghost before = out@;
        out.push(h);
        assert(string_views(out@) =~= string_views(before).push(h@));
        assert(string_views(ext@).take(i + 1) =~= string_views(ext@).take(i as int).push(h@));
        i += 1;
    }
    assert(string_views(ext@).take(ext@.len() as int) =~= string_views(ext@));
    out
}

fn sort_texts(v: &Vec<String>) -> (r: Vec<String>)
    ensures
        string_views(r@) == stable_sort(string_views(v@), text_first()),
{
    let ghost sv = string_views(v@);
    let mut out: Vec<String> = Vec::new();
    let mut i: usize = 0;
    while i < v.len()
        invariant
            i <= v@.len(),
            sv == string_views(v@),
            string_views(out@) == stable_sort(sv.take(i as int), text_first()),
        decreases v@.len() - i,
    {
        let x = v[i].clone();
        let xc = chars_of(x.as_str());
        let ghost ov = string_views(out@);
        let mut j: usize = out.len();
        assert(ov.take(j as int) =~= ov);
        while j > 0 && text_order_exec(chars_of(out[j - 1].as_str()).as_slice(), xc.as_slice()) > 0
            invariant
                j <= out@.len(),
                ov == string_views(out@),
                xc@ == x@,
                slot(ov, x@, text_first()) == slot(ov.take(j as int), x@, text_first()),
            decreases j,
        {
            assert(ov.take(j as int).drop_last() =~= ov.take(j - 1));
            assert(ov.take(j as int).last() == out@[j - 1]@);
            j -= 1;
        }
        proof {
            if j > 0 {
                assert(ov.take(j as int).last() == out@[j - 1]@);
            }
        }
        assert(ov.take(j as int).len() == j);
        assert(sv.take(i + 1).drop_last() =~= sv.take(i as int));
        assert(sv.take(i + 1).last() == x@);
        out.insert(j, x);
        assert(string_views(out@) =~= ov.insert(j as int, x@));
        i += 1;
    }
    assert(sv.take(sv.len() as int) =~= sv);
    out
}

fn dedup_texts(v: &Vec<String>) -> (r: Vec<String>)
    ensures
        string_views(r@) == dedup(string_views(v@)),
{
    let ghost sv = string_views(v@);
    let mut out: Vec<String> = Vec::new();
    let mut i: usize = 0;
    while i < v.len()
        invariant
            i <= v@.len(),
            sv == string_views(v@),
            string_views(out@) == dedup(sv.take(i as int)),
        decreases v@.len() - i,
    {
        let ghost t = sv.take(i + 1);
        assert(t.drop_last() =~= sv.take(i as int));
        assert(t.last() == v@[i as int]@);
        if i == 0 || v[i - 1] != v[i] {
            let ghost before = out@;
            out.push(v[i].clone());
            assert(string_views(out@) =~= string_views(before).push(v@[i as int]@));
            proof {
                if i == 0 {
                    assert(t =~= seq![v@[0]@]);
                    assert(sv.take(0) =~= Seq::<Seq<char>>::empty());
                }
            }
        }
        i += 1;
    }
    assert(sv.take(sv.len() as int) =~= sv);
    out
}

/// The applications that may hold a path, sorted, each once.
pub fn infer_related_apps(path: &str) -> (r: Vec<String>)
    ensures
        string_views(r@) == related_apps(path@),
{
    let hints = path_hints_exec(path);
    let sorted = sort_texts(&hints);
    dedup_texts(&sorted)
}

fn text_of(parts: &Vec<char>) -> (r: String)
    ensures
        r@ == parts@,
{
    string_of(parts.as_slice())
}

/// `diagnose_io_error`: the diagnosis of a failed operation on a path,
/// from what the error says. `readonly` tells whether the path is
/// read-only; it matters only where permission was denied.
pub fn diagnose_io_error(path: &str, operation: DiagnosticOperation, err: &IoErrorInfo, readonly: bool) -> (r: PathDiagnosis)
    ensures
        r.path@ == path@,
        r.operation@ == operation_name(operation),
        (r.code, r.severity, r.summary@, string_views(r.suggestions@)) == io_outcome(*err, readonly),
        string_views(r.details@) == io_details(*err),
        string_views(r.possible_related_apps@) == related_apps(path@),
        r.error_kind == Some(err.kind_name),
        r.raw_os_error == err.raw_os_error,
{
    let mut details: Vec<String> = Vec::new();
    let mut first: Vec<char> = Vec::new();
    append_str(&mut first, "操作系统错误：");
    append_str(&mut first, err.message.as_str());
    details.push(text_of(&first));
    match err.raw_os_error {
        Some(c) => {
            let mut line: Vec<char> = Vec::new();
            append_str(&mut line, "原始系统错误码=");
            push_signed(&mut line, c as i64);
            details.push(text_of(&line));
        },
        None => {},
    }
    let mut last: Vec<char> = Vec::new();
    append_str(&mut last, "错误类型=");
    append_str(&mut last, err.kind_name.as_str());
    details.push(text_of(&last));
    assert(string_views(details@) =~= io_details(*err));
    let kind = chars_of(err.kind_name.as_str());
    let k = kind.as_slice();
    let (code, severity, summary, suggestions): (DiagnosticCode, DiagnosticSeverity, &str, Vec<String>) =
        if err.raw_os_error == Some(32i32) {
            (
                DiagnosticCode::InUseByAnotherProcess,
                DiagnosticSeverity::Critical,
                "该路径正被其他进程占用。",
                strings_of(&["请关闭可能占用该文件的编辑器、终端、压缩工具、播放器或同步客户端。", "关闭相关程序后再重试。"]),
            )
        } else if err.raw_os_error == Some(33i32) {
            (
                DiagnosticCode::LockedRegion,
                DiagnosticSeverity::Critical,
                "某个进程锁定了该文件的一部分。",
                strings_of(&["请关闭正在读取或写入该文件的应用程序。", "如果该文件属于数据库、日志或虚拟机镜像，请先停止相关服务。"]),
            )
        } else if eq_lit(k, "NotFound") {
            (
                DiagnosticCode::NotFound,
                DiagnosticSeverity::Warning,
                "未找到目标路径。",
                strings_of(&["请重新扫描目录，并确认该路径仍然存在。"]),
            )
        } else if eq_lit(k, "PermissionDenied") {
            (
                if readonly { DiagnosticCode::ReadOnly } else { DiagnosticCode::PermissionDenied },
                DiagnosticSeverity::Critical,
                "当前进程权限不足。",
                strings_of(&["请检查文件权限以及路径是否为只读。", "仅在确认文件可安全处理后，再考虑使用更高权限重试。"]),
            )
        } else if eq_lit(k, "AlreadyExists") {
            (
                DiagnosticCode::AlreadyExists,
                DiagnosticSeverity::Warning,
                "目标位置已存在同名项。",
                strings_of(&["请更换目标目录，或重命名目标文件。"]),
            )
        } else if eq_lit(k, "InvalidInput") {
            (
                DiagnosticCode::InvalidInput,
                DiagnosticSeverity::Warning,
                "提供的路径或参数不适用于当前操作。",
                strings_of(&["请检查命令参数和目标路径。"]),
            )
        } else if eq_lit(k, "DirectoryNotEmpty") {
            (
                DiagnosticCode::DirectoryNotEmpty,
                DiagnosticSeverity::Warning,
                "目录本应为空，但其中仍包含文件。",
                strings_of(&["请先检查目录内容，再重试。"]),
            )
        } else if eq_lit(k, "Unsupported") {
            (
                DiagnosticCode::Unsupported,
                DiagnosticSeverity::Warning,
                "当前文件系统或平台不支持该操作。",
                strings_of(&["可以改用“复制后删除”方案，或更换目标文件系统。"]),
            )
        } else {
            (
                DiagnosticCode::Unknown,
                DiagnosticSeverity::Warning,
                "该操作因未分类的 I/O 原因失败。",
                strings_of(&["请检查原始系统错误以及当前文件系统状态。", "确认文件在清理过程中不会被修改后再重试。"]),
            )
        };
    PathDiagnosis {
        path: owned(path),
        operation: owned(operation.as_str()),
        code,
        severity,
        summary: owned(summary),
        details,
        suggestions,
        possible_related_apps: infer_related_apps(path),
        error_kind: Some(err.kind_name.clone()),
        raw_os_error: err.raw_os_error,
    }
}

/// What probing a path found.
pub enum ProbeOutcome {
    /// The path does not exist.
    Missing,
    /// The path's metadata.
    Found { is_dir: bool, is_file: bool, readonly: bool, len: u64 },
    /// Reading the metadata failed; `readonly` tells whether the path is
    /// read-only.
    Failed { err: IoErrorInfo, readonly: bool },
}

pub open spec fn bool_text(b: bool) -> Seq<char> {
    if b {
        "true"@
    } else {
        "false"@
    }
}

/// The details of a path that was found.
pub open spec fn found_details(is_dir: bool, is_file: bool, readonly: bool, len: u64) -> Seq<Seq<char>> {
    seq!["路径类型："@ + (if is_dir { "目录"@ } else { "文件"@ }), "只读："@ + bool_text(readonly)]
        + hint_if(is_file, "文件大小："@ + decimal(len as nat) + " 字节"@)
}

/// The suggestions for a path that was found.
pub open spec fn found_suggestions(readonly: bool) -> Seq<Seq<char>> {
    hint_if(readonly, "只读文件可能需要先调整权限后才能清理。"@)
        + seq!["探测模式不会枚举占用该文件的进程；如果后续执行失败，请重新执行清理以获得更具体的诊断信息。"@]
}

/// `probe_path` once the path is probed: a missing path, a path that
/// can be accessed, or the diagnosis of the error met.
pub fn probe_diagnosis(path: &str, operation: DiagnosticOperation, outcome: ProbeOutcome) -> (r: PathDiagnosis)
    ensures
        r.path@ == path@,
        r.operation@ == operation_name(operation),
        string_views(r.possible_related_apps@) == related_apps(path@),
        match outcome {
            ProbeOutcome::Missing => {
                &&& r.code == DiagnosticCode::NotFound
                &&& r.severity == DiagnosticSeverity::Warning
                &&& r.summary@ == "目标路径不存在。"@
                &&& r.details@.len() == 0
                &&& string_views(r.suggestions@) == seq!["请先确认路径是否正确，并在执行清理前重新扫描。"@]
                &&& r.error_kind is None
                &&& r.raw_os_error is None
            },
            ProbeOutcome::Found { is_dir, is_file, readonly, len } => {
                &&& r.code == DiagnosticCode::Accessible
                &&& r.severity == DiagnosticSeverity::Info
                &&& r.summary@ == "路径可访问，当前未发现明确异常。"@
                &&& string_views(r.details@) == found_details(is_dir, is_file, readonly, len)
                &&& string_views(r.suggestions@) == found_suggestions(readonly)
                &&& r.error_kind is None
                &&& r.raw_os_error is None
            },
            ProbeOutcome::Failed { err, readonly } => {
                &&& (r.code, r.severity, r.summary@, string_views(r.suggestions@)) == io_outcome(err, readonly)
                &&& string_views(r.details@) == io_details(err)
                &&& r.error_kind == Some(err.kind_name)
                &&& r.raw_os_error == err.raw_os_error
            },
        },
{
    match outcome {
        ProbeOutcome::Missing => PathDiagnosis {
            path: owned(path),
            operation: owned(operation.as_str()),
            code: DiagnosticCode::NotFound,
            severity: DiagnosticSeverity::Warning,
            summary: owned("目标路径不存在。"),
            details: Vec::new(),
            suggestions: strings_of(&["请先确认路径是否正确，并在执行清理前重新扫描。"]),
            possible_related_apps: infer_related_apps(path),
            error_kind: None,
            raw_os_error: None,
        },
        ProbeOutcome::Found { is_dir, is_file, readonly, len } => {
            let mut details: Vec<String> = Vec::new();
            let mut kind_line: Vec<char> = Vec::new();
            append_str(&mut kind_line, "路径类型：");
            append_str(&mut kind_line, if is_dir { "目录" } else { "文件" });
            details.push(text_of(&kind_line));
            let mut ro_line: Vec<char> = Vec::new();
            append_str(&mut ro_line, "只读：");
            append_str(&mut ro_line, if readonly { "true" } else { "false" });
            details.push(text_of(&ro_line));
            if is_file {
                let mut size_line: Vec<char> = Vec::new();
                append_str(&mut size_line, "文件大小：");
                push_decimal(&mut size_line, len);
                append_str(&mut size_line, " 字节");
                details.push(text_of(&size_line));
            }
            assert(string_views(details@) =~= found_details(is_dir, is_file, readonly, len));
            let mut suggestions: Vec<String> = Vec::new();
            if readonly {
                suggestions.push(owned("只读文件可能需要先调整权限后才能清理。"));
            }
            suggestions.push(owned("探测模式不会枚举占用该文件的进程；如果后续执行失败，请重新执行清理以获得更具体的诊断信息。"));
            assert(string_views(suggestions@) =~= found_suggestions(readonly));
            PathDiagnosis {
                path: owned(path),
                operation: owned(operation.as_str()),
                code: DiagnosticCode::Accessible,
                severity: DiagnosticSeverity::Info,
                summary: owned("路径可访问，当前未发现明确异常。"),
                details,
                suggestions,
                possible_related_apps: infer_related_apps(path),
                error_kind: None,
                raw_os_error: None,
            }
        },
        ProbeOutcome::Failed { err, readonly } => diagnose_io_error(path, operation, &err, readonly),
    }
}

/// The name a diagnostic code prints as.
pub open spec fn code_name(code: DiagnosticCode) -> Seq<char> {
    match code {
        DiagnosticCode::Accessible => "Ok"@,
        DiagnosticCode::NotFound => "NotFound"@,
        DiagnosticCode::PermissionDenied => "PermissionDenied"@,
        DiagnosticCode::InUseByAnotherProcess => "InUseByAnotherProcess"@,
        DiagnosticCode::LockedRegion => "LockedRegion"@,
        DiagnosticCode::ReadOnly => "ReadOnly"@,
        DiagnosticCode::AlreadyExists => "AlreadyExists"@,
        DiagnosticCode::InvalidInput => "InvalidInput"@,
        DiagnosticCode::DirectoryNotEmpty => "DirectoryNotEmpty"@,
        DiagnosticCode::Unsupported => "Unsupported"@,
        DiagnosticCode::Unknown => "Unknown"@,
    }
}

/// The name a severity prints as.
pub open spec fn severity_name(s: DiagnosticSeverity) -> Seq<char> {
    match s {
        DiagnosticSeverity::Info => "Info"@,
        DiagnosticSeverity::Warning => "Warning"@,
        DiagnosticSeverity::Critical => "Critical"@,
    }
}

/// The name a diagnostic code prints as.
pub fn code_text(code: DiagnosticCode) -> (r: &'static str)
    ensures
        r@ == code_name(code),
{
    match code {
        DiagnosticCode::Accessible => "Ok",
        DiagnosticCode::NotFound => "NotFound",
        DiagnosticCode::PermissionDenied => "PermissionDenied",
        DiagnosticCode::InUseByAnotherProcess => "InUseByAnotherProcess",
        DiagnosticCode::LockedRegion => "LockedRegion",
        DiagnosticCode::ReadOnly => "ReadOnly",
        DiagnosticCode::AlreadyExists => "AlreadyExists",
        DiagnosticCode::InvalidInput => "InvalidInput",
        DiagnosticCode::DirectoryNotEmpty => "DirectoryNotEmpty",
        DiagnosticCode::Unsupported => "Unsupported",
        DiagnosticCode::Unknown => "Unknown",
    }
}

/// The name a severity prints as.
pub fn severity_text(s: DiagnosticSeverity) -> (r: &'static str)
    ensures
        r@ == severity_name(s),
{
    match s {
        DiagnosticSeverity::Info => "Info",
        DiagnosticSeverity::Warning => "Warning",
        DiagnosticSeverity::Critical => "Critical",
    }
}

/// Each item on a line of its own, after `- `.
pub open spec fn bullets(items: Seq<Seq<char>>) -> Seq<char>
    decreases items.len(),
{
    if items.len() == 0 {
        Seq::empty()
    } else {
        bullets(items.drop_last()) + "- "@ + items.last() + "\n"@
    }
}

/// A titled list, or nothing where the list is empty.
pub open spec fn section(title: Seq<char>, items: Seq<Seq<char>>) -> Seq<char> {
    if items.len() == 0 {
        Seq::empty()
    } else {
        title + bullets(items)
    }
}

/// The text of a diagnosis, one field per line.
pub open spec fn diagnosis_text(d: PathDiagnosis) -> Seq<char> {
    "Path: "@ + d.path@ + "\n"@ + "Operation: "@ + d.operation@ + "\n"@ + "Code: "@ + code_name(d.code)
        + "\n"@ + "Severity: "@ + severity_name(d.severity) + "\n"@ + "Summary: "@ + d.summary@ + "\n"@
        + section("Details:\n"@, string_views(d.details@))
        + section("Possible related apps:\n"@, string_views(d.possible_related_apps@))
        + section("Suggestions:\n"@, string_views(d.suggestions@))
}

fn append_field(out: &mut Vec<char>, name: &str, value: &str)
    ensures
        final(out)@ == old(out)@ + name@ + value@ + "\n"@,
{
    append_str(out, name);
    append_str(out, value);
    append_str(out, "\n");
}

fn append_section(out: &mut Vec<char>, title: &str, items: &Vec<String>)
    ensures
        final(out)@ == old(out)@ + section(title@, string_views(items@)),
{
    if items.len() == 0 {
        assert(out@ =~= old(out)@ + section(title@, string_views(items@)));
        return;
    }
    append_str(out, title);
    let ghost start = out@;
    let mut i: usize = 0;
    while i < items.len()
        invariant
            i <= items@.len(),
            out@ == start + bullets(string_views(items@).take(i as int)),
        decreases items@.len() - i,
    {
        let ghost t = string_views(items@).take(i + 1);
        assert(t.drop_last() =~= string_views(items@).take(i as int));
        append_str(out, "- ");
        append_str(out, items[i].as_str());
        append_str(out, "\n");
        assert(out@ =~= start + bullets(t));
        i += 1;
    }
    assert(string_views(items@).take(items@.len() as int) =~= string_views(items@));
    assert(out@ =~= old(out)@ + section(title@, string_views(items@)));
}

/// `render_diagnosis`: the text of a diagnosis.
pub fn render_diagnosis(entry: &PathDiagnosis) -> (r: String)
    ensures
        r@ == diagnosis_text(*entry),
{
    let mut out: Vec<char> = Vec::new();
    append_field(&mut out, "Path: ", entry.path.as_str());
    append_field(&mut out, "Operation: ", entry.operation.as_str());
    append_field(&mut out, "Code: ", code_text(entry.code));
    append_field(&mut out, "Severity: ", severity_text(entry.severity));
    append_field(&mut out, "Summary: ", entry.summary.as_str());
    append_section(&mut out, "Details:\n", &entry.details);
    append_section(&mut out, "Possible related apps:\n", &entry.possible_related_apps);
    append_section(&mut out, "Suggestions:\n", &entry.suggestions);
    assert(out@ =~= diagnosis_text(*entry));
    string_of(out.as_slice())
}

} // verus!
