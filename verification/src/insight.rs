//! The local explanation of a single file or directory of a report, and
//! how remote advice may refine it without lowering its safety.

use vstd::prelude::*;
use crate::advisor::{
    auto_cleanup, copy_suggestion, merge_ai_suggestions, merged_with, higher_risk, max_risk, needs_manual_review, sanitize_ai_action,
    sanitized_action, should_auto_cleanup_duplicate, should_require_manual_review,
};
use crate::models::{
    AdvisorOutput, AiInsightTargetKind, AnalysisResult, DedupResult, DuplicateGroup, FileAiInsight,
    FileRecord, FileSuggestion, RiskLevel, ScanReport, SuggestedAction,
};
use crate::analyzer::{copy_record, sizes_sum};
use crate::order::{path_starts_with_exec, same_path_exec};
use crate::paths::{has_drive, has_root, path_starts_with, same_path};
use crate::scan_view::{path_join, path_join_exec};
use crate::rules::{
    document_like, in_list, in_transient_location, is_document_like, is_in_transient_location,
    is_project_sensitive_duplicate, listed, project_sensitive,
};
use crate::sizes::{format_bytes_human, size_text};
use crate::diagnostics::hint_if;
use crate::suggestions::{build_rule_based_suggestions, rule_candidates, rule_suggestions};
use crate::text::{
    append_chars, append_str, chars_of, decimal, join, lower, owned, push_decimal, string_of, to_lower,
};

verus! {

/// A file of the list has the path.
pub open spec fn holds_path(files: Seq<FileRecord>, p: Seq<char>) -> bool {
    exists|i: int| 0 <= i < files.len() && same_path(#[trigger] files[i].path@, p)
}

pub fn holds_path_exec(files: &Vec<FileRecord>, p: &str) -> (r: bool)
    ensures
        r == holds_path(files@, p@),
{
    let mut i: usize = 0;
    while i < files.len()
        invariant
            i <= files@.len(),
            forall|k: int| 0 <= k < i ==> !same_path(#[trigger] files@[k].path@, p@),
        decreases files@.len() - i,
    {
        if same_path_exec(files[i].path.as_str(), p) {
            return true;
        }
        i += 1;
    }
    false
}

/// The first suggestion for the path, or -1.
pub open spec fn first_suggestion(s: Seq<FileSuggestion>, p: Seq<char>) -> int
    decreases s.len(),
{
    if s.len() == 0 {
        -1
    } else {
        let f = first_suggestion(s.drop_last(), p);
        if f >= 0 {
            f
        } else if same_path(s.last().path@, p) {
            s.len() - 1
        } else {
            -1
        }
    }
}

/// The first duplicate group holding the path, or -1.
pub open spec fn first_group(groups: Seq<DuplicateGroup>, p: Seq<char>) -> int
    decreases groups.len(),
{
    if groups.len() == 0 {
        -1
    } else {
        let f = first_group(groups.drop_last(), p);
        if f >= 0 {
            f
        } else if holds_path(groups.last().files@, p) {
            groups.len() - 1
        } else {
            -1
        }
    }
}

proof fn lemma_first_suggestion(s: Seq<FileSuggestion>, p: Seq<char>, m: int)
    requires
        0 <= m <= s.len(),
    ensures
        -1 <= first_suggestion(s, p) < s.len(),
        first_suggestion(s.take(m), p) >= 0 ==> first_suggestion(s, p) == first_suggestion(s.take(m), p),
    decreases s.len(),
{
    if s.len() > 0 {
        if m == s.len() {
            assert(s.take(m) =~= s);
            lemma_first_suggestion(s.drop_last(), p, m - 1);
        } else {
            assert(s.drop_last().take(m) =~= s.take(m));
            lemma_first_suggestion(s.drop_last(), p, m);
        }
    }
}

proof fn lemma_first_group(g: Seq<DuplicateGroup>, p: Seq<char>, m: int)
    requires
        0 <= m <= g.len(),
    ensures
        -1 <= first_group(g, p) < g.len(),
        first_group(g.take(m), p) >= 0 ==> first_group(g, p) == first_group(g.take(m), p),
    decreases g.len(),
{
    if g.len() > 0 {
        if m == g.len() {
            assert(g.take(m) =~= g);
            lemma_first_group(g.drop_last(), p, m - 1);
        } else {
            assert(g.drop_last().take(m) =~= g.take(m));
            lemma_first_group(g.drop_last(), p, m);
        }
    }
}

fn find_suggestion(s: &Vec<FileSuggestion>, p: &str) -> (r: Option<usize>)
    ensures
        match r {
            Some(k) => k == first_suggestion(s@, p@) && k < s@.len(),
            None => first_suggestion(s@, p@) < 0,
        },
{
    let mut i: usize = 0;
    while i < s.len()
        invariant
            i <= s@.len(),
            first_suggestion(s@.take(i as int), p@) == -1,
        decreases s@.len() - i,
    {
        assert(s@.take(i + 1).drop_last() =~= s@.take(i as int));
        if same_path_exec(s[i].path.as_str(), p) {
            proof {
                lemma_first_suggestion(s@, p@, i + 1);
            }
            return Some(i);
        }
        i += 1;
    }
    assert(s@.take(s@.len() as int) =~= s@);
    None
}

fn find_group(g: &Vec<DuplicateGroup>, p: &str) -> (r: Option<usize>)
    ensures
        match r {
            Some(k) => k == first_group(g@, p@) && k < g@.len(),
            None => first_group(g@, p@) < 0,
        },
{
    let mut i: usize = 0;
    while i < g.len()
        invariant
            i <= g@.len(),
            first_group(g@.take(i as int), p@) == -1,
        decreases g@.len() - i,
    {
        assert(g@.take(i + 1).drop_last() =~= g@.take(i as int));
        if holds_path_exec(&g[i].files, p) {
            proof {
                lemma_first_group(g@, p@, i + 1);
            }
            return Some(i);
        }
        i += 1;
    }
    assert(g@.take(g@.len() as int) =~= g@);
    None
}

/// The local verdict on a file that no suggestion of the report covers:
/// its action, risk and reason.
pub open spec fn file_verdict(report: ScanReport, f: FileRecord) -> (SuggestedAction, RiskLevel, Seq<char>) {
    let p = f.path@;
    let g = first_group(report.dedup.groups@, p);
    if f.is_empty {
        (SuggestedAction::Delete, RiskLevel::Low, "该文件为空文件，通常可以删除。"@)
    } else if holds_path(report.analysis.temporary_files@, p) {
        (SuggestedAction::Delete, RiskLevel::Low, "该文件被识别为临时/缓存类文件，通常可以清理。"@)
    } else if g >= 0 {
        let group = report.dedup.groups@[g];
        if group.suggested_keep is Some && same_path(group.suggested_keep.unwrap()@, p) {
            (SuggestedAction::Keep, RiskLevel::Low, "该文件是当前重复文件组中建议保留的副本。"@)
        } else if auto_cleanup(group.files@) {
            (
                SuggestedAction::Delete,
                if in_transient_location(f) { RiskLevel::Low } else { RiskLevel::Medium },
                "该文件属于重复的压缩包或安装包，通常保留一份即可。"@,
            )
        } else {
            (
                SuggestedAction::Review,
                if needs_manual_review(group.files@) { RiskLevel::High } else { RiskLevel::Medium },
                "该文件处于重复文件组中，但默认仍建议人工复核。"@,
            )
        }
    } else if holds_path(report.analysis.archive_files@, p) {
        (SuggestedAction::Move, RiskLevel::Medium, "该文件属于压缩包或安装包，更适合移动归档而不是直接删除。"@)
    } else if holds_path(report.analysis.large_files@, p) {
        (SuggestedAction::Review, RiskLevel::Medium, "该文件体积较大，但当前没有自动删除依据，建议人工复核。"@)
    } else {
        (
            SuggestedAction::Review,
            if document_like(f) || project_sensitive(f) { RiskLevel::High } else { RiskLevel::Medium },
            "当前本地规则没有给出自动清理结论，建议先了解用途再决定。"@,
        )
    }
}

/// The suggestion for a file: the report's own where it has one, else the
/// local verdict.
pub open spec fn file_baseline(report: ScanReport, f: FileRecord, r: FileSuggestion) -> bool {
    let k = first_suggestion(report.advisor.suggestions@, f.path@);
    if k >= 0 {
        r == report.advisor.suggestions@[k]
    } else {
        r.path == f.path && (r.action, r.risk, r.reason@) == file_verdict(report, f)
    }
}

fn verdict(path: &String, action: SuggestedAction, risk: RiskLevel, reason: &str) -> (r: FileSuggestion)
    ensures
        r.path == *path,
        r.action == action,
        r.risk == risk,
        r.reason@ == reason@,
{
    FileSuggestion { path: path.clone(), action, risk, reason: owned(reason) }
}

/// `baseline_suggestion_for_file`.
pub fn baseline_suggestion_for_file(report: &ScanReport, file: &FileRecord) -> (r: FileSuggestion)
    ensures
        file_baseline(*report, *file, r),
{
    let p = file.path.as_str();
    if let Some(k) = find_suggestion(&report.advisor.suggestions, p) {
        return copy_suggestion(&report.advisor.suggestions[k]);
    }
    if file.is_empty {
        return verdict(&file.path, SuggestedAction::Delete, RiskLevel::Low, "该文件为空文件，通常可以删除。");
    }
    if holds_path_exec(&report.analysis.temporary_files, p) {
        return verdict(&file.path, SuggestedAction::Delete, RiskLevel::Low, "该文件被识别为临时/缓存类文件，通常可以清理。");
    }
    if let Some(g) = find_group(&report.dedup.groups, p) {
        let group = &report.dedup.groups[g];
        let keep = match &group.suggested_keep {
            Some(k) => same_path_exec(k.as_str(), p),
            None => false,
        };
        if keep {
            return verdict(&file.path, SuggestedAction::Keep, RiskLevel::Low, "该文件是当前重复文件组中建议保留的副本。");
        }
        if should_auto_cleanup_duplicate(group) {
            let risk = if is_in_transient_location(file) { RiskLevel::Low } else { RiskLevel::Medium };
            return verdict(&file.path, SuggestedAction::Delete, risk, "该文件属于重复的压缩包或安装包，通常保留一份即可。");
        }
        let risk = if should_require_manual_review(group) { RiskLevel::High } else { RiskLevel::Medium };
        return verdict(&file.path, SuggestedAction::Review, risk, "该文件处于重复文件组中，但默认仍建议人工复核。");
    }
    if holds_path_exec(&report.analysis.archive_files, p) {
        return verdict(&file.path, SuggestedAction::Move, RiskLevel::Medium, "该文件属于压缩包或安装包，更适合移动归档而不是直接删除。");
    }
    if holds_path_exec(&report.analysis.large_files, p) {
        return verdict(&file.path, SuggestedAction::Review, RiskLevel::Medium, "该文件体积较大，但当前没有自动删除依据，建议人工复核。");
    }
    let risk = if is_document_like(file) || is_project_sensitive_duplicate(file) { RiskLevel::High } else { RiskLevel::Medium };
    verdict(&file.path, SuggestedAction::Review, risk, "当前本地规则没有给出自动清理结论，建议先了解用途再决定。")
}

/// What kind of file the extension says it is.
pub open spec fn file_kind_text(f: FileRecord) -> Seq<char> {
    match f.extension {
        None => "普通文件"@,
        Some(e) => {
            let x = lower(e@);
            if x.len() == 0 {
                "无扩展名"@
            } else if listed(x, seq!["zip", "7z", "rar", "iso"]) {
                "压缩包/镜像"@
            } else if listed(x, seq!["exe", "msi", "bat", "cmd", "ps1"]) {
                "可执行/脚本"@
            } else if listed(x, seq!["pdf", "doc", "docx", "ppt", "pptx", "xls", "xlsx", "txt", "md"]) {
                "文档"@
            } else if listed(
                x,
                seq![
                    "rs", "toml", "json", "yaml", "yml", "ini", "cfg", "conf", "ts", "tsx", "js", "jsx", "vue", "py",
                    "java", "go", "c", "cpp",
                ],
            ) {
                "代码/配置"@
            } else {
                "."@ + x + " 文件"@
            }
        },
    }
}

/// `describe_file_kind`.
pub fn describe_file_kind(file: &FileRecord) -> (r: String)
    ensures
        r@ == file_kind_text(*file),
{
    match &file.extension {
        None => owned("普通文件"),
        Some(e) => {
            let x = to_lower(chars_of(e.as_str()).as_slice());
            let xs = x.as_slice();
            let l1: [&str; 4] = ["zip", "7z", "rar", "iso"];
            let l2: [&str; 5] = ["exe", "msi", "bat", "cmd", "ps1"];
            let l3: [&str; 9] = ["pdf", "doc", "docx", "ppt", "pptx", "xls", "xlsx", "txt", "md"];
            let l4: [&str; 18] = [
                "rs", "toml", "json", "yaml", "yml", "ini", "cfg", "conf", "ts", "tsx", "js", "jsx", "vue", "py",
                "java", "go", "c", "cpp",
            ];
            assert(l1@ =~= seq!["zip", "7z", "rar", "iso"]);
            assert(l2@ =~= seq!["exe", "msi", "bat", "cmd", "ps1"]);
            assert(l3@ =~= seq!["pdf", "doc", "docx", "ppt", "pptx", "xls", "xlsx", "txt", "md"]);
            assert(l4@ =~= seq![
                "rs", "toml", "json", "yaml", "yml", "ini", "cfg", "conf", "ts", "tsx", "js", "jsx", "vue", "py",
                "java", "go", "c", "cpp",
            ]);
            if x.len() == 0 {
                owned("无扩展名")
            } else if in_list(xs, &l1) {
                owned("压缩包/镜像")
            } else if in_list(xs, &l2) {
                owned("可执行/脚本")
            } else if in_list(xs, &l3) {
                owned("文档")
            } else if in_list(xs, &l4) {
                owned("代码/配置")
            } else {
                let mut out: Vec<char> = Vec::new();
                append_str(&mut out, ".");
                append_chars(&mut out, xs);
                append_str(&mut out, " 文件");
                string_of(out.as_slice())
            }
        },
    }
}

/// How many suggestions have the action.
pub open spec fn count_action(s: Seq<FileSuggestion>, a: SuggestedAction) -> int
    decreases s.len(),
{
    if s.len() == 0 {
        0
    } else {
        count_action(s.drop_last(), a) + if s.last().action == a {
            1int
        } else {
            0
        }
    }
}

fn count_action_exec(s: &Vec<FileSuggestion>, a: SuggestedAction) -> (r: usize)
    ensures
        r == count_action(s@, a),
{
    let mut n: usize = 0;
    let mut i: usize = 0;
    while i < s.len()
        invariant
            i <= s@.len(),
            n == count_action(s@.take(i as int), a),
            n <= i,
        decreases s@.len() - i,
    {
        assert(s@.take(i + 1).drop_last() =~= s@.take(i as int));
        if s[i].action == a {
            n = n + 1;
        }
        i += 1;
    }
    assert(s@.take(s@.len() as int) =~= s@);
    n
}

/// The summary shown with the local advice.
pub open spec fn display_summary(a: AnalysisResult, d: DedupResult, s: Seq<FileSuggestion>) -> Seq<char> {
    "本次共扫描 "@ + decimal(a.total_files as nat) + " 个文件，总大小 "@ + size_text(a.total_size as nat)
        + "。发现 "@ + decimal(a.empty_files@.len()) + " 个空文件、"@ + decimal(a.empty_dirs@.len())
        + " 个空目录以及 "@ + decimal(d.groups@.len()) + " 组重复文件。当前建议：删除 "@
        + decimal(count_action(s, SuggestedAction::Delete) as nat) + " 项、移动 "@
        + decimal(count_action(s, SuggestedAction::Move) as nat) + " 项、人工复核 "@
        + decimal(count_action(s, SuggestedAction::Review) as nat) + " 项。"@
}

/// `build_display_summary`.
pub fn build_display_summary(analysis: &AnalysisResult, dedup: &DedupResult, suggestions: &Vec<FileSuggestion>) -> (r: String)
    ensures
        r@ == display_summary(*analysis, *dedup, suggestions@),
{
    let size = format_bytes_human(analysis.total_size);
    let mut out: Vec<char> = Vec::new();
    append_str(&mut out, "本次共扫描 ");
    push_decimal(&mut out, analysis.total_files as u64);
    append_str(&mut out, " 个文件，总大小 ");
    append_str(&mut out, size.as_str());
    append_str(&mut out, "。发现 ");
    push_decimal(&mut out, analysis.empty_files.len() as u64);
    append_str(&mut out, " 个空文件、");
    push_decimal(&mut out, analysis.empty_dirs.len() as u64);
    append_str(&mut out, " 个空目录以及 ");
    push_decimal(&mut out, dedup.groups.len() as u64);
    append_str(&mut out, " 组重复文件。当前建议：删除 ");
    push_decimal(&mut out, count_action_exec(suggestions, SuggestedAction::Delete) as u64);
    append_str(&mut out, " 项、移动 ");
    push_decimal(&mut out, count_action_exec(suggestions, SuggestedAction::Move) as u64);
    append_str(&mut out, " 项、人工复核 ");
    push_decimal(&mut out, count_action_exec(suggestions, SuggestedAction::Review) as u64);
    append_str(&mut out, " 项。");
    assert(out@ =~= display_summary(*analysis, *dedup, suggestions@));
    string_of(out.as_slice())
}

/// The advice of the local rules: their suggestions and their summary.
pub open spec fn local_advice_of(r: AdvisorOutput, a: AnalysisResult, d: DedupResult) -> bool {
    &&& r.source@ == "local_rules"@
    &&& rule_suggestions(rule_candidates(a, d), r.suggestions@)
    &&& r.summary@ == display_summary(a, d, r.suggestions@)
}

/// `build_local_advice`: the cleanup advice of the local rules.
pub fn build_local_advice(analysis: &AnalysisResult, dedup: &DedupResult) -> (r: AdvisorOutput)
    ensures
        local_advice_of(r, *analysis, *dedup),
{
    let suggestions = build_rule_based_suggestions(analysis, dedup);
    let summary = build_display_summary(analysis, dedup, &suggestions);
    AdvisorOutput { source: owned("local_rules"), summary, suggestions }
}

/// The lines of the local explanation of a file.
pub open spec fn file_details(report: ScanReport, f: FileRecord) -> Seq<Seq<char>> {
    let p = f.path@;
    let g = first_group(report.dedup.groups@, p);
    let d = seq!["这是一个"@ + file_kind_text(f) + "文件，大小约 "@ + size_text(f.size as nat) + "。"@]
        + hint_if(holds_path(report.analysis.temporary_files@, p), "它被本地规则识别为临时/缓存类文件。"@)
        + hint_if(holds_path(report.analysis.archive_files@, p), "它也属于压缩包、镜像或安装包一类。"@)
        + hint_if(holds_path(report.analysis.large_files@, p), "它属于本次扫描中的较大文件，删除前最好再确认用途。"@)
        + (if g >= 0 {
        seq!["它位于一组重复文件中，这组一共 "@ + decimal(report.dedup.groups@[g].files@.len()) + " 个副本。"@]
    } else {
        Seq::empty()
    });
    if d.len() == 1 {
        d.push("当前本地规则没有把它列为高优先级自动清理对象。"@)
    } else {
        d
    }
}

/// The texts one after the other.
pub open spec fn concat(s: Seq<Seq<char>>) -> Seq<char> {
    join(s, Seq::empty())
}

fn push_line(lines: &mut Vec<Vec<char>>, cond: bool, line: &str)
    ensures
        crate::text::views(final(lines)@) == crate::text::views(old(lines)@) + hint_if(cond, line@),
{
    if cond {
        let ghost before = lines@;
        lines.push(chars_of(line));
        assert(crate::text::views(lines@) =~= crate::text::views(before) + hint_if(cond, line@));
    } else {
        assert(crate::text::views(lines@) =~= crate::text::views(old(lines)@) + hint_if(cond, line@));
    }
}

fn concat_exec(lines: &Vec<Vec<char>>) -> (r: String)
    ensures
        r@ == concat(crate::text::views(lines@)),
{
    let empty: Vec<char> = Vec::new();
    let j = crate::text::join_exec(lines, empty.as_slice());
    assert(empty@ =~= Seq::<char>::empty());
    string_of(j.as_slice())
}

/// The local explanation of a file of the report.
pub open spec fn local_file_insight(report: ScanReport, f: FileRecord, r: FileAiInsight) -> bool {
    exists|b: FileSuggestion|
        #![trigger file_baseline(report, f, b)]
        {
            &&& file_baseline(report, f, b)
            &&& r.path == f.path
            &&& r.target_kind == AiInsightTargetKind::File
            &&& r.source@ == "local_rules"@
            &&& r.summary@ == concat(file_details(report, f))
            &&& r.suggested_action == b.action
            &&& r.risk == b.risk
            &&& r.reason == b.reason
            &&& !r.remote_attempted
            &&& !r.used_fallback
            &&& r.fallback_reason is None
        }
}

/// `build_local_file_insight`.
pub fn build_local_file_insight(report: &ScanReport, file: &FileRecord) -> (r: FileAiInsight)
    ensures
        local_file_insight(*report, *file, r),
{
    let baseline = baseline_suggestion_for_file(report, file);
    let p = file.path.as_str();
    let kind = describe_file_kind(file);
    let size = format_bytes_human(file.size);
    let mut first: Vec<char> = Vec::new();
    append_str(&mut first, "这是一个");
    append_str(&mut first, kind.as_str());
    append_str(&mut first, "文件，大小约 ");
    append_str(&mut first, size.as_str());
    append_str(&mut first, "。");
    let mut lines: Vec<Vec<char>> = Vec::new();
    lines.push(first);
    push_line(&mut lines, holds_path_exec(&report.analysis.temporary_files, p), "它被本地规则识别为临时/缓存类文件。");
    push_line(&mut lines, holds_path_exec(&report.analysis.archive_files, p), "它也属于压缩包、镜像或安装包一类。");
    push_line(&mut lines, holds_path_exec(&report.analysis.large_files, p), "它属于本次扫描中的较大文件，删除前最好再确认用途。");
    match find_group(&report.dedup.groups, p) {
        Some(g) => {
            let mut line: Vec<char> = Vec::new();
            append_str(&mut line, "它位于一组重复文件中，这组一共 ");
            push_decimal(&mut line, report.dedup.groups[g].files.len() as u64);
            append_str(&mut line, " 个副本。");
            let ghost before = lines@;
            lines.push(line);
            assert(crate::text::views(lines@) =~= crate::text::views(before).push(line@));
        },
        None => {},
    }
    if lines.len() == 1 {
        let ghost before = lines@;
        lines.push(chars_of("当前本地规则没有把它列为高优先级自动清理对象。"));
        assert(crate::text::views(lines@) =~= crate::text::views(before).push("当前本地规则没有把它列为高优先级自动清理对象。"@));
    }
    assert(crate::text::views(lines@) =~= file_details(*report, *file));
    let r = FileAiInsight {
        path: file.path.clone(),
        target_kind: AiInsightTargetKind::File,
        source: owned("local_rules"),
        summary: concat_exec(&lines),
        suggested_action: baseline.action,
        risk: baseline.risk,
        reason: baseline.reason,
        remote_attempted: false,
        used_fallback: false,
        fallback_reason: None,
    };
    assert(file_baseline(*report, *file, baseline));
    r
}

/// The files of the list below a directory (the directory itself aside).
pub open spec fn dir_files(files: Seq<FileRecord>, dir: Seq<char>) -> Seq<FileRecord>
    decreases files.len(),
{
    if files.len() == 0 {
        Seq::empty()
    } else {
        let prev = dir_files(files.drop_last(), dir);
        let f = files.last();
        if path_starts_with(f.path@, dir) && !same_path(f.path@, dir) {
            prev.push(f)
        } else {
            prev
        }
    }
}

/// How many files of the list lie at or below a directory.
pub open spec fn count_under(files: Seq<FileRecord>, dir: Seq<char>) -> int
    decreases files.len(),
{
    if files.len() == 0 {
        0
    } else {
        count_under(files.drop_last(), dir) + if path_starts_with(files.last().path@, dir) {
            1int
        } else {
            0
        }
    }
}

/// How many copies in the duplicate groups lie at or below a directory.
pub open spec fn dup_under(groups: Seq<DuplicateGroup>, dir: Seq<char>) -> int
    decreases groups.len(),
{
    if groups.len() == 0 {
        0
    } else {
        dup_under(groups.drop_last(), dir) + count_under(groups.last().files@, dir)
    }
}

/// `directory_files`: the scanned files below a directory.
pub fn directory_files(report: &ScanReport, dir: &str) -> (r: Vec<FileRecord>)
    ensures
        r@ == dir_files(report.scanned_files@, dir@),
{
    let mut out: Vec<FileRecord> = Vec::new();
    let mut i: usize = 0;
    while i < report.scanned_files.len()
        invariant
            i <= report.scanned_files@.len(),
            out@ == dir_files(report.scanned_files@.take(i as int), dir@),
        decreases report.scanned_files@.len() - i,
    {
        let f = &report.scanned_files[i];
        assert(report.scanned_files@.take(i + 1).drop_last() =~= report.scanned_files@.take(i as int));
        if path_starts_with_exec(f.path.as_str(), dir) && !same_path_exec(f.path.as_str(), dir) {
            out.push(copy_record(f));
        }
        i += 1;
    }
    assert(report.scanned_files@.take(report.scanned_files@.len() as int) =~= report.scanned_files@);
    out
}

pub(crate) fn count_under_exec(files: &Vec<FileRecord>, dir: &str) -> (r: usize)
    ensures
        r == count_under(files@, dir@),
{
    let mut n: usize = 0;
    let mut i: usize = 0;
    while i < files.len()
        invariant
            i <= files@.len(),
            n == count_under(files@.take(i as int), dir@),
            n <= i,
        decreases files@.len() - i,
    {
        assert(files@.take(i + 1).drop_last() =~= files@.take(i as int));
        if path_starts_with_exec(files[i].path.as_str(), dir) {
            n = n + 1;
        }
        i += 1;
    }
    assert(files@.take(files@.len() as int) =~= files@);
    n
}

proof fn lemma_count_under_bound(files: Seq<FileRecord>, dir: Seq<char>)
    ensures
        0 <= count_under(files, dir) <= files.len(),
    decreases files.len(),
{
    if files.len() > 0 {
        lemma_count_under_bound(files.drop_last(), dir);
    }
}

pub(crate) fn dup_under_exec(groups: &Vec<DuplicateGroup>, dir: &str) -> (r: usize)
    requires
        dup_under(groups@, dir@) <= usize::MAX,
    ensures
        r == dup_under(groups@, dir@),
{
    let mut n: usize = 0;
    let mut i: usize = 0;
    while i < groups.len()
        invariant
            i <= groups@.len(),
            dup_under(groups@, dir@) <= usize::MAX,
            n == dup_under(groups@.take(i as int), dir@),
        decreases groups@.len() - i,
    {
        assert(groups@.take(i + 1).drop_last() =~= groups@.take(i as int));
        proof {
            lemma_dup_under_prefix(groups@, dir@, i + 1);
        }
        let k = count_under_exec(&groups[i].files, dir);
        n = n + k;
        i += 1;
    }
    assert(groups@.take(groups@.len() as int) =~= groups@);
    n
}

proof fn lemma_dup_under_prefix(groups: Seq<DuplicateGroup>, dir: Seq<char>, i: int)
    requires
        0 <= i <= groups.len(),
    ensures
        0 <= dup_under(groups.take(i), dir) <= dup_under(groups, dir),
    decreases groups.len(),
{
    if groups.len() > 0 {
        lemma_count_under_bound(groups.last().files@, dir);
        if i == groups.len() {
            assert(groups.take(i) =~= groups);
            lemma_dup_under_prefix(groups.drop_last(), dir, i - 1);
            assert(groups.drop_last().take(i - 1) =~= groups.drop_last());
        } else {
            lemma_dup_under_prefix(groups.drop_last(), dir, i);
            assert(groups.drop_last().take(i) =~= groups.take(i));
        }
    }
}

/// The local verdict on a directory, from how many files it holds and
/// how many of them are temporary, archives, duplicate copies or large.
pub open spec fn dir_verdict(n: int, empty_dir: bool, temp: int, archive: int, dup: int, large: int) -> (
    SuggestedAction,
    RiskLevel,
    Seq<char>,
) {
    if empty_dir || n == 0 {
        (SuggestedAction::Delete, RiskLevel::Low, "该目录为空目录，可优先删除。"@)
    } else if temp == n {
        (SuggestedAction::Delete, RiskLevel::Low, "该目录几乎完全由临时/缓存文件组成，通常可以整体清理。"@)
    } else if archive == n {
        (SuggestedAction::Move, RiskLevel::Medium, "该目录主要由压缩包或安装包组成，更适合整体归档而不是直接删除。"@)
    } else if dup > 0 && dup == n {
        (SuggestedAction::Review, RiskLevel::Medium, "该目录里大多是重复文件，但是否能整目录删除仍建议人工复核。"@)
    } else if large > 0 {
        (SuggestedAction::Review, RiskLevel::Medium, "该目录包含较大文件，删除前应确认是否仍在使用。"@)
    } else {
        (
            SuggestedAction::Review,
            RiskLevel::Medium,
            "该目录包含多类文件，建议先确认用途，再决定是否整体删除或只清理其中部分文件。"@,
        )
    }
}

/// `baseline_suggestion_for_directory`.
pub fn baseline_suggestion_for_directory(
    files: &[FileRecord],
    is_known_empty_dir: bool,
    temporary_count: usize,
    archive_count: usize,
    duplicate_count: usize,
    large_count: usize,
) -> (r: (SuggestedAction, RiskLevel, String))
    ensures
        (r.0, r.1, r.2@) == dir_verdict(
            files@.len() as int,
            is_known_empty_dir,
            temporary_count as int,
            archive_count as int,
            duplicate_count as int,
            large_count as int,
        ),
{
    let n = files.len();
    if is_known_empty_dir || n == 0 {
        (SuggestedAction::Delete, RiskLevel::Low, owned("该目录为空目录，可优先删除。"))
    } else if temporary_count == n {
        (SuggestedAction::Delete, RiskLevel::Low, owned("该目录几乎完全由临时/缓存文件组成，通常可以整体清理。"))
    } else if archive_count == n {
        (SuggestedAction::Move, RiskLevel::Medium, owned("该目录主要由压缩包或安装包组成，更适合整体归档而不是直接删除。"))
    } else if duplicate_count > 0 && duplicate_count == n {
        (SuggestedAction::Review, RiskLevel::Medium, owned("该目录里大多是重复文件，但是否能整目录删除仍建议人工复核。"))
    } else if large_count > 0 {
        (SuggestedAction::Review, RiskLevel::Medium, owned("该目录包含较大文件，删除前应确认是否仍在使用。"))
    } else {
        (
            SuggestedAction::Review,
            RiskLevel::Medium,
            owned("该目录包含多类文件，建议先确认用途，再决定是否整体删除或只清理其中部分文件。"),
        )
    }
}

/// The lines of the local explanation of a directory.
pub open spec fn dir_details(
    n: int,
    total: int,
    empty_dir: bool,
    temp: int,
    archive: int,
    dup: int,
    large: int,
) -> Seq<Seq<char>> {
    seq!["这是一个目录，共包含 "@ + decimal(n as nat) + " 个文件，总大小约 "@ + size_text(total as nat) + "。"@]
        + hint_if(empty_dir, "它在本次扫描中被识别为空目录。"@)
        + hint_if(temp > 0, "其中有 "@ + decimal(temp as nat) + " 个临时/缓存类文件。"@)
        + hint_if(archive > 0, "其中有 "@ + decimal(archive as nat) + " 个压缩包或安装包。"@)
        + hint_if(dup > 0, "目录内涉及 "@ + decimal(dup as nat) + " 个重复文件副本。"@)
        + hint_if(large > 0, "其中有 "@ + decimal(large as nat) + " 个较大文件，删除前应先确认用途。"@)
}

/// The local explanation of a directory holding `files`.
pub open spec fn local_dir_insight(
    report: ScanReport,
    dir: Seq<char>,
    files: Seq<FileRecord>,
    empty_dir: bool,
    r: FileAiInsight,
) -> bool {
    let temp = count_under(report.analysis.temporary_files@, dir);
    let archive = count_under(report.analysis.archive_files@, dir);
    let dup = dup_under(report.dedup.groups@, dir);
    let large = count_under(report.analysis.large_files@, dir);
    let v = dir_verdict(files.len() as int, empty_dir, temp, archive, dup, large);
    &&& r.path@ == dir
    &&& r.target_kind == AiInsightTargetKind::Directory
    &&& r.source@ == "local_rules"@
    &&& r.summary@ == concat(dir_details(files.len() as int, sizes_sum(files), empty_dir, temp, archive, dup, large))
    &&& r.suggested_action == v.0
    &&& r.risk == v.1
    &&& r.reason@ == v.2
    &&& !r.remote_attempted
    &&& !r.used_fallback
    &&& r.fallback_reason is None
}

fn push_count_line(lines: &mut Vec<Vec<char>>, n: usize, pre: &str, post: &str)
    ensures
        crate::text::views(final(lines)@) == crate::text::views(old(lines)@) + hint_if(
            n > 0,
            pre@ + decimal(n as nat) + post@,
        ),
{
    if n > 0 {
        let mut line: Vec<char> = Vec::new();
        append_str(&mut line, pre);
        push_decimal(&mut line, n as u64);
        append_str(&mut line, post);
        let ghost before = lines@;
        lines.push(line);
        assert(crate::text::views(lines@) =~= crate::text::views(before).push(pre@ + decimal(n as nat) + post@));
    } else {
        assert(crate::text::views(lines@) =~= crate::text::views(old(lines)@) + hint_if(
            n > 0,
            pre@ + decimal(n as nat) + post@,
        ));
    }
}

/// `build_local_directory_insight`: the local explanation of a directory.
pub fn build_local_directory_insight(
    report: &ScanReport,
    dir_path: &str,
    files: &Vec<FileRecord>,
    is_known_empty_dir: bool,
) -> (r: FileAiInsight)
    requires
        sizes_sum(files@) <= u64::MAX,
        dup_under(report.dedup.groups@, dir_path@) <= usize::MAX,
    ensures
        local_dir_insight(*report, dir_path@, files@, is_known_empty_dir, r),
{
    let total = crate::analyzer::sum_sizes(files);
    let duplicate_count = dup_under_exec(&report.dedup.groups, dir_path);
    let temporary_count = count_under_exec(&report.analysis.temporary_files, dir_path);
    let archive_count = count_under_exec(&report.analysis.archive_files, dir_path);
    let large_count = count_under_exec(&report.analysis.large_files, dir_path);
    let size = format_bytes_human(total);
    let mut first: Vec<char> = Vec::new();
    append_str(&mut first, "这是一个目录，共包含 ");
    push_decimal(&mut first, files.len() as u64);
    append_str(&mut first, " 个文件，总大小约 ");
    append_str(&mut first, size.as_str());
    append_str(&mut first, "。");
    let mut lines: Vec<Vec<char>> = Vec::new();
    lines.push(first);
    push_line(&mut lines, is_known_empty_dir, "它在本次扫描中被识别为空目录。");
    push_count_line(&mut lines, temporary_count, "其中有 ", " 个临时/缓存类文件。");
    push_count_line(&mut lines, archive_count, "其中有 ", " 个压缩包或安装包。");
    push_count_line(&mut lines, duplicate_count, "目录内涉及 ", " 个重复文件副本。");
    push_count_line(&mut lines, large_count, "其中有 ", " 个较大文件，删除前应先确认用途。");
    assert(crate::text::views(lines@) =~= dir_details(
        files@.len() as int,
        sizes_sum(files@),
        is_known_empty_dir,
        temporary_count as int,
        archive_count as int,
        duplicate_count as int,
        large_count as int,
    ));
    let (action, risk, reason) = baseline_suggestion_for_directory(
        files.as_slice(),
        is_known_empty_dir,
        temporary_count,
        archive_count,
        duplicate_count,
        large_count,
    );
    FileAiInsight {
        path: owned(dir_path),
        target_kind: AiInsightTargetKind::Directory,
        source: owned("local_rules"),
        summary: concat_exec(&lines),
        suggested_action: action,
        risk,
        reason,
        remote_attempted: false,
        used_fallback: false,
        fallback_reason: None,
    }
}

/// `Path::is_absolute` on Windows: a drive and a root.
pub open spec fn is_absolute(p: Seq<char>) -> bool {
    has_drive(p) && has_root(p)
}

/// `Path::join` on Windows: a path with a drive replaces the base, a path
/// with a root keeps only the base's drive, anything else goes below it.
pub open spec fn join_paths(base: Seq<char>, p: Seq<char>) -> Seq<char> {
    if has_drive(p) {
        p
    } else if has_root(p) {
        (if has_drive(base) {
            base.subrange(0, 2)
        } else {
            Seq::empty()
        }) + p
    } else {
        path_join(base, p)
    }
}

/// A path of a report: an absolute path as it is, else below the root.
pub open spec fn resolved_path(root: Seq<char>, p: Seq<char>) -> Seq<char> {
    if is_absolute(p) {
        p
    } else {
        join_paths(root, p)
    }
}

fn drive_and_root(p: &Vec<char>) -> (r: (bool, bool))
    ensures
        r.0 == has_drive(p@),
        r.1 == has_root(p@),
{
    let n = p.len();
    let drive = n >= 2 && p[1] == ':' && (('a' <= p[0] && p[0] <= 'z') || ('A' <= p[0] && p[0] <= 'Z'));
    let start: usize = if drive { 2 } else { 0 };
    let root = start < n && (p[start] == '/' || p[start] == '\\');
    proof {
        if drive {
            assert(crate::paths::after_drive(p@) =~= p@.subrange(2, p@.len() as int));
        }
    }
    (drive, root)
}

/// `resolve_report_file_path`.
pub fn resolve_report_file_path(report: &ScanReport, path: &str) -> (r: String)
    ensures
        r@ == resolved_path(report.root@, path@),
{
    let p = chars_of(path);
    let (drive, root) = drive_and_root(&p);
    if drive {
        return string_of(p.as_slice());
    }
    if root {
        let base = chars_of(report.root.as_str());
        let (base_drive, _) = drive_and_root(&base);
        let mut out: Vec<char> = Vec::new();
        if base_drive {
            out.push(base[0]);
            out.push(base[1]);
        }
        append_chars(&mut out, p.as_slice());
        proof {
            if base_drive {
                assert(seq![base@[0], base@[1]] =~= base@.subrange(0, 2));
            }
        }
        assert(out@ =~= join_paths(report.root@, path@));
        return string_of(out.as_slice());
    }
    let out = path_join_exec(report.root.as_str(), p.as_slice());
    string_of(out.as_slice())
}

/// The first scanned file with the path, or -1.
pub open spec fn first_file(files: Seq<FileRecord>, p: Seq<char>) -> int
    decreases files.len(),
{
    if files.len() == 0 {
        -1
    } else {
        let f = first_file(files.drop_last(), p);
        if f >= 0 {
            f
        } else if same_path(files.last().path@, p) {
            files.len() - 1
        } else {
            -1
        }
    }
}

proof fn lemma_first_file(s: Seq<FileRecord>, p: Seq<char>, m: int)
    requires
        0 <= m <= s.len(),
    ensures
        -1 <= first_file(s, p) < s.len(),
        first_file(s.take(m), p) >= 0 ==> first_file(s, p) == first_file(s.take(m), p),
    decreases s.len(),
{
    if s.len() > 0 {
        if m == s.len() {
            assert(s.take(m) =~= s);
            lemma_first_file(s.drop_last(), p, m - 1);
        } else {
            assert(s.drop_last().take(m) =~= s.take(m));
            lemma_first_file(s.drop_last(), p, m);
        }
    }
}

fn find_file(s: &Vec<FileRecord>, p: &str) -> (r: Option<usize>)
    ensures
        match r {
            Some(k) => k == first_file(s@, p@) && k < s@.len(),
            None => first_file(s@, p@) < 0,
        },
{
    let mut i: usize = 0;
    while i < s.len()
        invariant
            i <= s@.len(),
            first_file(s@.take(i as int), p@) == -1,
        decreases s@.len() - i,
    {
        assert(s@.take(i + 1).drop_last() =~= s@.take(i as int));
        if same_path_exec(s[i].path.as_str(), p) {
            proof {
                lemma_first_file(s@, p@, i + 1);
            }
            return Some(i);
        }
        i += 1;
    }
    assert(s@.take(s@.len() as int) =~= s@);
    None
}

/// Some entry of the list is the path.
pub open spec fn lists_path(dirs: Seq<String>, p: Seq<char>) -> bool {
    exists|i: int| 0 <= i < dirs.len() && same_path(#[trigger] dirs[i]@, p)
}

fn lists_path_exec(dirs: &Vec<String>, p: &str) -> (r: bool)
    ensures
        r == lists_path(dirs@, p@),
{
    let mut i: usize = 0;
    while i < dirs.len()
        invariant
            i <= dirs@.len(),
            forall|k: int| 0 <= k < i ==> !same_path(#[trigger] dirs@[k]@, p@),
        decreases dirs@.len() - i,
    {
        if same_path_exec(dirs[i].as_str(), p) {
            return true;
        }
        i += 1;
    }
    false
}

/// The answer when the file is not among the scanned files.
pub const FILE_NOT_FOUND: &'static str = "未在最近一次扫描结果中找到该文件。";

/// The answer when the path is neither a scanned file nor a directory of
/// the scan.
pub const PATH_NOT_FOUND: &'static str = "未在最近一次扫描结果中找到该路径。";

/// The explanation of a file before any remote advice: the local
/// explanation of a scanned file, or the answer that it was not scanned.
pub fn local_file_explanation(report: &ScanReport, path: &str) -> (r: Result<FileAiInsight, String>)
    ensures
        ({
            let p = resolved_path(report.root@, path@);
            let k = first_file(report.scanned_files@, p);
            match r {
                Ok(i) => k >= 0 && local_file_insight(*report, report.scanned_files@[k], i),
                Err(e) => k < 0 && e@ == FILE_NOT_FOUND@,
            }
        }),
{
    let resolved = resolve_report_file_path(report, path);
    match find_file(&report.scanned_files, resolved.as_str()) {
        Some(k) => Ok(build_local_file_insight(report, &report.scanned_files[k])),
        None => Err(owned(FILE_NOT_FOUND)),
    }
}

/// The explanation of a path before any remote advice: the local
/// explanation of a scanned file, or of a directory of the scan (one holding scanned files,
/// a known empty directory, or the root), or the answer that the path was
/// not scanned.
pub fn local_path_explanation(report: &ScanReport, path: &str) -> (r: Result<FileAiInsight, String>)
    requires
        sizes_sum(dir_files(report.scanned_files@, resolved_path(report.root@, path@))) <= u64::MAX,
        dup_under(report.dedup.groups@, resolved_path(report.root@, path@)) <= usize::MAX,
    ensures
        ({
            let p = resolved_path(report.root@, path@);
            let k = first_file(report.scanned_files@, p);
            let files = dir_files(report.scanned_files@, p);
            let empty = lists_path(report.analysis.empty_dirs@, p);
            if k >= 0 {
                r matches Ok(i) && local_file_insight(*report, report.scanned_files@[k], i)
            } else if files.len() > 0 || empty || same_path(p, report.root@) {
                r matches Ok(i) && local_dir_insight(*report, p, files, empty, i)
            } else {
                r matches Err(e) && e@ == PATH_NOT_FOUND@
            }
        }),
{
    let resolved = resolve_report_file_path(report, path);
    let rp = resolved.as_str();
    let files = directory_files(report, rp);
    let empty = lists_path_exec(&report.analysis.empty_dirs, rp);
    match find_file(&report.scanned_files, rp) {
        Some(k) => Ok(build_local_file_insight(report, &report.scanned_files[k])),
        None => {
            if files.len() > 0 || empty || same_path_exec(rp, report.root.as_str()) {
                Ok(build_local_directory_insight(report, rp, &files, empty))
            } else {
                Err(owned(PATH_NOT_FOUND))
            }
        },
    }
}

/// What remote advice says of a file or directory.
#[derive(Clone, Debug)]
pub struct AiFileInsightResponse {
    pub summary: String,
    pub suggested_action: SuggestedAction,
    pub risk: RiskLevel,
    pub reason: String,
}

/// The explanation once remote advice has answered: its texts where they
/// are not blank, its action only as far as the local one allows, and the
/// higher of the two risks.
pub fn remote_path_insight(local: &FileAiInsight, response: AiFileInsightResponse, model: &str) -> (r: FileAiInsight)
    ensures
        r.path == local.path,
        r.target_kind == local.target_kind,
        r.source@ == "remote:"@ + model@,
        r.summary@ == crate::process::non_empty_or_text(response.summary@, local.summary@),
        r.suggested_action == sanitized_action(local.suggested_action, local.risk, response.suggested_action),
        r.risk == higher_risk(local.risk, response.risk),
        r.reason@ == crate::process::non_empty_or_text(response.reason@, local.reason@),
        r.remote_attempted,
        !r.used_fallback,
        r.fallback_reason is None,
{
    let baseline = FileSuggestion {
        path: local.path.clone(),
        action: local.suggested_action,
        risk: local.risk,
        reason: local.reason.clone(),
    };
    let ai_item = FileSuggestion {
        path: local.path.clone(),
        action: response.suggested_action,
        risk: response.risk,
        reason: response.reason.clone(),
    };
    let action = sanitize_ai_action(&baseline, &ai_item);
    let mut source: Vec<char> = Vec::new();
    append_str(&mut source, "remote:");
    append_str(&mut source, model);
    FileAiInsight {
        path: local.path.clone(),
        target_kind: local.target_kind,
        source: string_of(source.as_slice()),
        summary: crate::process::non_empty_or(response.summary, local.summary.clone()),
        suggested_action: action,
        risk: max_risk(local.risk, response.risk),
        reason: crate::process::non_empty_or(response.reason, local.reason.clone()),
        remote_attempted: true,
        used_fallback: false,
        fallback_reason: None,
    }
}

/// What came of asking remote advice for an explanation.
pub enum ExplainOutcome {
    /// No API key is configured: nothing was asked.
    NoKey,
    /// The explanation refined by remote advice.
    Answered(FileAiInsight),
    /// The request or its reply failed, for the given reason.
    Failed(String),
}

/// The answer when remote advice is required but no key is configured.
pub const STRICT_NO_KEY: &'static str = "当前未配置可用的 AI API Key，且已启用“仅允许远程 AI，不允许静默回退”。";

/// An explanation once remote advice was asked or not: the refined
/// explanation, or the local one (marked as a fallback where
/// the request failed); in strict mode a missing key or a failed request
/// is an error instead.
pub fn finish_explanation(local: FileAiInsight, outcome: ExplainOutcome, strict: bool) -> (r: Result<FileAiInsight, String>)
    ensures
        match outcome {
            ExplainOutcome::NoKey => if strict {
                r matches Err(e) && e@ == STRICT_NO_KEY@
            } else {
                r == Ok::<FileAiInsight, String>(local)
            },
            ExplainOutcome::Answered(i) => r == Ok::<FileAiInsight, String>(i),
            ExplainOutcome::Failed(reason) => if strict {
                r matches Err(e) && e@ == "远程 AI 调用失败："@ + reason@
            } else {
                r == Ok::<FileAiInsight, String>(
                    FileAiInsight {
                        remote_attempted: true,
                        used_fallback: true,
                        fallback_reason: Some(reason),
                        ..local
                    },
                )
            },
        },
{
    match outcome {
        ExplainOutcome::NoKey => {
            if strict {
                Err(owned(STRICT_NO_KEY))
            } else {
                Ok(local)
            }
        },
        ExplainOutcome::Answered(i) => Ok(i),
        ExplainOutcome::Failed(reason) => {
            if strict {
                let mut e: Vec<char> = Vec::new();
                append_str(&mut e, "远程 AI 调用失败：");
                append_str(&mut e, reason.as_str());
                Err(string_of(e.as_slice()))
            } else {
                let mut f = local;
                f.remote_attempted = true;
                f.used_fallback = true;
                f.fallback_reason = Some(reason);
                Ok(f)
            }
        },
    }
}

/// The suggestions offered to remote review: all but the kept copies, at
/// most `max_items` of them.
pub open spec fn review_candidates_of(s: Seq<FileSuggestion>, max_items: usize) -> Seq<FileSuggestion> {
    crate::sorting::at_most(s.filter(|x: FileSuggestion| x.action != SuggestedAction::Keep), max_items as int)
}

/// What is sent to remote review: the suggestions that are not kept
/// copies, at most `max_items` of them.
pub fn review_candidates(suggestions: &Vec<FileSuggestion>, max_items: usize) -> (r: Vec<FileSuggestion>)
    ensures
        r@ == review_candidates_of(suggestions@, max_items),
{
    let ghost pred = |x: FileSuggestion| x.action != SuggestedAction::Keep;
    let mut out: Vec<FileSuggestion> = Vec::new();
    let mut i: usize = 0;
    while i < suggestions.len()
        invariant
            i <= suggestions@.len(),
            pred == (|x: FileSuggestion| x.action != SuggestedAction::Keep),
            out@ == suggestions@.take(i as int).filter(pred),
        decreases suggestions@.len() - i,
    {
        proof {
            reveal(Seq::filter);
            assert(suggestions@.take(i + 1).drop_last() =~= suggestions@.take(i as int));
        }
        if suggestions[i].action != SuggestedAction::Keep {
            out.push(copy_suggestion(&suggestions[i]));
        }
        i += 1;
    }
    assert(suggestions@.take(suggestions@.len() as int) =~= suggestions@);
    out.truncate(max_items);
    out
}

/// `build_advice` with the local rules alone: their suggestions and the
/// summary of them.
pub fn local_advice_with(analysis: &AnalysisResult, dedup: &DedupResult, suggestions: Vec<FileSuggestion>) -> (r: AdvisorOutput)
    ensures
        r.source@ == "local_rules"@,
        r.suggestions == suggestions,
        r.summary@ == display_summary(*analysis, *dedup, suggestions@),
{
    let summary = build_display_summary(analysis, dedup, &suggestions);
    AdvisorOutput { source: owned("local_rules"), summary, suggestions }
}

/// `build_advice` once remote review has answered: its summary where it is
/// not blank (else the local one), and the local suggestions with the
/// bounded changes remote review may make.
pub fn remote_advice(
    analysis: &AnalysisResult,
    dedup: &DedupResult,
    suggestions: &Vec<FileSuggestion>,
    ai_summary: String,
    ai_suggestions: &Vec<FileSuggestion>,
    model: &str,
) -> (r: AdvisorOutput)
    ensures
        r.source@ == "remote:"@ + model@,
        r.summary@ == if crate::text::is_blank(ai_summary@) {
            display_summary(*analysis, *dedup, suggestions@)
        } else {
            crate::text::trim(ai_summary@)
        },
        r.suggestions@.len() == suggestions@.len(),
        forall|i: int|
            0 <= i < r.suggestions@.len() ==> merged_with(#[trigger] suggestions@[i], ai_suggestions@, r.suggestions@[i]),
{
    let summary = if crate::text::is_blank_str(ai_summary.as_str()) {
        build_display_summary(analysis, dedup, suggestions)
    } else {
        let t = crate::text::trim_str(ai_summary.as_str());
        string_of(t.as_slice())
    };
    let merged = merge_ai_suggestions(suggestions, ai_suggestions);
    let mut source: Vec<char> = Vec::new();
    append_str(&mut source, "remote:");
    append_str(&mut source, model);
    AdvisorOutput { source: string_of(source.as_slice()), summary, suggestions: merged }
}

/// What the remote review answered: its summary and its suggestions.
#[derive(Clone, Debug)]
pub struct ReviewReply {
    pub summary: String,
    pub suggestions: Vec<FileSuggestion>,
}

/// `build_advice` once the remote review is over: its merged advice where
/// it answered, and the local rules' advice where it was not asked or
/// failed, so that a failed review never leaves the report without advice.
pub fn advice_after_review(
    analysis: &AnalysisResult,
    dedup: &DedupResult,
    suggestions: Vec<FileSuggestion>,
    reply: Option<ReviewReply>,
    model: &str,
) -> (r: AdvisorOutput)
    ensures
        match reply {
            None => {
                &&& r.source@ == "local_rules"@
                &&& r.suggestions == suggestions
                &&& r.summary@ == display_summary(*analysis, *dedup, suggestions@)
            },
            Some(a) => {
                &&& r.source@ == "remote:"@ + model@
                &&& r.summary@ == if crate::text::is_blank(a.summary@) {
                    display_summary(*analysis, *dedup, suggestions@)
                } else {
                    crate::text::trim(a.summary@)
                }
                &&& r.suggestions@.len() == suggestions@.len()
                &&& forall|i: int|
                    0 <= i < r.suggestions@.len() ==> merged_with(#[trigger] suggestions@[i], a.suggestions@, r.suggestions@[i])
            },
        },
{
    match reply {
        None => local_advice_with(analysis, dedup, suggestions),
        Some(a) => remote_advice(analysis, dedup, &suggestions, a.summary, &a.suggestions, model),
    }
}

} // verus!
