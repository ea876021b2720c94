//! Governance of startup entries in the registry: reading the entries a
//! registry query lists, the issues an entry shows, and the one change the
//! tool makes (disabling an entry of the current user), always backed up
//! first and undone from that backup. Querying and writing the registry
//! are left to the caller.

use vstd::prelude::*;
use crate::models::{ExecutionMode, RiskLevel, SuggestedAction, Timestamp};
use crate::migration_run::{millis_fit, run_label};
use crate::remote::{first_index, first_index_exec, lemma_index_bounds};
use crate::scan_cache::split_lines;
use crate::text::{
    append_chars, append_str, chars_of, signed_decimal, replace_all, replace_all_exec, contains, contains_lit, copy_chars, eq_chars, join, join_exec, lower, owned,
    split_pieces, starts_with, string_of, string_views, to_lower, trim, trim_chars, trim_start, trim_start_chars, views,
    words,
};

verus! {

/// The hive an entry lives in.
#[derive(Clone, Copy, Debug, PartialEq, Eq, Structural)]
pub enum RegistryRootKey {
    /// The current user's hive.
    Hkcu,
    /// The machine-wide hive.
    Hklm,
}

/// How an entry's value is typed.
#[derive(Clone, Copy, Debug, PartialEq, Eq, Structural)]
pub enum RegistryValueDataKind {
    String,
    ExpandString,
}

/// What an entry is for.
#[derive(Clone, Copy, Debug, PartialEq, Eq, Structural)]
pub enum RegistryEntryKind {
    Startup,
}

/// The kinds of issue an entry may show.
#[derive(Clone, Copy, Debug, PartialEq, Eq, Structural)]
pub enum RegistryIssueKind {
    /// The program the entry starts is not on disk.
    MissingTarget,
    /// The command line holds a space but is not quoted.
    MissingQuotedPath,
}

/// A startup entry as read from the registry.
#[derive(Clone, Debug)]
pub struct RegistryEntryRecord {
    pub id: String,
    pub root_key: RegistryRootKey,
    pub sub_key: String,
    pub value_name: String,
    pub value_kind: RegistryValueDataKind,
    pub value_data: String,
    pub entry_kind: RegistryEntryKind,
    pub display_name: String,
    pub target_path: Option<String>,
    pub exists_on_disk: bool,
    pub safe_to_modify: bool,
    pub risk_level: RiskLevel,
    pub tags: Vec<String>,
}

/// An issue found on an entry, with the checks to make around fixing it.
#[derive(Clone, Debug)]
pub struct RegistryIssue {
    pub id: String,
    pub entry_id: String,
    pub issue_kind: RegistryIssueKind,
    pub title: String,
    pub summary: String,
    pub risk_level: RiskLevel,
    pub suggested_action: SuggestedAction,
    pub pre_check_items: Vec<String>,
    pub post_check_items: Vec<String>,
}

/// The name of a hive as `reg` writes it.
pub open spec fn root_name(key: RegistryRootKey) -> Seq<char> {
    match key {
        RegistryRootKey::Hkcu => "HKCU"@,
        RegistryRootKey::Hklm => "HKLM"@,
    }
}

/// The name of a hive as `reg` writes it.
pub fn root_key_name(key: RegistryRootKey) -> (r: &'static str)
    ensures
        r@ == root_name(key),
{
    match key {
        RegistryRootKey::Hkcu => "HKCU",
        RegistryRootKey::Hklm => "HKLM",
    }
}

/// The value written to disable an entry: its command, trimmed, behind a
/// marker that keeps it from running.
pub open spec fn disabled_text(current: Seq<char>) -> Seq<char> {
    "REM_DISABLED_BY_SDC "@ + trim(current)
}

/// The value written to disable an entry.
pub fn disabled_value(current: &str) -> (r: String)
    ensures
        r@ == disabled_text(current@),
{
    let mut v = chars_of("REM_DISABLED_BY_SDC ");
    let t = trim_chars(chars_of(current).as_slice());
    append_chars(&mut v, t.as_slice());
    string_of(v.as_slice())
}

/// Whether a command line holds a space without starting with a quote.
pub open spec fn lacks_quotes(value: Seq<char>) -> bool {
    contains(value, " "@) && !starts_with(trim_start(value), "\""@)
}

/// The issues an entry shows, in this order: a target missing from disk,
/// then a command line that needs quotes.
pub open spec fn issue_kinds(e: RegistryEntryRecord) -> Seq<RegistryIssueKind> {
    (if e.exists_on_disk { Seq::empty() } else { seq![RegistryIssueKind::MissingTarget] })
        + (if lacks_quotes(e.value_data@) { seq![RegistryIssueKind::MissingQuotedPath] } else { Seq::empty() })
}

/// The texts of an issue of the given kind on the entry `id`: its id,
/// title, summary, risk, checks before and checks after.
pub open spec fn issue_texts(kind: RegistryIssueKind, id: Seq<char>) -> (Seq<char>, Seq<char>, Seq<char>, RiskLevel, Seq<Seq<char>>, Seq<Seq<char>>) {
    match kind {
        RegistryIssueKind::MissingTarget => (
            "issue:"@ + id + ":missing-target"@,
            "启动项引用的路径不存在"@,
            "该启动项的目标路径当前无法在磁盘上找到。"@,
            RiskLevel::Low,
            seq!["确认目标程序不是便携版或位于可移动磁盘"@],
            seq!["如果确认无用，可禁用该启动项并重启验证"@],
        ),
        RegistryIssueKind::MissingQuotedPath => (
            "issue:"@ + id + ":quote"@,
            "启动项路径可能缺少引号"@,
            "带空格的命令行未被引号包裹，可能导致路径解析异常。"@,
            RiskLevel::Medium,
            seq!["确认该命令行是否包含参数"@],
            seq!["修复后重启验证是否仍能正常启动应用"@],
        ),
    }
}

/// An issue is of its kind on its entry, is to be reviewed, and carries
/// that kind's texts.
pub open spec fn issue_fits(i: RegistryIssue, kind: RegistryIssueKind, entry_id: Seq<char>) -> bool {
    let t = issue_texts(kind, entry_id);
    &&& i.issue_kind == kind
    &&& i.entry_id@ == entry_id
    &&& i.suggested_action == SuggestedAction::Review
    &&& i.id@ == t.0
    &&& i.title@ == t.1
    &&& i.summary@ == t.2
    &&& i.risk_level == t.3
    &&& string_views(i.pre_check_items@) == t.4
    &&& string_views(i.post_check_items@) == t.5
}

fn one_item(s: &str) -> (r: Vec<String>)
    ensures
        string_views(r@) == seq![s@],
{
    let mut v: Vec<String> = Vec::new();
    v.push(owned(s));
    assert(string_views(v@) =~= seq![s@]);
    v
}

fn issue_of(kind: RegistryIssueKind, entry_id: &String) -> (i: RegistryIssue)
    ensures
        issue_fits(i, kind, entry_id@),
{
    let mut id = chars_of("issue:");
    append_str(&mut id, entry_id.as_str());
    match kind {
        RegistryIssueKind::MissingTarget => {
            append_str(&mut id, ":missing-target");
            RegistryIssue {
                id: string_of(id.as_slice()),
                entry_id: entry_id.clone(),
                issue_kind: kind,
                title: owned("启动项引用的路径不存在"),
                summary: owned("该启动项的目标路径当前无法在磁盘上找到。"),
                risk_level: RiskLevel::Low,
                suggested_action: SuggestedAction::Review,
                pre_check_items: one_item("确认目标程序不是便携版或位于可移动磁盘"),
                post_check_items: one_item("如果确认无用，可禁用该启动项并重启验证"),
            }
        },
        RegistryIssueKind::MissingQuotedPath => {
            append_str(&mut id, ":quote");
            RegistryIssue {
                id: string_of(id.as_slice()),
                entry_id: entry_id.clone(),
                issue_kind: kind,
                title: owned("启动项路径可能缺少引号"),
                summary: owned("带空格的命令行未被引号包裹，可能导致路径解析异常。"),
                risk_level: RiskLevel::Medium,
                suggested_action: SuggestedAction::Review,
                pre_check_items: one_item("确认该命令行是否包含参数"),
                post_check_items: one_item("修复后重启验证是否仍能正常启动应用"),
            }
        },
    }
}

impl RegistryIssue {
    /// A copy of the issue.
    pub fn clone_issue(&self) -> (r: RegistryIssue)
        ensures
            r.issue_kind == self.issue_kind,
            r.entry_id == self.entry_id,
            r.suggested_action == self.suggested_action,
            r.id == self.id,
            r.title == self.title,
            r.summary == self.summary,
            r.risk_level == self.risk_level,
            r.pre_check_items@ == self.pre_check_items@,
            r.post_check_items@ == self.post_check_items@,
    {
        RegistryIssue {
            id: self.id.clone(),
            entry_id: self.entry_id.clone(),
            issue_kind: self.issue_kind,
            title: self.title.clone(),
            summary: self.summary.clone(),
            risk_level: self.risk_level,
            suggested_action: self.suggested_action,
            pre_check_items: crate::text::copy_strings(&self.pre_check_items),
            post_check_items: crate::text::copy_strings(&self.post_check_items),
        }
    }
}

/// Whether a command line holds a space without starting with a quote.
pub fn lacks_quotes_exec(value: &str) -> (r: bool)
    ensures
        r == lacks_quotes(value@),
{
    let v = chars_of(value);
    if !contains_lit(v.as_slice(), " ") {
        return false;
    }
    let t = trim_start_chars(v.as_slice());
    !crate::text::starts_with_lit(t.as_slice(), "\"")
}

/// The issues an entry shows, each to be reviewed rather than fixed blindly.
pub fn build_issues_for_entry(entry: &RegistryEntryRecord) -> (r: Vec<RegistryIssue>)
    ensures
        r@.len() == issue_kinds(*entry).len(),
        forall|k: int| 0 <= k < r@.len() ==> issue_fits(#[trigger] r@[k], issue_kinds(*entry)[k], entry.id@),
{
    let mut issues: Vec<RegistryIssue> = Vec::new();
    if !entry.exists_on_disk {
        issues.push(issue_of(RegistryIssueKind::MissingTarget, &entry.id));
    }
    if lacks_quotes_exec(entry.value_data.as_str()) {
        issues.push(issue_of(RegistryIssueKind::MissingQuotedPath, &entry.id));
    }
    issues
}

/// The issues of a list of entries, entry by entry: the id of the entry
/// each concerns and its kind.
pub open spec fn issue_plan(entries: Seq<RegistryEntryRecord>) -> Seq<(Seq<char>, RegistryIssueKind)>
    decreases entries.len(),
{
    if entries.len() == 0 {
        Seq::empty()
    } else {
        let e = entries.last();
        issue_plan(entries.drop_last()) + issue_kinds(e).map_values(|k: RegistryIssueKind| (e.id@, k))
    }
}

/// The issues the entries show, entry by entry, each in the order
/// [`build_issues_for_entry`] gives them.
pub fn build_path_issues(entries: &Vec<RegistryEntryRecord>) -> (r: Vec<RegistryIssue>)
    ensures
        r@.len() == issue_plan(entries@).len(),
        forall|k: int| 0 <= k < r@.len() ==> issue_fits(#[trigger] r@[k], issue_plan(entries@)[k].1, issue_plan(entries@)[k].0),
{
    let mut out: Vec<RegistryIssue> = Vec::new();
    let mut i: usize = 0;
    while i < entries.len()
        invariant
            i <= entries@.len(),
            out@.len() == issue_plan(entries@.take(i as int)).len(),
            forall|k: int| 0 <= k < out@.len() ==> issue_fits(#[trigger] out@[k], issue_plan(entries@.take(i as int))[k].1, issue_plan(entries@.take(i as int))[k].0),
        decreases entries@.len() - i,
    {
        let e = &entries[i];
        let ghost before = issue_plan(entries@.take(i as int));
        let ghost added = issue_kinds(*e).map_values(|k: RegistryIssueKind| (e.id@, k));
        assert(entries@.take(i + 1).drop_last() =~= entries@.take(i as int));
        assert(entries@.take(i + 1).last() == *e);
        assert(issue_plan(entries@.take(i + 1)) == before + added);
        let issues = build_issues_for_entry(e);
        let ghost start = out@.len();
        let mut j: usize = 0;
        while j < issues.len()
            invariant
                j <= issues@.len(),
                issues@.len() == issue_kinds(*e).len(),
                forall|k: int| 0 <= k < issues@.len() ==> issue_fits(#[trigger] issues@[k], issue_kinds(*e)[k], e.id@),
                start == before.len(),
                out@.len() == start + j,
                added == issue_kinds(*e).map_values(|k: RegistryIssueKind| (e.id@, k)),
                forall|k: int| 0 <= k < out@.len() ==> issue_fits(#[trigger] out@[k], (before + added)[k].1, (before + added)[k].0),
            decreases issues@.len() - j,
        {
            let ghost n = out@.len();
            out.push(issues[j].clone_issue());
            assert forall|k: int| 0 <= k < out@.len() implies issue_fits(#[trigger] out@[k], (before + added)[k].1, (before + added)[k].0) by {
                if k == n {
                    assert((before + added)[k] == added[j as int]);
                    assert(added[j as int] == (e.id@, issue_kinds(*e)[j as int]));
                }
            }
            j += 1;
        }
        i += 1;
    }
    assert(entries@.take(entries@.len() as int) =~= entries@);
    out
}

/// Two entries hold the same fields.
pub open spec fn same_entry(a: RegistryEntryRecord, b: RegistryEntryRecord) -> bool {
    &&& a.id == b.id
    &&& a.root_key == b.root_key
    &&& a.sub_key == b.sub_key
    &&& a.value_name == b.value_name
    &&& a.value_kind == b.value_kind
    &&& a.value_data == b.value_data
    &&& a.entry_kind == b.entry_kind
    &&& a.display_name == b.display_name
    &&& a.target_path == b.target_path
    &&& a.exists_on_disk == b.exists_on_disk
    &&& a.safe_to_modify == b.safe_to_modify
    &&& a.risk_level == b.risk_level
    &&& a.tags@ == b.tags@
}

/// A copy of an entry.
pub fn copy_entry(e: &RegistryEntryRecord) -> (r: RegistryEntryRecord)
    ensures
        same_entry(r, *e),
{
    let target_path = match &e.target_path {
        Some(t) => Some(t.clone()),
        None => None,
    };
    let tags = crate::text::copy_strings(&e.tags);
    RegistryEntryRecord {
        id: e.id.clone(),
        root_key: e.root_key,
        sub_key: e.sub_key.clone(),
        value_name: e.value_name.clone(),
        value_kind: e.value_kind,
        value_data: e.value_data.clone(),
        entry_kind: e.entry_kind,
        display_name: e.display_name.clone(),
        target_path,
        exists_on_disk: e.exists_on_disk,
        safe_to_modify: e.safe_to_modify,
        risk_level: e.risk_level,
        tags,
    }
}

/// The position of the first entry with the id, or -1.
pub open spec fn entry_index(entries: Seq<RegistryEntryRecord>, id: Seq<char>) -> int
    decreases entries.len(),
{
    if entries.len() == 0 {
        -1
    } else {
        let f = entry_index(entries.drop_last(), id);
        if f >= 0 {
            f
        } else if entries.last().id@ == id {
            entries.len() - 1
        } else {
            -1
        }
    }
}

proof fn lemma_entry_index(entries: Seq<RegistryEntryRecord>, id: Seq<char>)
    ensures
        -1 <= entry_index(entries, id) < entries.len(),
        entry_index(entries, id) >= 0 ==> entries[entry_index(entries, id)].id@ == id,
    decreases entries.len(),
{
    if entries.len() > 0 {
        lemma_entry_index(entries.drop_last(), id);
    }
}

proof fn lemma_entry_index_prefix(entries: Seq<RegistryEntryRecord>, id: Seq<char>, m: int)
    requires
        0 <= m <= entries.len(),
        entry_index(entries.take(m), id) >= 0,
    ensures
        entry_index(entries, id) == entry_index(entries.take(m), id),
    decreases entries.len(),
{
    if m == entries.len() {
        assert(entries.take(m) =~= entries);
    } else {
        assert(entries.drop_last().take(m) =~= entries.take(m));
        lemma_entry_index_prefix(entries.drop_last(), id, m);
    }
}

/// The message of an id that names no entry.
pub open spec fn entry_not_found() -> Seq<char> {
    "未找到指定注册表项。"@
}

/// The first entry with the id, or the message that none has it.
pub fn find_entry_by_id(entries: &Vec<RegistryEntryRecord>, id: &str) -> (r: Result<RegistryEntryRecord, String>)
    ensures
        ({
            let i = entry_index(entries@, id@);
            match r {
                Ok(e) => 0 <= i < entries@.len() && same_entry(e, entries@[i]),
                Err(m) => i < 0 && m@ == entry_not_found(),
            }
        }),
{
    proof {
        lemma_entry_index(entries@, id@);
    }
    let want = chars_of(id);
    let mut i: usize = 0;
    while i < entries.len()
        invariant
            i <= entries@.len(),
            want@ == id@,
            entry_index(entries@.take(i as int), id@) == -1,
        decreases entries@.len() - i,
    {
        assert(entries@.take(i + 1).drop_last() =~= entries@.take(i as int));
        if crate::text::eq_chars(chars_of(entries[i].id.as_str()).as_slice(), want.as_slice()) {
            proof {
                lemma_entry_index_prefix(entries@, id@, i + 1);
            }
            return Ok(copy_entry(&entries[i]));
        }
        i += 1;
    }
    assert(entries@.take(entries@.len() as int) =~= entries@);
    Err(owned("未找到指定注册表项。"))
}

/// A line of a registry query that names a value: the value's name, its
/// type, and its data (the rest of the line, its words single-spaced).
#[derive(Clone, Debug)]
pub struct RegistryQueryRow {
    pub value_name: String,
    pub value_kind: String,
    pub value_data: String,
}

pub open spec fn row_view(r: RegistryQueryRow) -> (Seq<char>, Seq<char>, Seq<char>) {
    (r.value_name@, r.value_kind@, r.value_data@)
}

/// What a line of the query says: a value where the line mentions a
/// `REG_` type and has at least three words.
pub open spec fn row_of(line: Seq<char>) -> Option<(Seq<char>, Seq<char>, Seq<char>)> {
    let parts = words(line);
    if contains(line, "REG_"@) && parts.len() >= 3 {
        Some((parts[0], parts[1], join(parts.skip(2), seq![' '])))
    } else {
        None
    }
}

/// The values the lines name, in order.
pub open spec fn rows_of(lines: Seq<Seq<char>>) -> Seq<(Seq<char>, Seq<char>, Seq<char>)>
    decreases lines.len(),
{
    if lines.len() == 0 {
        Seq::empty()
    } else {
        match row_of(lines.last()) {
            Some(r) => rows_of(lines.drop_last()).push(r),
            None => rows_of(lines.drop_last()),
        }
    }
}

fn lines_of(text: &[char]) -> (r: Vec<Vec<char>>)
    ensures
        views(r@) == split_lines(text@),
{
    let mut out: Vec<Vec<char>> = Vec::new();
    let mut cur: Vec<char> = Vec::new();
    let mut i: usize = 0;
    assert(text@.take(0) =~= Seq::<char>::empty());
    assert(views(out@).push(cur@) =~= seq![Seq::<char>::empty()]);
    while i < text.len()
        invariant
            i <= text@.len(),
            views(out@).push(cur@) == split_lines(text@.take(i as int)),
        decreases text@.len() - i,
    {
        let ghost t = split_lines(text@.take(i as int));
        assert(text@.take(i + 1).drop_last() =~= text@.take(i as int));
        assert(text@.take(i + 1).last() == text@[i as int]);
        if text[i] == '\n' {
            let ghost before = views(out@);
            let done = cur;
            out.push(done);
            cur = Vec::new();
            assert(views(out@) =~= before.push(done@));
            assert(views(out@).push(cur@) =~= t.push(Seq::<char>::empty()));
        } else {
            let ghost before = views(out@);
            cur.push(text[i]);
            assert(views(out@) =~= before);
            assert(views(out@).push(cur@) =~= t.update(t.len() - 1, t.last().push(text@[i as int])));
        }
        i += 1;
    }
    assert(text@.take(text@.len() as int) =~= text@);
    let ghost before = views(out@);
    out.push(cur);
    assert(views(out@) =~= before.push(cur@));
    out
}

fn row_from_line(line: &[char]) -> (r: Option<RegistryQueryRow>)
    ensures
        match r {
            Some(row) => row_of(line@) == Some(row_view(row)),
            None => row_of(line@) is None,
        },
{
    if !contains_lit(line, "REG_") {
        return None;
    }
    let parts = split_pieces(line, true);
    if parts.len() < 3 {
        return None;
    }
    let mut rest: Vec<Vec<char>> = Vec::new();
    let mut i: usize = 2;
    while i < parts.len()
        invariant
            2 <= i <= parts@.len(),
            views(rest@) == views(parts@).subrange(2, i as int),
        decreases parts@.len() - i,
    {
        let ghost before = views(rest@);
        rest.push(copy_chars(parts[i].as_slice()));
        assert(views(rest@) =~= before.push(parts@[i as int]@));
        assert(views(parts@).subrange(2, i + 1) =~= views(parts@).subrange(2, i as int).push(parts@[i as int]@));
        i += 1;
    }
    assert(views(parts@).subrange(2, parts@.len() as int) =~= views(parts@).skip(2));
    let sep = [' '];
    assert(sep@ =~= seq![' ']);
    let data = join_exec(&rest, &sep);
    Some(RegistryQueryRow {
        value_name: string_of(parts[0].as_slice()),
        value_kind: string_of(parts[1].as_slice()),
        value_data: string_of(data.as_slice()),
    })
}

/// Reads the output of a registry query into the values it lists.
pub fn parse_reg_query(output: &str) -> (r: Vec<RegistryQueryRow>)
    ensures
        r@.map_values(|x: RegistryQueryRow| row_view(x)) == rows_of(split_lines(output@)),
{
    let lines = lines_of(chars_of(output).as_slice());
    let ghost ls = views(lines@);
    let mut rows: Vec<RegistryQueryRow> = Vec::new();
    let mut i: usize = 0;
    while i < lines.len()
        invariant
            i <= lines@.len(),
            ls == views(lines@),
            ls == split_lines(output@),
            rows@.map_values(|x: RegistryQueryRow| row_view(x)) == rows_of(ls.take(i as int)),
        decreases lines@.len() - i,
    {
        assert(ls.take(i + 1).drop_last() =~= ls.take(i as int));
        assert(ls.take(i + 1).last() == lines@[i as int]@);
        let ghost before = rows@;
        match row_from_line(lines[i].as_slice()) {
            Some(row) => {
                rows.push(row);
                assert(rows@.map_values(|x: RegistryQueryRow| row_view(x))
                    =~= before.map_values(|x: RegistryQueryRow| row_view(x)).push(row_view(row)));
            },
            None => {},
        }
        i += 1;
    }
    assert(ls.take(ls.len() as int) =~= ls);
    rows
}

pub open spec fn var_views(vars: Seq<(String, String)>) -> Seq<(Seq<char>, Seq<char>)> {
    vars.map_values(|v: (String, String)| (v.0@, v.1@))
}

/// Each `%NAME%` replaced by the variable's value, the variables applied
/// one after another in order.
pub open spec fn expand_vars(s: Seq<char>, vars: Seq<(Seq<char>, Seq<char>)>) -> Seq<char>
    decreases vars.len(),
{
    if vars.len() == 0 {
        s
    } else {
        replace_all(expand_vars(s, vars.drop_last()), seq!['%'] + vars.last().0 + seq!['%'], vars.last().1)
    }
}

/// The program a trimmed, non-empty command line starts: the part up to
/// the closing quote where it opens with one, else its first word.
pub open spec fn command_head(t: Seq<char>) -> Seq<char> {
    if t.len() > 0 && t[0] == '"' {
        let rest = t.skip(1);
        let q = first_index(rest, '"');
        if q < 0 {
            rest
        } else {
            rest.take(q)
        }
    } else {
        let w = words(t);
        if w.len() > 0 {
            w[0]
        } else {
            t
        }
    }
}

/// The path a command line starts, with the environment's variables
/// expanded; none for a blank command line.
pub open spec fn command_target_of(command_line: Seq<char>, vars: Seq<(Seq<char>, Seq<char>)>) -> Option<Seq<char>> {
    let t = trim(command_line);
    if t.len() == 0 {
        None
    } else {
        Some(expand_vars(command_head(t), vars))
    }
}

fn head_of(t: &Vec<char>) -> (r: Vec<char>)
    ensures
        r@ == command_head(t@),
{
    if t.len() > 0 && t[0] == '"' {
        let mut rest: Vec<char> = Vec::new();
        let mut j: usize = 1;
        while j < t.len()
            invariant
                1 <= j <= t@.len(),
                rest@ == t@.subrange(1, j as int),
            decreases t@.len() - j,
        {
            rest.push(t[j]);
            assert(t@.subrange(1, j + 1) =~= t@.subrange(1, j as int).push(t@[j as int]));
            j += 1;
        }
        assert(rest@ =~= t@.skip(1));
        proof {
            lemma_index_bounds(rest@, '"');
        }
        match first_index_exec(&rest, '"') {
            None => rest,
            Some(q) => {
                let mut head: Vec<char> = Vec::new();
                let mut k: usize = 0;
                while k < q
                    invariant
                        k <= q,
                        q < rest@.len(),
                        head@ == rest@.take(k as int),
                    decreases q - k,
                {
                    head.push(rest[k]);
                    assert(rest@.take(k + 1) =~= rest@.take(k as int).push(rest@[k as int]));
                    k += 1;
                }
                head
            },
        }
    } else {
        let w = split_pieces(t.as_slice(), true);
        if w.len() > 0 {
            copy_chars(w[0].as_slice())
        } else {
            copy_chars(t.as_slice())
        }
    }
}

/// The path a command line starts, with the given environment variables
/// expanded in it.
pub fn command_target(command_line: &str, vars: &Vec<(String, String)>) -> (r: Option<String>)
    ensures
        match command_target_of(command_line@, var_views(vars@)) {
            Some(t) => r matches Some(p) && p@ == t,
            None => r is None,
        },
{
    let t = trim_chars(chars_of(command_line).as_slice());
    if t.len() == 0 {
        return None;
    }
    let mut acc = head_of(&t);
    let ghost vs = var_views(vars@);
    let mut i: usize = 0;
    while i < vars.len()
        invariant
            i <= vars@.len(),
            vs == var_views(vars@),
            acc@ == expand_vars(command_head(t@), vs.take(i as int)),
        decreases vars@.len() - i,
    {
        assert(vs.take(i + 1).drop_last() =~= vs.take(i as int));
        assert(vs.take(i + 1).last() == (vars@[i as int].0@, vars@[i as int].1@));
        let mut pat = chars_of("%");
        append_str(&mut pat, vars[i].0.as_str());
        append_str(&mut pat, "%");
        proof {
            reveal_strlit("%");
        }
        assert(pat@ =~= seq!['%'] + vars@[i as int].0@ + seq!['%']);
        let value = chars_of(vars[i].1.as_str());
        acc = replace_all_exec(acc.as_slice(), pat.as_slice(), value.as_slice());
        i += 1;
    }
    assert(vs.take(vs.len() as int) =~= vs);
    Some(string_of(acc.as_slice()))
}

/// The id of an entry: its hive, key and value name.
pub open spec fn entry_id_text(root: RegistryRootKey, sub_key: Seq<char>, value_name: Seq<char>) -> Seq<char> {
    root_name(root) + ":"@ + sub_key + ":"@ + value_name
}

/// Whether two texts are equal but for ASCII case.
pub open spec fn eq_ignore_ascii_case(a: Seq<char>, b: Seq<char>) -> bool {
    lower(a) == lower(b)
}

/// The tags of a startup entry of the hive.
pub open spec fn entry_tags(root: RegistryRootKey) -> Seq<Seq<char>> {
    seq!["启动项"@, if root == RegistryRootKey::Hkcu { "当前用户"@ } else { "系统范围"@ }]
}

/// The startup entry a query row describes. Only the current user's
/// entries may be changed; the machine-wide ones are of high risk.
pub fn entry_record(
    root: RegistryRootKey,
    sub_key: &str,
    row: &RegistryQueryRow,
    target_path: Option<String>,
    exists_on_disk: bool,
) -> (e: RegistryEntryRecord)
    ensures
        e.id@ == entry_id_text(root, sub_key@, row.value_name@),
        e.root_key == root,
        e.sub_key@ == sub_key@,
        e.value_name@ == row.value_name@,
        e.value_kind == (if eq_ignore_ascii_case(row.value_kind@, "REG_EXPAND_SZ"@) {
            RegistryValueDataKind::ExpandString
        } else {
            RegistryValueDataKind::String
        }),
        e.value_data@ == row.value_data@,
        e.entry_kind == RegistryEntryKind::Startup,
        e.display_name@ == row.value_name@,
        e.target_path == target_path,
        e.exists_on_disk == exists_on_disk,
        e.safe_to_modify == (root == RegistryRootKey::Hkcu),
        e.risk_level == (if root == RegistryRootKey::Hkcu { RiskLevel::Medium } else { RiskLevel::High }),
        string_views(e.tags@) == entry_tags(root),
{
    let mut id = chars_of(root_key_name(root));
    append_str(&mut id, ":");
    append_str(&mut id, sub_key);
    append_str(&mut id, ":");
    append_str(&mut id, row.value_name.as_str());
    let kind_lower = to_lower(chars_of(row.value_kind.as_str()).as_slice());
    let expand_lower = to_lower(chars_of("REG_EXPAND_SZ").as_slice());
    let value_kind = if eq_chars(kind_lower.as_slice(), expand_lower.as_slice()) {
        RegistryValueDataKind::ExpandString
    } else {
        RegistryValueDataKind::String
    };
    let user = root == RegistryRootKey::Hkcu;
    let mut tags: Vec<String> = Vec::new();
    tags.push(owned("启动项"));
    if user {
        tags.push(owned("当前用户"));
    } else {
        tags.push(owned("系统范围"));
    }
    assert(string_views(tags@) =~= entry_tags(root));
    RegistryEntryRecord {
        id: string_of(id.as_slice()),
        root_key: root,
        sub_key: owned(sub_key),
        value_name: row.value_name.clone(),
        value_kind,
        value_data: row.value_data.clone(),
        entry_kind: RegistryEntryKind::Startup,
        display_name: row.value_name.clone(),
        target_path,
        exists_on_disk,
        safe_to_modify: user,
        risk_level: if user { RiskLevel::Medium } else { RiskLevel::High },
        tags,
    }
}

/// The kind of record the history keeps.
#[derive(Clone, Copy, Debug, PartialEq, Eq, Structural)]
pub enum OperationRecordKind {
    FileCleanup,
    Migration,
    RegistryChange,
    RegistryRollback,
}

/// A governance action as the history keeps it: what was done to which
/// entry, and the backup that undoes it.
#[derive(Clone, Debug)]
pub struct RegistryOperationRecord {
    pub at: Timestamp,
    pub path: String,
    pub mode: ExecutionMode,
    pub dry_run: bool,
    pub success: bool,
    pub detail: String,
    pub record_kind: OperationRecordKind,
    pub reason: Option<String>,
    pub rollback_reference: Option<String>,
}

/// The value of an entry as it was before a change.
#[derive(Clone, Debug)]
pub struct RegistryBackup {
    pub backup_id: String,
    pub entry: RegistryEntryRecord,
    pub original_value_data: String,
    pub created_at: Timestamp,
}

/// What a change does to an entry.
#[derive(Clone, Debug)]
pub struct RegistryChangePreview {
    pub entry: RegistryEntryRecord,
    pub risk_level: RiskLevel,
    pub backup_id: Option<String>,
    pub dry_run_supported: bool,
    pub rollback_supported: bool,
    pub before_value: String,
    pub after_value: String,
    pub post_check_items: Vec<String>,
}

/// A change that was undone.
#[derive(Clone, Debug)]
pub struct RegistryRollbackRecord {
    pub backup_id: String,
    pub restored_at: Timestamp,
    pub entry: RegistryEntryRecord,
}

/// The checks to make after disabling an entry.
pub open spec fn post_checks() -> Seq<Seq<char>> {
    seq!["重启或重新登录后确认该启动项未再自动运行"@, "确认相关应用仍可手动正常启动"@]
}

fn post_check_list() -> (r: Vec<String>)
    ensures
        string_views(r@) == post_checks(),
{
    let mut v: Vec<String> = Vec::new();
    v.push(owned("重启或重新登录后确认该启动项未再自动运行"));
    v.push(owned("确认相关应用仍可手动正常启动"));
    assert(string_views(v@) =~= post_checks());
    v
}

/// The path an entry is logged under: hive, key and value name.
pub open spec fn record_path(e: RegistryEntryRecord) -> Seq<char> {
    root_name(e.root_key) + "\\"@ + e.sub_key@ + ":"@ + e.value_name@
}

fn record_path_exec(e: &RegistryEntryRecord) -> (r: String)
    ensures
        r@ == record_path(*e),
{
    let mut v = chars_of(root_key_name(e.root_key));
    append_str(&mut v, "\\");
    append_str(&mut v, e.sub_key.as_str());
    append_str(&mut v, ":");
    append_str(&mut v, e.value_name.as_str());
    string_of(v.as_slice())
}

/// The refusal of a preview of an entry that may not be changed.
pub open spec fn preview_refusal() -> Seq<char> {
    "该注册表项当前不允许直接修改，请先人工复核。"@
}

/// The refusal of a change to an entry that may not be changed.
pub open spec fn change_refusal() -> Seq<char> {
    "该注册表项风险较高，当前版本不允许直接修改。"@
}

/// What disabling an entry would do, before anything is done: refused
/// for an entry that may not be changed.
pub fn preview_registry_change(entry: &RegistryEntryRecord) -> (r: Result<RegistryChangePreview, String>)
    ensures
        match r {
            Ok(p) => {
                &&& entry.safe_to_modify
                &&& same_entry(p.entry, *entry)
                &&& p.risk_level == entry.risk_level
                &&& p.backup_id is None
                &&& p.dry_run_supported && p.rollback_supported
                &&& p.before_value@ == entry.value_data@
                &&& p.after_value@ == disabled_text(entry.value_data@)
                &&& string_views(p.post_check_items@) == post_checks()
            },
            Err(m) => !entry.safe_to_modify && m@ == preview_refusal(),
        },
{
    if !entry.safe_to_modify {
        return Err(owned("该注册表项当前不允许直接修改，请先人工复核。"));
    }
    Ok(RegistryChangePreview {
        entry: copy_entry(entry),
        risk_level: entry.risk_level,
        backup_id: None,
        dry_run_supported: true,
        rollback_supported: true,
        before_value: entry.value_data.clone(),
        after_value: disabled_value(entry.value_data.as_str()),
        post_check_items: post_check_list(),
    })
}

/// Disabling an entry: the backup to keep first, the value to write (none
/// in a dry run), the history record and the preview of the change.
#[derive(Clone, Debug)]
pub struct RegistryApply {
    pub backup: RegistryBackup,
    pub write: Option<String>,
    pub record: RegistryOperationRecord,
    pub preview: RegistryChangePreview,
}

/// The id of a backup taken at `at`.
pub open spec fn backup_id_at(at: Timestamp) -> Seq<char> {
    "registry-backup-"@ + signed_decimal(at.secs * 1000 + at.nanos / 1_000_000)
}

/// The backup of an entry's value taken at `now`.
pub fn registry_backup(entry: &RegistryEntryRecord, now: Timestamp) -> (b: RegistryBackup)
    requires
        millis_fit(now),
    ensures
        b.backup_id@ == backup_id_at(now),
        same_entry(b.entry, *entry),
        b.original_value_data == entry.value_data,
        b.created_at == now,
{
    RegistryBackup {
        backup_id: run_label("registry-backup-", now),
        entry: copy_entry(entry),
        original_value_data: entry.value_data.clone(),
        created_at: now,
    }
}

/// What disabling `entry` at `at` gives.
pub open spec fn applied(entry: RegistryEntryRecord, dry_run: bool, at: Timestamp, a: RegistryApply) -> bool {
    let id = backup_id_at(at);
    &&& a.backup.backup_id@ == id
    &&& same_entry(a.backup.entry, entry)
    &&& a.backup.original_value_data == entry.value_data
    &&& a.backup.created_at == at
    &&& (if dry_run { a.write is None } else { a.write matches Some(w) && w@ == disabled_text(entry.value_data@) })
    &&& a.record.at == at
    &&& a.record.path@ == record_path(entry)
    &&& a.record.mode == ExecutionMode::Move
    &&& a.record.dry_run == dry_run
    &&& a.record.success
    &&& a.record.detail@ == (if dry_run { "已预演禁用启动项："@ } else { "已禁用启动项："@ }) + entry.display_name@
    &&& a.record.record_kind == OperationRecordKind::RegistryChange
    &&& a.record.reason matches Some(t) && t@ == "注册表安全治理：禁用单个启动项"@
    &&& a.record.rollback_reference matches Some(b) && b@ == id
    &&& same_entry(a.preview.entry, entry)
    &&& a.preview.risk_level == RiskLevel::Medium
    &&& a.preview.backup_id matches Some(b) && b@ == id
    &&& a.preview.dry_run_supported && a.preview.rollback_supported
    &&& a.preview.before_value@ == entry.value_data@
    &&& a.preview.after_value@ == disabled_text(entry.value_data@)
    &&& string_views(a.preview.post_check_items@) == post_checks()
}

/// Disables an entry of the current user: the backup of its value, the
/// value to write unless this is a dry run, and the history record. An
/// entry that may not be changed is refused and nothing is written.
pub fn apply_registry_change(entry: &RegistryEntryRecord, dry_run: bool, now: Timestamp) -> (r: Result<RegistryApply, String>)
    requires
        millis_fit(now),
    ensures
        match r {
            Ok(a) => entry.safe_to_modify && applied(*entry, dry_run, now, a),
            Err(m) => !entry.safe_to_modify && m@ == change_refusal(),
        },
{
    if !entry.safe_to_modify {
        return Err(owned("该注册表项风险较高，当前版本不允许直接修改。"));
    }
    let backup = registry_backup(entry, now);
    let backup_id = backup.backup_id.clone();
    let after_value = disabled_value(entry.value_data.as_str());
    let write = if dry_run { None } else { Some(after_value.clone()) };
    let mut detail = if dry_run { chars_of("已预演禁用启动项：") } else { chars_of("已禁用启动项：") };
    append_str(&mut detail, entry.display_name.as_str());
    let record = RegistryOperationRecord {
        at: now,
        path: record_path_exec(entry),
        mode: ExecutionMode::Move,
        dry_run,
        success: true,
        detail: string_of(detail.as_slice()),
        record_kind: OperationRecordKind::RegistryChange,
        reason: Some(owned("注册表安全治理：禁用单个启动项")),
        rollback_reference: Some(backup_id.clone()),
    };
    let preview = RegistryChangePreview {
        entry: copy_entry(entry),
        risk_level: RiskLevel::Medium,
        backup_id: Some(backup_id),
        dry_run_supported: true,
        rollback_supported: true,
        before_value: entry.value_data.clone(),
        after_value,
        post_check_items: post_check_list(),
    };
    Ok(RegistryApply { backup, write, record, preview })
}

/// Two backups hold the same fields.
pub open spec fn same_backup(a: RegistryBackup, b: RegistryBackup) -> bool {
    &&& a.backup_id == b.backup_id
    &&& same_entry(a.entry, b.entry)
    &&& a.original_value_data == b.original_value_data
    &&& a.created_at == b.created_at
}

/// The position of the first backup with the id, or -1.
pub open spec fn backup_index(backups: Seq<RegistryBackup>, id: Seq<char>) -> int
    decreases backups.len(),
{
    if backups.len() == 0 {
        -1
    } else {
        let f = backup_index(backups.drop_last(), id);
        if f >= 0 {
            f
        } else if backups.last().backup_id@ == id {
            backups.len() - 1
        } else {
            -1
        }
    }
}

proof fn lemma_backup_index(backups: Seq<RegistryBackup>, id: Seq<char>)
    ensures
        -1 <= backup_index(backups, id) < backups.len(),
    decreases backups.len(),
{
    if backups.len() > 0 {
        lemma_backup_index(backups.drop_last(), id);
    }
}

proof fn lemma_backup_index_prefix(backups: Seq<RegistryBackup>, id: Seq<char>, m: int)
    requires
        0 <= m <= backups.len(),
        backup_index(backups.take(m), id) >= 0,
    ensures
        backup_index(backups, id) == backup_index(backups.take(m), id),
    decreases backups.len(),
{
    if m == backups.len() {
        assert(backups.take(m) =~= backups);
    } else {
        assert(backups.drop_last().take(m) =~= backups.take(m));
        lemma_backup_index_prefix(backups.drop_last(), id, m);
    }
}

/// The message of an id that names no backup.
pub open spec fn backup_not_found() -> Seq<char> {
    "未找到指定的注册表备份记录。"@
}

/// The first backup with the id, or the message that none has it.
pub fn find_backup(backups: &Vec<RegistryBackup>, backup_id: &str) -> (r: Result<RegistryBackup, String>)
    ensures
        ({
            let i = backup_index(backups@, backup_id@);
            match r {
                Ok(b) => 0 <= i < backups@.len() && same_backup(b, backups@[i]),
                Err(m) => i < 0 && m@ == backup_not_found(),
            }
        }),
{
    proof {
        lemma_backup_index(backups@, backup_id@);
    }
    let want = chars_of(backup_id);
    let mut i: usize = 0;
    while i < backups.len()
        invariant
            i <= backups@.len(),
            want@ == backup_id@,
            backup_index(backups@.take(i as int), backup_id@) == -1,
        decreases backups@.len() - i,
    {
        assert(backups@.take(i + 1).drop_last() =~= backups@.take(i as int));
        let b = &backups[i];
        if eq_chars(chars_of(b.backup_id.as_str()).as_slice(), want.as_slice()) {
            proof {
                lemma_backup_index_prefix(backups@, backup_id@, i + 1);
            }
            return Ok(RegistryBackup {
                backup_id: b.backup_id.clone(),
                entry: copy_entry(&b.entry),
                original_value_data: b.original_value_data.clone(),
                created_at: b.created_at,
            });
        }
        i += 1;
    }
    assert(backups@.take(backups@.len() as int) =~= backups@);
    Err(owned("未找到指定的注册表备份记录。"))
}

/// Undoing a change: the value to write back, the record of the undoing
/// and its history entry.
#[derive(Clone, Debug)]
pub struct RegistryRollback {
    pub write: String,
    pub record: RegistryRollbackRecord,
    pub history: RegistryOperationRecord,
}

/// What undoing the change a backup was taken for, at `at`, gives.
pub open spec fn rolled_back(backup: RegistryBackup, at: Timestamp, r: RegistryRollback) -> bool {
    &&& r.write == backup.original_value_data
    &&& r.record.backup_id == backup.backup_id
    &&& r.record.restored_at == at
    &&& same_entry(r.record.entry, backup.entry)
    &&& r.history.at == at
    &&& r.history.path@ == record_path(backup.entry)
    &&& r.history.mode == ExecutionMode::Move
    &&& !r.history.dry_run
    &&& r.history.success
    &&& r.history.detail@ == "已回滚注册表改动："@ + backup.entry.display_name@
    &&& r.history.record_kind == OperationRecordKind::RegistryRollback
    &&& r.history.reason matches Some(t) && t@ == "注册表安全治理：回滚单次修改"@
    &&& r.history.rollback_reference == Some(backup.backup_id)
}

/// Undoes the change a backup was taken for: its original value is
/// written back.
pub fn rollback_registry_change(backup: &RegistryBackup, now: Timestamp) -> (r: RegistryRollback)
    ensures
        rolled_back(*backup, now, r),
{
    let mut detail = chars_of("已回滚注册表改动：");
    append_str(&mut detail, backup.entry.display_name.as_str());
    RegistryRollback {
        write: backup.original_value_data.clone(),
        record: RegistryRollbackRecord {
            backup_id: backup.backup_id.clone(),
            restored_at: now,
            entry: copy_entry(&backup.entry),
        },
        history: RegistryOperationRecord {
            at: now,
            path: record_path_exec(&backup.entry),
            mode: ExecutionMode::Move,
            dry_run: false,
            success: true,
            detail: string_of(detail.as_slice()),
            record_kind: OperationRecordKind::RegistryRollback,
            reason: Some(owned("注册表安全治理：回滚单次修改")),
            rollback_reference: Some(backup.backup_id.clone()),
        },
    }
}

/// A change is undone exactly: rolling back the backup a change took
/// writes back the entry's value as it was before the change, for the same
/// entry, and the history of both names the same backup.
pub proof fn law_registry_rollback_restores_value(
    entry: RegistryEntryRecord,
    dry_run: bool,
    at: Timestamp,
    a: RegistryApply,
    later: Timestamp,
    r: RegistryRollback,
)
    requires
        applied(entry, dry_run, at, a),
        rolled_back(a.backup, later, r),
    ensures
        r.write@ == entry.value_data@,
        same_entry(r.record.entry, entry),
        r.record.backup_id@ == backup_id_at(at),
        (r.history.rollback_reference matches Some(x) && x@ == backup_id_at(at)),
        (a.record.rollback_reference matches Some(y) && y@ == backup_id_at(at)),
        r.history.path@ == a.record.path@,
{
}

} // verus!
