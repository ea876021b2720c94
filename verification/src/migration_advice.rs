//! Migration advice from a scan: large files in user space that can be
//! moved at once, and application data (WeChat, Conda) that needs guided
//! or manual steps, with a plan for each.

use vstd::prelude::*;
use crate::analyzer::{copy_record, lemma_sizes_sum_prefix, sizes_sum};
use crate::migration::{build_plan_from_opportunity, category_key, category_name, plan_for, step, support_order, support_rank};
use crate::sizes::{format_bytes_human, size_text};
use crate::text::{decimal, push_decimal};
use crate::order::text_order_exec;
use crate::paths::text_order;
use crate::order::{comps_eq, comps_order_exec, path_order_exec};
use crate::paths::{comps_order, path_order};
use crate::sorting::{at_most, slot, stable_sort};
use crate::models::{
    FileRecord, MigrationActionStep, MigrationAdvisorOutput, MigrationCategory, MigrationOpportunity,
    MigrationPlan, MigrationSupportLevel, RiskLevel, ScanReport,
};
use crate::paths::{components, components_of, file_name, file_name_of, has_drive, has_root, lower_extension, names, names_of};
use crate::platform::{
    macos_system_sensitive, macos_user_space, normalized, normalized_chars, windows_system_sensitive,
    windows_user_space, is_macos_system_sensitive_path, is_macos_user_space_path,
    is_windows_system_sensitive_path, is_windows_user_space_path,
};
use crate::rules::{in_list, listed, lower_extension_of};
use crate::scan_view::{path_join, path_join_exec};
use crate::text::{
    append_str, chars_of, contains, contains_lit, lower, owned, string_of, string_views, str_views,
    strings_of, to_lower, views, eq_lit,
};

verus! {

/// How many large files are offered for a move at once.
pub const ONE_CLICK_LIMIT: usize = 8;

/// The size from which a file in user space is worth moving.
pub const ONE_CLICK_SIZE_THRESHOLD_BYTES: u64 = 268435456;

/// The size from which a downloaded archive or installer is worth moving.
pub const DOWNLOAD_ARCHIVE_THRESHOLD_BYTES: u64 = 134217728;

/// The size from which a Conda installation is worth reporting.
pub const CONDA_INSTALL_THRESHOLD_BYTES: u64 = 536870912;

pub open spec fn archive_extensions() -> Seq<&'static str> {
    seq!["zip", "7z", "rar", "iso", "msi", "exe"]
}

pub open spec fn movable_extensions() -> Seq<&'static str> {
    seq![
        "zip", "7z", "rar", "iso", "msi", "exe", "mp4", "mkv", "mov", "avi", "wmv", "mp3", "flac", "wav",
        "jpg", "jpeg", "png", "psd", "pdf", "ppt", "pptx", "doc", "docx", "blend", "obj",
    ]
}

fn archive_extension_list() -> (r: Vec<&'static str>)
    ensures
        r@ == archive_extensions(),
{
    let mut v: Vec<&'static str> = Vec::new();
    v.push("zip");
    v.push("7z");
    v.push("rar");
    v.push("iso");
    v.push("msi");
    v.push("exe");
    assert(v@ =~= archive_extensions());
    v
}

fn movable_extension_list() -> (r: Vec<&'static str>)
    ensures
        r@ == movable_extensions(),
{
    let mut v = archive_extension_list();
    v.push("mp4");
    v.push("mkv");
    v.push("mov");
    v.push("avi");
    v.push("wmv");
    v.push("mp3");
    v.push("flac");
    v.push("wav");
    v.push("jpg");
    v.push("jpeg");
    v.push("png");
    v.push("psd");
    v.push("pdf");
    v.push("ppt");
    v.push("pptx");
    v.push("doc");
    v.push("docx");
    v.push("blend");
    v.push("obj");
    assert(v@ =~= movable_extensions());
    v
}

/// The lower-cased extension of the path is in the list.
pub open spec fn extension_in(p: Seq<char>, list: Seq<&str>) -> bool {
    match lower_extension(p) {
        Some(e) => listed(e, list),
        None => false,
    }
}

fn extension_in_exec(p: &str, list: &[&str]) -> (r: bool)
    ensures
        r == extension_in(p@, list@),
{
    match lower_extension_of(p) {
        Some(e) => in_list(e.as_slice(), list),
        None => false,
    }
}

/// A large archive or installer in a downloads or desktop folder.
pub open spec fn download_archive(p: Seq<char>, size: u64) -> bool {
    &&& size >= DOWNLOAD_ARCHIVE_THRESHOLD_BYTES
    &&& (contains(normalized(p), "/downloads/"@) || contains(normalized(p), "/desktop/"@))
    &&& extension_in(p, archive_extensions())
}

/// Whether a file is a large archive or installer in a downloads or
/// desktop folder.
pub fn is_download_archive_candidate(path: &str, size: u64) -> (r: bool)
    ensures
        r == download_archive(path@, size),
{
    if size < DOWNLOAD_ARCHIVE_THRESHOLD_BYTES {
        return false;
    }
    let t = normalized_chars(path);
    if !(contains_lit(t.as_slice(), "/downloads/") || contains_lit(t.as_slice(), "/desktop/")) {
        return false;
    }
    let list = archive_extension_list();
    extension_in_exec(path, list.as_slice())
}

pub open spec fn user_space(p: Seq<char>) -> bool {
    windows_user_space(p) || macos_user_space(p)
}

pub open spec fn system_sensitive(p: Seq<char>) -> bool {
    windows_system_sensitive(p) || macos_system_sensitive(p)
}

/// Inside the data of WeChat or of a Conda installation.
pub open spec fn app_specific(p: Seq<char>) -> bool {
    let t = normalized(p);
    ||| contains(t, "/wechat files/"@)
    ||| contains(t, "/library/application support/tencent/xinwechat/"@)
    ||| contains(t, "/library/containers/com.tencent.xinwechat/"@)
    ||| contains(t, "/anaconda3/"@)
    ||| contains(t, "/miniconda3/"@)
    ||| contains(t, "/miniforge3/"@)
    ||| contains(t, "/mambaforge/"@)
    ||| contains(t, "/.conda/"@)
}

/// Whether the path lies in a user's home on Windows or macOS.
pub fn is_user_space_path(path: &str) -> (r: bool)
    ensures
        r == user_space(path@),
{
    is_windows_user_space_path(path) || is_macos_user_space_path(path)
}

/// Whether the path lies in a system location on Windows or macOS.
pub fn is_system_sensitive_path(path: &str) -> (r: bool)
    ensures
        r == system_sensitive(path@),
{
    is_windows_system_sensitive_path(path) || is_macos_system_sensitive_path(path)
}

/// Whether the path lies inside WeChat's or Conda's data.
pub fn is_app_specific_path(path: &str) -> (r: bool)
    ensures
        r == app_specific(path@),
{
    let t = normalized_chars(path);
    let s = t.as_slice();
    contains_lit(s, "/wechat files/")
        || contains_lit(s, "/library/application support/tencent/xinwechat/")
        || contains_lit(s, "/library/containers/com.tencent.xinwechat/")
        || contains_lit(s, "/anaconda3/")
        || contains_lit(s, "/miniconda3/")
        || contains_lit(s, "/miniforge3/")
        || contains_lit(s, "/mambaforge/")
        || contains_lit(s, "/.conda/")
}

/// A file that can be moved at once: large enough (or a large downloaded
/// archive), in user space, outside system locations and application data,
/// and of a kind that does not depend on where it lies.
pub open spec fn one_click(p: Seq<char>, size: u64) -> bool {
    &&& (size >= ONE_CLICK_SIZE_THRESHOLD_BYTES || download_archive(p, size))
    &&& user_space(p)
    &&& !system_sensitive(p)
    &&& !app_specific(p)
    &&& extension_in(p, movable_extensions())
}

/// Whether a file can be moved at once.
pub fn is_one_click_candidate(path: &str, size: u64) -> (r: bool)
    ensures
        r == one_click(path@, size),
{
    if size < ONE_CLICK_SIZE_THRESHOLD_BYTES && !is_download_archive_candidate(path, size) {
        return false;
    }
    if !is_user_space_path(path) || is_system_sensitive_path(path) || is_app_specific_path(path) {
        return false;
    }
    let list = movable_extension_list();
    extension_in_exec(path, list.as_slice())
}

/// A path built by pushing components one after another (`PathBuf::push`
/// of each).
pub open spec fn render(cs: Seq<Seq<char>>) -> Seq<char>
    decreases cs.len(),
{
    if cs.len() == 0 {
        Seq::empty()
    } else {
        path_join(render(cs.drop_last()), cs.last())
    }
}

/// The path pushed from the components.
pub fn render_exec(cs: &Vec<Vec<char>>) -> (r: Vec<char>)
    ensures
        r@ == render(views(cs@)),
{
    let mut out: Vec<char> = Vec::new();
    let mut i: usize = 0;
    while i < cs.len()
        invariant
            i <= cs@.len(),
            out@ == render(views(cs@).take(i as int)),
        decreases cs@.len() - i,
    {
        assert(views(cs@).take(i + 1).drop_last() =~= views(cs@).take(i as int));
        assert(views(cs@).take(i + 1).last() == cs@[i as int]@);
        let base = string_of(out.as_slice());
        out = path_join_exec(base.as_str(), cs[i].as_slice());
        i += 1;
    }
    assert(views(cs@).take(cs@.len() as int) =~= views(cs@));
    out
}

/// The named components below the drive root of a path that starts with a
/// drive and a root (`C:\`); `None` for any other path.
pub open spec fn below_drive_root(p: Seq<char>) -> Option<Seq<Seq<char>>> {
    if has_drive(p) && has_root(p) {
        Some(names(p))
    } else {
        None
    }
}

/// Where a file goes under the target root: `files`, then its path below
/// the drive root, or else its name alone (`migrated-file` where it has
/// none).
pub open spec fn moved_names(p: Seq<char>) -> Seq<Seq<char>> {
    match below_drive_root(p) {
        Some(ns) => ns,
        None => match file_name(p) {
            Some(n) => seq![n],
            None => seq!["migrated-file"@],
        },
    }
}

/// The path under `base` named by the components, pushed in turn.
pub open spec fn nested(base: Seq<char>, ns: Seq<Seq<char>>) -> Seq<char>
    decreases ns.len(),
{
    if ns.len() == 0 {
        base
    } else {
        path_join(nested(base, ns.drop_last()), ns.last())
    }
}

fn nested_exec(base: &str, ns: &Vec<Vec<char>>) -> (r: String)
    ensures
        r@ == nested(base@, views(ns@)),
{
    let mut out = owned(base);
    let mut i: usize = 0;
    while i < ns.len()
        invariant
            i <= ns@.len(),
            out@ == nested(base@, views(ns@).take(i as int)),
        decreases ns@.len() - i,
    {
        assert(views(ns@).take(i + 1).drop_last() =~= views(ns@).take(i as int));
        assert(views(ns@).take(i + 1).last() == ns@[i as int]@);
        let joined = path_join_exec(out.as_str(), ns[i].as_slice());
        out = string_of(joined.as_slice());
        i += 1;
    }
    assert(views(ns@).take(ns@.len() as int) =~= views(ns@));
    out
}

fn moved_names_of(p: &str) -> (r: Vec<Vec<char>>)
    ensures
        views(r@) == moved_names(p@),
{
    let cs = components_of(p);
    let v = chars_of(p);
    let drive = v.len() >= 2 && v[1] == ':' && (('a' <= v[0] && v[0] <= 'z') || ('A' <= v[0] && v[0] <= 'Z'));
    let rest_start: usize = if drive { 2 } else { 0 };
    let rooted = v.len() > rest_start && (v[rest_start] == '/' || v[rest_start] == '\\');
    proof {
        assert(drive == has_drive(p@));
        if drive {
            assert(crate::paths::after_drive(p@) =~= p@.subrange(2, p@.len() as int));
        } else {
            assert(crate::paths::after_drive(p@) =~= p@);
        }
        assert(rooted == has_root(p@));
    }
    if drive && rooted {
        return names_of(p);
    }
    let mut out: Vec<Vec<char>> = Vec::new();
    match file_name_of(p) {
        Some(n) => {
            out.push(n);
        },
        None => {
            out.push(chars_of("migrated-file"));
        },
    }
    assert(views(out@) =~= moved_names(p@));
    out
}

/// A step, by value: title, detail and whether it is required.
pub open spec fn step_view(s: MigrationActionStep) -> (Seq<char>, Seq<char>, bool) {
    (s.title@, s.detail@, s.required)
}

pub open spec fn step_views(s: Seq<MigrationActionStep>) -> Seq<(Seq<char>, Seq<char>, bool)> {
    s.map_values(|x: MigrationActionStep| step_view(x))
}

/// Required steps with these titles and details.
pub open spec fn required_steps(list: Seq<(&str, &str)>) -> Seq<(Seq<char>, Seq<char>, bool)> {
    list.map_values(|p: (&str, &str)| (p.0@, p.1@, true))
}

fn steps_required(list: &[(&str, &str)]) -> (r: Vec<MigrationActionStep>)
    ensures
        step_views(r@) == required_steps(list@),
{
    let mut out: Vec<MigrationActionStep> = Vec::new();
    let mut i: usize = 0;
    while i < list.len()
        invariant
            i <= list@.len(),
            step_views(out@) == required_steps(list@.take(i as int)),
        decreases list@.len() - i,
    {
        let ghost before = out@;
        let (t, d) = list[i];
        out.push(step(t, d, true));
        assert(list@.take(i + 1) =~= list@.take(i as int).push(list@[i as int]));
        assert(step_views(out@) =~= step_views(before).push((t@, d@, true)));
        assert(required_steps(list@.take(i + 1)) =~= required_steps(list@.take(i as int)).push((t@, d@, true)));
        i += 1;
    }
    assert(list@.take(list@.len() as int) =~= list@);
    out
}

/// Larger files first, then paths in ascending order.
pub open spec fn size_then_path() -> spec_fn(FileRecord, FileRecord) -> bool {
    |a: FileRecord, b: FileRecord| a.size > b.size || (a.size == b.size && path_order(a.path@, b.path@) <= 0)
}

fn sort_size_then_path(v: &Vec<FileRecord>) -> (r: Vec<FileRecord>)
    ensures
        r@ == stable_sort(v@, size_then_path()),
{
    let mut out: Vec<FileRecord> = Vec::new();
    let mut i: usize = 0;
    while i < v.len()
        invariant
            i <= v@.len(),
            out@ == stable_sort(v@.take(i as int), size_then_path()),
        decreases v@.len() - i,
    {
        let x = copy_record(&v[i]);
        let mut j: usize = out.len();
        assert(out@.take(j as int) =~= out@);
        while j > 0 && !(out[j - 1].size > x.size
            || (out[j - 1].size == x.size && path_order_exec(out[j - 1].path.as_str(), x.path.as_str()) <= 0))
            invariant
                j <= out@.len(),
                slot(out@, x, size_then_path()) == slot(out@.take(j as int), x, size_then_path()),
            decreases j,
        {
            assert(out@.take(j as int).drop_last() =~= out@.take(j - 1));
            j -= 1;
        }
        assert(out@.take(j as int).len() == j);
        assert(v@.take(i + 1).drop_last() =~= v@.take(i as int));
        out.insert(j, x);
        i += 1;
    }
    assert(v@.take(v@.len() as int) =~= v@);
    out
}

/// The files that can be moved at once, in scan order.
pub open spec fn one_click_records(files: Seq<FileRecord>) -> Seq<FileRecord>
    decreases files.len(),
{
    if files.len() == 0 {
        Seq::empty()
    } else if one_click(files.last().path@, files.last().size) {
        one_click_records(files.drop_last()).push(files.last())
    } else {
        one_click_records(files.drop_last())
    }
}

/// The files offered for a move at once: the largest first, ties by path,
/// at most `ONE_CLICK_LIMIT` of them.
pub open spec fn one_click_choice(files: Seq<FileRecord>) -> Seq<FileRecord> {
    at_most(stable_sort(one_click_records(files), size_then_path()), ONE_CLICK_LIMIT as int)
}

pub open spec fn one_click_steps() -> Seq<(&'static str, &'static str)> {
    seq![
        ("确认内容用途", "先确认该文件不是正在编辑或被某个程序持续占用的工作文件。"),
        ("执行迁移", "迁移助手会保留文件名，并自动在目标目录创建缺失的文件夹。"),
        ("迁移后验证", "确认目标盘文件可正常打开，再决定是否删除旧快捷方式或更新引用。"),
    ]
}

pub open spec fn one_click_reason() -> Seq<char> {
    "这类大文件通常不依赖固定安装路径，迁移到其他盘后能立刻释放 C 盘空间。"@
}

/// The category of a file moved at once.
pub open spec fn one_click_category(f: FileRecord) -> MigrationCategory {
    if download_archive(f.path@, f.size) {
        MigrationCategory::DownloadArchives
    } else {
        MigrationCategory::LargeFiles
    }
}

/// The opportunity of moving one file at once to `files` under the target
/// root.
pub open spec fn one_click_opportunity(o: MigrationOpportunity, f: FileRecord, target_root: Seq<char>) -> bool {
    let p = f.path@;
    let cat = one_click_category(f);
    let files_dir = path_join(target_root, "files"@);
    let ns = moved_names(p);
    &&& o.id@ == category_name(cat) + ":"@ + p
    &&& o.title@ == "迁移 "@ + (match file_name(p) {
        Some(n) => n,
        None => "未命名文件"@,
    })
    &&& o.category == cat
    &&& o.support_level == MigrationSupportLevel::OneClick
    &&& o.risk == (if cat == MigrationCategory::DownloadArchives { RiskLevel::Low } else { RiskLevel::Medium })
    &&& o.estimated_size == f.size
    &&& o.source_path == f.path
    &&& o.recommended_target_path@ == nested(files_dir, ns)
    &&& o.recommended_target_dir@ == nested(files_dir, ns.drop_last())
    &&& o.reason@ == one_click_reason()
    &&& o.blocked_processes@.len() == 0
    &&& step_views(o.required_steps@) == required_steps(one_click_steps())
    &&& o.one_click_paths@ == seq![f.path]
    &&& string_views(o.tags@) == (if cat == MigrationCategory::DownloadArchives {
        seq!["下载目录"@, "安装包/压缩包"@]
    } else {
        seq!["大文件"@, "可一键迁移"@]
    })
}

fn text2(a: &str, b: &str) -> (r: String)
    ensures
        r@ == a@ + b@,
{
    let mut v = chars_of(a);
    append_str(&mut v, b);
    string_of(v.as_slice())
}

fn text3(a: &str, b: &str, c: &str) -> (r: String)
    ensures
        r@ == a@ + b@ + c@,
{
    let mut v = chars_of(a);
    append_str(&mut v, b);
    append_str(&mut v, c);
    string_of(v.as_slice())
}

fn copy_names(v: &Vec<Vec<char>>) -> (r: Vec<Vec<char>>)
    ensures
        views(r@) == views(v@),
{
    let mut out: Vec<Vec<char>> = Vec::new();
    let mut i: usize = 0;
    while i < v.len()
        invariant
            i <= v@.len(),
            views(out@) == views(v@).take(i as int),
        decreases v@.len() - i,
    {
        let ghost before = out@;
        out.push(crate::text::copy_chars(v[i].as_slice()));
        assert(views(out@) =~= views(before).push(v@[i as int]@));
        assert(views(v@).take(i + 1) =~= views(v@).take(i as int).push(v@[i as int]@));
        i += 1;
    }
    assert(views(v@).take(v@.len() as int) =~= views(v@));
    out
}

fn one_click_opportunity_of(f: &FileRecord, target_root: &str) -> (o: MigrationOpportunity)
    requires
        one_click(f.path@, f.size),
    ensures
        one_click_opportunity(o, *f, target_root@),
{
    let p = f.path.as_str();
    let download = is_download_archive_candidate(p, f.size);
    let category = if download { MigrationCategory::DownloadArchives } else { MigrationCategory::LargeFiles };
    let ns = moved_names_of(p);
    proof {
        assert(lower_extension(f.path@) is Some);
        assert(file_name(f.path@) is Some);
        if has_drive(f.path@) && has_root(f.path@) {
            assert(names(f.path@).len() > 0);
        }
        assert(views(ns@).len() > 0);
    }
    let files_dir = path_join_exec(target_root, chars_of("files").as_slice());
    let files_text = string_of(files_dir.as_slice());
    let target_path = nested_exec(files_text.as_str(), &ns);
    let mut parent_names = copy_names(&ns);
    parent_names.pop();
    assert(views(parent_names@) =~= views(ns@).drop_last());
    let target_dir = nested_exec(files_text.as_str(), &parent_names);
    let name_text = match file_name_of(p) {
        Some(n) => string_of(n.as_slice()),
        None => owned("未命名文件"),
    };
    let mut tags: Vec<String> = Vec::new();
    if download {
        tags.push(owned("下载目录"));
        tags.push(owned("安装包/压缩包"));
    } else {
        tags.push(owned("大文件"));
        tags.push(owned("可一键迁移"));
    }
    let steps = steps_required(&[
        ("确认内容用途", "先确认该文件不是正在编辑或被某个程序持续占用的工作文件。"),
        ("执行迁移", "迁移助手会保留文件名，并自动在目标目录创建缺失的文件夹。"),
        ("迁移后验证", "确认目标盘文件可正常打开，再决定是否删除旧快捷方式或更新引用。"),
    ]);
    let mut one_click_paths: Vec<String> = Vec::new();
    one_click_paths.push(f.path.clone());
    assert(one_click_paths@ =~= seq![f.path]);
    let o = MigrationOpportunity {
        id: text3(category_key(category), ":", p),
        title: text2("迁移 ", name_text.as_str()),
        category,
        support_level: MigrationSupportLevel::OneClick,
        risk: if download { RiskLevel::Low } else { RiskLevel::Medium },
        estimated_size: f.size,
        source_path: f.path.clone(),
        recommended_target_dir: target_dir,
        recommended_target_path: target_path,
        reason: owned("这类大文件通常不依赖固定安装路径，迁移到其他盘后能立刻释放 C 盘空间。"),
        blocked_processes: Vec::new(),
        required_steps: steps,
        one_click_paths,
        tags,
    };
    proof {
        assert(string_views(o.tags@) =~= (if category == MigrationCategory::DownloadArchives {
            seq!["下载目录"@, "安装包/压缩包"@]
        } else {
            seq!["大文件"@, "可一键迁移"@]
        }));
    }
    o
}

fn one_click_candidates(files: &Vec<FileRecord>) -> (r: Vec<FileRecord>)
    ensures
        r@ == one_click_records(files@),
{
    let mut out: Vec<FileRecord> = Vec::new();
    let mut i: usize = 0;
    while i < files.len()
        invariant
            i <= files@.len(),
            out@ == one_click_records(files@.take(i as int)),
        decreases files@.len() - i,
    {
        assert(files@.take(i + 1).drop_last() =~= files@.take(i as int));
        assert(files@.take(i + 1).last() == files@[i as int]);
        if is_one_click_candidate(files[i].path.as_str(), files[i].size) {
            out.push(copy_record(&files[i]));
        }
        i += 1;
    }
    assert(files@.take(files@.len() as int) =~= files@);
    out
}

proof fn lemma_one_click_records(files: Seq<FileRecord>)
    ensures
        forall|i: int| 0 <= i < one_click_records(files).len() ==> #[trigger] one_click(one_click_records(files)[i].path@, one_click_records(files)[i].size),
    decreases files.len(),
{
    if files.len() > 0 {
        lemma_one_click_records(files.drop_last());
    }
}

/// The opportunities of moving files at once: the largest movable files,
/// at most `ONE_CLICK_LIMIT`, each to `files` under the target root.
pub fn build_one_click_file_opportunities(files: &Vec<FileRecord>, target_root: &str) -> (r: Vec<MigrationOpportunity>)
    ensures
        r@.len() == one_click_choice(files@).len(),
        forall|i: int| 0 <= i < r@.len() ==> one_click_opportunity(#[trigger] r@[i], one_click_choice(files@)[i], target_root@),
{
    let candidates = one_click_candidates(files);
    let mut sorted = sort_size_then_path(&candidates);
    if sorted.len() > ONE_CLICK_LIMIT {
        sorted.truncate(ONE_CLICK_LIMIT);
    }
    let ghost chosen = one_click_choice(files@);
    assert(sorted@ =~= chosen);
    proof {
        let recs = one_click_records(files@);
        let all = stable_sort(recs, size_then_path());
        lemma_one_click_records(files@);
        crate::sorting::lemma_stable_sort_len(recs, size_then_path());
        assert forall|k: int| 0 <= k < chosen.len() implies #[trigger] one_click(chosen[k].path@, chosen[k].size) by {
            assert(chosen[k] == all[k]);
            crate::sorting::lemma_stable_sort_member(recs, size_then_path(), k);
            let j = choose|j: int| 0 <= j < recs.len() && recs[j] == all[k];
            assert(one_click(recs[j].path@, recs[j].size));
        }
    }
    let mut out: Vec<MigrationOpportunity> = Vec::new();
    let mut i: usize = 0;
    while i < sorted.len()
        invariant
            i <= sorted@.len(),
            sorted@ == chosen,
            chosen == one_click_choice(files@),
            forall|k: int| 0 <= k < chosen.len() ==> #[trigger] one_click(chosen[k].path@, chosen[k].size),
            out@.len() == i,
            forall|k: int| 0 <= k < i ==> one_click_opportunity(#[trigger] out@[k], chosen[k], target_root@),
        decreases sorted@.len() - i,
    {
        assert(one_click(chosen[i as int].path@, chosen[i as int].size));
        let o = one_click_opportunity_of(&sorted[i], target_root);
        out.push(o);
        i += 1;
    }
    out
}

/// Which directory a file's size is counted toward.
#[derive(Clone, Debug)]
pub enum RootRule {
    /// The path up to the first component named so (in any case).
    Marker(&'static str),
    /// The path up to the first component with this name at or below a
    /// Conda installation (`anaconda3`, `miniconda3`, `miniforge3`,
    /// `mambaforge`).
    CondaDirectory(&'static str),
    /// The path up to the first Conda installation.
    CondaInstall,
}

/// The name of a Conda installation directory.
pub open spec fn conda_root_name(v: Seq<char>) -> bool {
    v == "anaconda3"@ || v == "miniconda3"@ || v == "miniforge3"@ || v == "mambaforge"@
}

/// How many leading components make up the directory a path counts
/// toward, scanning from component `i`; -1 where there is none.
pub open spec fn root_end(cs: Seq<Seq<char>>, rule: RootRule, i: int, saw: bool) -> int
    decreases cs.len() - i,
{
    if i < 0 || i >= cs.len() {
        -1
    } else {
        let v = lower(cs[i]);
        match rule {
            RootRule::Marker(m) => if v == lower(m@) {
                i + 1
            } else {
                root_end(cs, rule, i + 1, saw)
            },
            RootRule::CondaDirectory(leaf) => {
                let seen = saw || conda_root_name(v);
                if seen && v == leaf@ {
                    i + 1
                } else {
                    root_end(cs, rule, i + 1, seen)
                }
            },
            RootRule::CondaInstall => if conda_root_name(v) {
                i + 1
            } else {
                root_end(cs, rule, i + 1, saw)
            },
        }
    }
}

proof fn lemma_root_end(cs: Seq<Seq<char>>, rule: RootRule, i: int, saw: bool)
    requires
        0 <= i,
    ensures
        root_end(cs, rule, i, saw) == -1 || (i < root_end(cs, rule, i, saw) <= cs.len()),
    decreases cs.len() - i,
{
    if i < cs.len() {
        let v = lower(cs[i]);
        let seen = saw || conda_root_name(v);
        lemma_root_end(cs, rule, i + 1, saw);
        lemma_root_end(cs, rule, i + 1, seen);
    }
}

/// The components of the directory a path counts toward.
pub open spec fn root_key(p: Seq<char>, rule: RootRule) -> Option<Seq<Seq<char>>> {
    let e = root_end(components(p), rule, 0, false);
    if e < 0 {
        None
    } else {
        Some(components(p).take(e))
    }
}

fn is_conda_root_name(v: &[char]) -> (r: bool)
    ensures
        r == conda_root_name(v@),
{
    eq_lit(v, "anaconda3") || eq_lit(v, "miniconda3") || eq_lit(v, "miniforge3") || eq_lit(v, "mambaforge")
}

/// The components of the directory a path counts toward, if any.
pub fn root_key_of(p: &str, rule: &RootRule) -> (r: Option<Vec<Vec<char>>>)
    ensures
        match r {
            Some(k) => root_key(p@, *rule) == Some(views(k@)),
            None => root_key(p@, *rule) is None,
        },
{
    let cs = components_of(p);
    let ghost cv = views(cs@);
    let marker = match rule {
        RootRule::Marker(m) => to_lower(chars_of(m).as_slice()),
        RootRule::CondaDirectory(leaf) => chars_of(leaf),
        RootRule::CondaInstall => Vec::new(),
    };
    let mut saw = false;
    let mut i: usize = 0;
    while i < cs.len()
        invariant
            i <= cs@.len(),
            cv == views(cs@),
            cv == components(p@),
            match *rule {
                RootRule::Marker(m) => marker@ == lower(m@),
                RootRule::CondaDirectory(leaf) => marker@ == leaf@,
                RootRule::CondaInstall => true,
            },
            root_end(cv, *rule, 0, false) == root_end(cv, *rule, i as int, saw),
        decreases cs@.len() - i,
    {
        let v = to_lower(cs[i].as_slice());
        assert(v@ == lower(cv[i as int]));
        let hit = match rule {
            RootRule::Marker(_) => crate::text::eq_chars(v.as_slice(), marker.as_slice()),
            RootRule::CondaDirectory(_) => {
                saw = saw || is_conda_root_name(v.as_slice());
                saw && crate::text::eq_chars(v.as_slice(), marker.as_slice())
            },
            RootRule::CondaInstall => is_conda_root_name(v.as_slice()),
        };
        if hit {
            let mut key: Vec<Vec<char>> = Vec::new();
            let mut k: usize = 0;
            let end = i + 1;
            while k < end
                invariant
                    k <= end,
                    end == i + 1,
                    i < cs@.len(),
                    views(key@) == views(cs@).take(k as int),
                decreases i + 1 - k,
            {
                let ghost before = key@;
                key.push(crate::text::copy_chars(cs[k].as_slice()));
                assert(views(key@) =~= views(before).push(cs@[k as int]@));
                assert(views(cs@).take(k + 1) =~= views(cs@).take(k as int).push(cs@[k as int]@));
                k += 1;
            }
            return Some(key);
        }
        i += 1;
    }
    None
}

/// Sizes counted per directory, in the order the directories first occur.
pub open spec fn root_slot(t: Seq<(Seq<Seq<char>>, int)>, k: Seq<Seq<char>>) -> int
    decreases t.len(),
{
    if t.len() == 0 {
        -1
    } else if t.last().0 == k {
        t.len() - 1
    } else {
        root_slot(t.drop_last(), k)
    }
}

pub open spec fn root_step(t: Seq<(Seq<Seq<char>>, int)>, k: Seq<Seq<char>>, size: int) -> Seq<(Seq<Seq<char>>, int)> {
    let j = root_slot(t, k);
    if j < 0 {
        t.push((k, size))
    } else {
        t.update(j, (k, t[j].1 + size))
    }
}

/// The total size per directory the files count toward.
pub open spec fn root_table(files: Seq<FileRecord>, rule: RootRule) -> Seq<(Seq<Seq<char>>, int)>
    decreases files.len(),
{
    if files.len() == 0 {
        Seq::empty()
    } else {
        let t = root_table(files.drop_last(), rule);
        match root_key(files.last().path@, rule) {
            Some(k) => root_step(t, k, files.last().size as int),
            None => t,
        }
    }
}

/// The directory with the largest total at least `min`, the later path
/// winning a tie.
pub open spec fn best_root(t: Seq<(Seq<Seq<char>>, int)>, min: int) -> Option<(Seq<Seq<char>>, int)>
    decreases t.len(),
{
    if t.len() == 0 {
        None
    } else {
        let prev = best_root(t.drop_last(), min);
        let x = t.last();
        if x.1 < min {
            prev
        } else {
            match prev {
                None => Some(x),
                Some(b) => if x.1 > b.1 || (x.1 == b.1 && comps_order(x.0, b.0) > 0) {
                    Some(x)
                } else {
                    Some(b)
                },
            }
        }
    }
}

proof fn lemma_root_slot(t: Seq<(Seq<Seq<char>>, int)>, k: Seq<Seq<char>>)
    ensures
        -1 <= root_slot(t, k) < t.len(),
        root_slot(t, k) >= 0 ==> t[root_slot(t, k)].0 == k,
    decreases t.len(),
{
    if t.len() > 0 && t.last().0 != k {
        lemma_root_slot(t.drop_last(), k);
    }
}

proof fn lemma_root_table_bounds(files: Seq<FileRecord>, rule: RootRule)
    ensures
        forall|j: int| 0 <= j < root_table(files, rule).len() ==> 0 <= #[trigger] root_table(files, rule)[j].1 <= sizes_sum(files),
    decreases files.len(),
{
    if files.len() > 0 {
        let prev = files.drop_last();
        lemma_root_table_bounds(prev, rule);
        lemma_sizes_sum_prefix(prev, 0);
        let t = root_table(prev, rule);
        let f = files.last();
        match root_key(f.path@, rule) {
            Some(k) => {
                lemma_root_slot(t, k);
                let j0 = root_slot(t, k);
                assert forall|j: int| 0 <= j < root_table(files, rule).len() implies 0 <= #[trigger] root_table(files, rule)[j].1 <= sizes_sum(files) by {
                    if j0 >= 0 {
                        if j != j0 {
                            assert(root_table(files, rule)[j] == t[j]);
                        }
                    } else if j < t.len() {
                        assert(root_table(files, rule)[j] == t[j]);
                    }
                }
            },
            None => {},
        }
    }
}

/// A directory and the total size of the files counted toward it.
#[derive(Clone, Debug)]
pub struct DirectoryAggregate {
    pub path: String,
    pub total_size: u64,
}

struct RootRow {
    key: Vec<Vec<char>>,
    total: u64,
}

spec fn row_view(r: RootRow) -> (Seq<Seq<char>>, int) {
    (views(r.key@), r.total as int)
}

/// The directory with the largest total size (at least `min_total`) that
/// the files count toward under the rule, if any.
pub fn aggregate_root(files: &Vec<FileRecord>, rule: &RootRule, min_total: u64) -> (r: Option<DirectoryAggregate>)
    requires
        sizes_sum(files@) <= u64::MAX,
    ensures
        match best_root(root_table(files@, *rule), min_total as int) {
            Some(b) => r matches Some(a) && a.path@ == render(b.0) && a.total_size == b.1,
            None => r is None,
        },
{
    let ghost fs = files@;
    let mut table: Vec<RootRow> = Vec::new();
    let mut i: usize = 0;
    while i < files.len()
        invariant
            i <= fs.len(),
            fs == files@,
            sizes_sum(fs) <= u64::MAX,
            table@.map_values(|r: RootRow| row_view(r)) == root_table(fs.take(i as int), *rule),
        decreases fs.len() - i,
    {
        let ghost t = table@.map_values(|r: RootRow| row_view(r));
        assert(fs.take(i + 1).drop_last() =~= fs.take(i as int));
        assert(fs.take(i + 1).last() == fs[i as int]);
        proof {
            lemma_root_table_bounds(fs.take(i + 1), *rule);
            lemma_sizes_sum_prefix(fs, i + 1);
        }
        match root_key_of(files[i].path.as_str(), rule) {
            Some(k) => {
                let size = files[i].size;
                let mut j: usize = table.len();
                proof {
                    assert(t.take(j as int) =~= t);
                }
                while j > 0 && !comps_eq(&table[j - 1].key, &k)
                    invariant
                        j <= table@.len(),
                        t == table@.map_values(|r: RootRow| row_view(r)),
                        root_slot(t, views(k@)) == root_slot(t.take(j as int), views(k@)),
                    decreases j,
                {
                    assert(t.take(j as int).drop_last() =~= t.take(j - 1));
                    assert(t.take(j as int).last() == row_view(table@[j - 1]));
                    j -= 1;
                }
                if j == 0 {
                    assert(t.take(0) =~= Seq::<(Seq<Seq<char>>, int)>::empty());
                    table.push(RootRow { key: k, total: size });
                    assert(table@.map_values(|r: RootRow| row_view(r)) =~= root_step(t, views(k@), size as int));
                } else {
                    assert(t.take(j as int).last() == row_view(table@[j - 1]));
                    assert(root_slot(t, views(k@)) == j - 1);
                    let ghost stepped = root_step(t, views(k@), size as int);
                    assert(root_table(fs.take(i + 1), *rule) == stepped);
                    assert(stepped[j - 1].1 <= sizes_sum(fs.take(i + 1)));
                    let mut row = RootRow { key: Vec::new(), total: 0 };
                    table.set_and_swap(j - 1, &mut row);
                    let total = row.total + size;
                    table.set(j - 1, RootRow { key: row.key, total });
                    assert(table@.map_values(|r: RootRow| row_view(r)) =~= stepped);
                }
            },
            None => {},
        }
        i += 1;
    }
    assert(fs.take(fs.len() as int) =~= fs);
    let ghost tv = table@.map_values(|r: RootRow| row_view(r));
    let mut best: Option<usize> = None;
    let mut k: usize = 0;
    while k < table.len()
        invariant
            k <= table@.len(),
            tv == table@.map_values(|r: RootRow| row_view(r)),
            match best_root(tv.take(k as int), min_total as int) {
                Some(b) => best matches Some(bi) && bi < k && row_view(table@[bi as int]) == b,
                None => best is None,
            },
        decreases table@.len() - k,
    {
        assert(tv.take(k + 1).drop_last() =~= tv.take(k as int));
        assert(tv.take(k + 1).last() == row_view(table@[k as int]));
        if table[k].total >= min_total {
            match best {
                None => {
                    best = Some(k);
                },
                Some(bi) => {
                    let better = table[k].total > table[bi].total
                        || (table[k].total == table[bi].total && comps_order_exec(&table[k].key, &table[bi].key) > 0);
                    if better {
                        best = Some(k);
                    }
                },
            }
        }
        k += 1;
    }
    assert(tv.take(tv.len() as int) =~= tv);
    match best {
        None => None,
        Some(bi) => {
            let path = render_exec(&table[bi].key);
            Some(DirectoryAggregate { path: string_of(path.as_slice()), total_size: table[bi].total })
        },
    }
}

/// A guided or manual opportunity for a directory of application data:
/// its fields as given, its source the directory and its size the
/// directory's total.
pub open spec fn app_data_opportunity(
    o: MigrationOpportunity,
    id_prefix: Seq<char>,
    title: Seq<char>,
    category: MigrationCategory,
    support: MigrationSupportLevel,
    risk: RiskLevel,
    agg: (Seq<Seq<char>>, int),
    target_dir: Seq<char>,
    target_path: Seq<char>,
    reason: Seq<char>,
    blocked: Seq<&str>,
    steps: Seq<(&str, &str)>,
    tags: Seq<&str>,
) -> bool {
    &&& o.id@ == id_prefix + render(agg.0)
    &&& o.title@ == title
    &&& o.category == category
    &&& o.support_level == support
    &&& o.risk == risk
    &&& o.estimated_size == agg.1
    &&& o.source_path@ == render(agg.0)
    &&& o.recommended_target_dir@ == target_dir
    &&& o.recommended_target_path@ == target_path
    &&& o.reason@ == reason
    &&& string_views(o.blocked_processes@) == str_views(blocked)
    &&& step_views(o.required_steps@) == required_steps(steps)
    &&& o.one_click_paths@.len() == 0
    &&& string_views(o.tags@) == str_views(tags)
}

fn app_data_opportunity_of(
    agg: DirectoryAggregate,
    id_prefix: &str,
    title: &str,
    category: MigrationCategory,
    support: MigrationSupportLevel,
    risk: RiskLevel,
    target_dir: String,
    target_path: String,
    reason: &str,
    blocked: &[&str],
    steps: &[(&str, &str)],
    tags: &[&str],
) -> (o: MigrationOpportunity)
    ensures
        o.id@ == id_prefix@ + agg.path@,
        o.title@ == title@,
        o.category == category,
        o.support_level == support,
        o.risk == risk,
        o.estimated_size == agg.total_size,
        o.source_path == agg.path,
        o.recommended_target_dir == target_dir,
        o.recommended_target_path == target_path,
        o.reason@ == reason@,
        string_views(o.blocked_processes@) == str_views(blocked@),
        step_views(o.required_steps@) == required_steps(steps@),
        o.one_click_paths@.len() == 0,
        string_views(o.tags@) == str_views(tags@),
{
    MigrationOpportunity {
        id: text2(id_prefix, agg.path.as_str()),
        title: owned(title),
        category,
        support_level: support,
        risk,
        estimated_size: agg.total_size,
        source_path: agg.path,
        recommended_target_dir: target_dir,
        recommended_target_path: target_path,
        reason: owned(reason),
        blocked_processes: strings_of(blocked),
        required_steps: steps_required(steps),
        one_click_paths: Vec::new(),
        tags: strings_of(tags),
    }
}

fn under(base: &str, name: &str) -> (r: String)
    ensures
        r@ == path_join(base@, name@),
{
    let j = path_join_exec(base, chars_of(name).as_slice());
    string_of(j.as_slice())
}

pub open spec fn wechat_steps() -> Seq<(&'static str, &'static str)> {
    seq![
        ("关闭微信进程", "迁移前需要退出微信客户端，避免文件被占用。"),
        ("移动数据目录", "建议将整个 WeChat Files 目录迁到其他盘的专用数据目录。"),
        ("更新微信存储位置", "如果新版微信提供存储路径设置，应指向新位置；否则需要高级兼容方案，如目录联接。"),
        ("重启并验证", "重新启动微信，确认聊天记录、图片和文件缓存都能正常访问。"),
    ]
}

pub open spec fn wechat_reason() -> Seq<char> {
    "检测到微信数据目录。它通常体积大、释放空间明显，但迁移前必须关闭微信并在迁移后验证聊天记录和文件索引。"@
}

/// What `build_wechat_data_opportunity` gives.
pub open spec fn wechat_result(r: Option<MigrationOpportunity>, files: Seq<FileRecord>, target_root: Seq<char>) -> bool {
    match best_root(root_table(files, RootRule::Marker("wechat files")), 0) {
        Some(b) => r matches Some(o) && app_data_opportunity(
            o, "wechat:"@, "微信数据目录迁移建议"@, MigrationCategory::WechatData,
            MigrationSupportLevel::Guided, RiskLevel::Medium, b,
            path_join(target_root, "app-data"@), path_join(path_join(target_root, "app-data"@), "WeChat Files"@),
            wechat_reason(), seq!["WeChat.exe", "Weixin.exe"], wechat_steps(), seq!["应用数据", "需关闭进程"],
        ),
        None => r is None,
    }
}

/// The WeChat data directory with the most data, to be moved with guidance
/// to `app-data\WeChat Files` under the target root.
pub fn build_wechat_data_opportunity(files: &Vec<FileRecord>, target_root: &str) -> (r: Option<MigrationOpportunity>)
    requires
        sizes_sum(files@) <= u64::MAX,
    ensures
        wechat_result(r, files@, target_root@),
{
    let agg = match aggregate_root(files, &RootRule::Marker("wechat files"), 0) {
        Some(a) => a,
        None => {
            return None;
        },
    };
    let dir = under(target_root, "app-data");
    let path = under(dir.as_str(), "WeChat Files");
    let o = app_data_opportunity_of(
        agg, "wechat:", "微信数据目录迁移建议", MigrationCategory::WechatData,
        MigrationSupportLevel::Guided, RiskLevel::Medium, dir, path,
        "检测到微信数据目录。它通常体积大、释放空间明显，但迁移前必须关闭微信并在迁移后验证聊天记录和文件索引。",
        &["WeChat.exe", "Weixin.exe"],
        &[
            ("关闭微信进程", "迁移前需要退出微信客户端，避免文件被占用。"),
            ("移动数据目录", "建议将整个 WeChat Files 目录迁到其他盘的专用数据目录。"),
            ("更新微信存储位置", "如果新版微信提供存储路径设置，应指向新位置；否则需要高级兼容方案，如目录联接。"),
            ("重启并验证", "重新启动微信，确认聊天记录、图片和文件缓存都能正常访问。"),
        ],
        &["应用数据", "需关闭进程"],
    );
    Some(o)
}

pub open spec fn conda_pkgs_steps() -> Seq<(&'static str, &'static str)> {
    seq![
        ("停止 Conda 相关任务", "关闭正在运行的 Python、Jupyter、终端和包管理任务。"),
        ("调整缓存目录配置", "优先通过 .condarc 的 pkgs_dirs 或对应环境变量，把缓存目录指向目标盘。"),
        ("迁移或重建缓存", "配置生效后再迁移已有缓存，或清理后让 Conda 在新路径重新生成。"),
        ("执行 conda info 验证", "确认新的包缓存目录已经被 Conda 正常识别。"),
    ]
}

pub open spec fn conda_pkgs_reason() -> Seq<char> {
    "检测到 Conda 的 pkgs 缓存目录。它通常很大，但更稳妥的做法是先修改 Conda 的缓存目录配置，再迁移或重新下载缓存。"@
}

/// What `build_conda_package_cache_opportunity` gives.
pub open spec fn conda_pkgs_result(r: Option<MigrationOpportunity>, files: Seq<FileRecord>, target_root: Seq<char>) -> bool {
    match best_root(root_table(files, RootRule::CondaDirectory("pkgs")), 0) {
        Some(b) => r matches Some(o) && app_data_opportunity(
            o, "conda-pkgs:"@, "Conda 包缓存迁移建议"@, MigrationCategory::CondaPackageCache,
            MigrationSupportLevel::Guided, RiskLevel::Medium, b,
            path_join(target_root, "conda"@), path_join(path_join(target_root, "conda"@), "pkgs"@),
            conda_pkgs_reason(), seq!["python.exe", "conda.exe"], conda_pkgs_steps(), seq!["开发环境", "需改配置"],
        ),
        None => r is None,
    }
}

/// The Conda package cache with the most data, to be moved with guidance
/// to `conda\pkgs` under the target root.
pub fn build_conda_package_cache_opportunity(files: &Vec<FileRecord>, target_root: &str) -> (r: Option<MigrationOpportunity>)
    requires
        sizes_sum(files@) <= u64::MAX,
    ensures
        conda_pkgs_result(r, files@, target_root@),
{
    let agg = match aggregate_root(files, &RootRule::CondaDirectory("pkgs"), 0) {
        Some(a) => a,
        None => {
            return None;
        },
    };
    let dir = under(target_root, "conda");
    let path = under(dir.as_str(), "pkgs");
    let o = app_data_opportunity_of(
        agg, "conda-pkgs:", "Conda 包缓存迁移建议", MigrationCategory::CondaPackageCache,
        MigrationSupportLevel::Guided, RiskLevel::Medium, dir, path,
        "检测到 Conda 的 pkgs 缓存目录。它通常很大，但更稳妥的做法是先修改 Conda 的缓存目录配置，再迁移或重新下载缓存。",
        &["python.exe", "conda.exe"],
        &[
            ("停止 Conda 相关任务", "关闭正在运行的 Python、Jupyter、终端和包管理任务。"),
            ("调整缓存目录配置", "优先通过 .condarc 的 pkgs_dirs 或对应环境变量，把缓存目录指向目标盘。"),
            ("迁移或重建缓存", "配置生效后再迁移已有缓存，或清理后让 Conda 在新路径重新生成。"),
            ("执行 conda info 验证", "确认新的包缓存目录已经被 Conda 正常识别。"),
        ],
        &["开发环境", "需改配置"],
    );
    Some(o)
}

pub open spec fn conda_envs_steps() -> Seq<(&'static str, &'static str)> {
    seq![
        ("盘点关键环境", "先确认哪些环境仍在使用，并记录 Python 版本和核心依赖。"),
        ("导出环境定义", "优先使用 conda env export 等方式导出环境描述，避免直接硬迁。"),
        ("设置新环境目录", "通过 .condarc 的 envs_dirs 或环境变量 CONDA_ENVS_PATH 指向目标盘。"),
        ("在目标盘重建环境", "按照导出的定义重新创建关键环境，成功后再清理旧环境。"),
    ]
}

pub open spec fn conda_envs_reason() -> Seq<char> {
    "检测到 Conda envs 目录。环境内部常包含绝对路径和脚本引用，直接硬搬目录容易导致环境损坏，更适合做配置切换或重建式迁移。"@
}

/// What `build_conda_envs_opportunity` gives.
pub open spec fn conda_envs_result(r: Option<MigrationOpportunity>, files: Seq<FileRecord>, target_root: Seq<char>) -> bool {
    match best_root(root_table(files, RootRule::CondaDirectory("envs")), 0) {
        Some(b) => r matches Some(o) && app_data_opportunity(
            o, "conda-envs:"@, "Conda 环境目录迁移建议"@, MigrationCategory::CondaEnvironments,
            MigrationSupportLevel::Guided, RiskLevel::High, b,
            path_join(target_root, "conda"@), path_join(path_join(target_root, "conda"@), "envs"@),
            conda_envs_reason(), seq!["python.exe", "conda.exe"], conda_envs_steps(), seq!["开发环境", "高风险"],
        ),
        None => r is None,
    }
}

/// The Conda environment directory with the most data, to be moved with
/// guidance to `conda\envs` under the target root.
pub fn build_conda_envs_opportunity(files: &Vec<FileRecord>, target_root: &str) -> (r: Option<MigrationOpportunity>)
    requires
        sizes_sum(files@) <= u64::MAX,
    ensures
        conda_envs_result(r, files@, target_root@),
{
    let agg = match aggregate_root(files, &RootRule::CondaDirectory("envs"), 0) {
        Some(a) => a,
        None => {
            return None;
        },
    };
    let dir = under(target_root, "conda");
    let path = under(dir.as_str(), "envs");
    let o = app_data_opportunity_of(
        agg, "conda-envs:", "Conda 环境目录迁移建议", MigrationCategory::CondaEnvironments,
        MigrationSupportLevel::Guided, RiskLevel::High, dir, path,
        "检测到 Conda envs 目录。环境内部常包含绝对路径和脚本引用，直接硬搬目录容易导致环境损坏，更适合做配置切换或重建式迁移。",
        &["python.exe", "conda.exe"],
        &[
            ("盘点关键环境", "先确认哪些环境仍在使用，并记录 Python 版本和核心依赖。"),
            ("导出环境定义", "优先使用 conda env export 等方式导出环境描述，避免直接硬迁。"),
            ("设置新环境目录", "通过 .condarc 的 envs_dirs 或环境变量 CONDA_ENVS_PATH 指向目标盘。"),
            ("在目标盘重建环境", "按照导出的定义重新创建关键环境，成功后再清理旧环境。"),
        ],
        &["开发环境", "高风险"],
    );
    Some(o)
}

pub open spec fn conda_install_steps() -> Seq<(&'static str, &'static str)> {
    seq![
        ("避免直接硬迁 base", "不要直接整体移动 Miniconda/Anaconda 根目录。"),
        ("重新安装到目标盘", "更稳妥的方式是在目标盘重新安装 Conda。"),
        ("迁移环境和缓存策略", "安装完成后再配置 envs_dirs、pkgs_dirs，并逐步迁移环境。"),
        ("更新 PATH 与工具入口", "确认 PATH、终端启动脚本和 IDE Python 解释器都已切换到新安装路径。"),
    ]
}

pub open spec fn conda_install_reason() -> Seq<char> {
    "检测到 Miniconda/Anaconda 安装目录。基础安装目录与 PATH、快捷方式和脚本强相关，不建议直接一键移动。"@
}

/// The name a Conda installation keeps under the target root.
pub open spec fn install_name(path: Seq<char>) -> Seq<char> {
    match file_name(path) {
        Some(n) => n,
        None => "Miniconda3"@,
    }
}

/// What `build_conda_installation_opportunity` gives.
pub open spec fn conda_install_result(r: Option<MigrationOpportunity>, files: Seq<FileRecord>, target_root: Seq<char>) -> bool {
    match best_root(root_table(files, RootRule::CondaInstall), CONDA_INSTALL_THRESHOLD_BYTES as int) {
        Some(b) => r matches Some(o) && app_data_opportunity(
            o, "conda-root:"@, "Conda 安装目录迁移建议"@, MigrationCategory::CondaInstallation,
            MigrationSupportLevel::Manual, RiskLevel::High, b,
            path_join(target_root, "conda"@), path_join(path_join(target_root, "conda"@), install_name(render(b.0))),
            conda_install_reason(), seq!["python.exe", "conda.exe"], conda_install_steps(), seq!["开发环境", "需重装"],
        ),
        None => r is None,
    }
}

/// The Conda installation with the most data, 512 MiB at least, to be
/// reinstalled by hand under `conda` in the target root.
pub fn build_conda_installation_opportunity(files: &Vec<FileRecord>, target_root: &str) -> (r: Option<MigrationOpportunity>)
    requires
        sizes_sum(files@) <= u64::MAX,
    ensures
        conda_install_result(r, files@, target_root@),
{
    let agg = match aggregate_root(files, &RootRule::CondaInstall, CONDA_INSTALL_THRESHOLD_BYTES) {
        Some(a) => a,
        None => {
            return None;
        },
    };
    let dir = under(target_root, "conda");
    let name = match file_name_of(agg.path.as_str()) {
        Some(n) => string_of(n.as_slice()),
        None => owned("Miniconda3"),
    };
    let path = under(dir.as_str(), name.as_str());
    let o = app_data_opportunity_of(
        agg, "conda-root:", "Conda 安装目录迁移建议", MigrationCategory::CondaInstallation,
        MigrationSupportLevel::Manual, RiskLevel::High, dir, path,
        "检测到 Miniconda/Anaconda 安装目录。基础安装目录与 PATH、快捷方式和脚本强相关，不建议直接一键移动。",
        &["python.exe", "conda.exe"],
        &[
            ("避免直接硬迁 base", "不要直接整体移动 Miniconda/Anaconda 根目录。"),
            ("重新安装到目标盘", "更稳妥的方式是在目标盘重新安装 Conda。"),
            ("迁移环境和缓存策略", "安装完成后再配置 envs_dirs、pkgs_dirs，并逐步迁移环境。"),
            ("更新 PATH 与工具入口", "确认 PATH、终端启动脚本和 IDE Python 解释器都已切换到新安装路径。"),
        ],
        &["开发环境", "需重装"],
    );
    Some(o)
}

/// The opportunities, as a sequence.
pub open spec fn opt_seq(o: Option<MigrationOpportunity>) -> Seq<MigrationOpportunity> {
    match o {
        Some(x) => seq![x],
        None => Seq::empty(),
    }
}

/// What `build_one_click_file_opportunities` gives.
pub open spec fn one_click_result(v: Seq<MigrationOpportunity>, files: Seq<FileRecord>, target_root: Seq<char>) -> bool {
    &&& v.len() == one_click_choice(files).len()
    &&& forall|i: int| 0 <= i < v.len() ==> one_click_opportunity(#[trigger] v[i], one_click_choice(files)[i], target_root)
}

/// The opportunities found, before ordering: the files to move at once,
/// then WeChat data, the Conda package cache, Conda environments and the
/// Conda installation, where found.
pub open spec fn migration_candidates(raw: Seq<MigrationOpportunity>, files: Seq<FileRecord>, target_root: Seq<char>) -> bool {
    exists|ones: Seq<MigrationOpportunity>, w: Option<MigrationOpportunity>, p: Option<MigrationOpportunity>,
        e: Option<MigrationOpportunity>, i: Option<MigrationOpportunity>|
        #![trigger one_click_result(ones, files, target_root), wechat_result(w, files, target_root), conda_pkgs_result(p, files, target_root), conda_envs_result(e, files, target_root), conda_install_result(i, files, target_root)]
        raw == ones + opt_seq(w) + opt_seq(p) + opt_seq(e) + opt_seq(i)
        && one_click_result(ones, files, target_root)
        && wechat_result(w, files, target_root)
        && conda_pkgs_result(p, files, target_root)
        && conda_envs_result(e, files, target_root)
        && conda_install_result(i, files, target_root)
}

/// Opportunities that can be moved at once first, then guided, then
/// manual; larger first; then by title.
pub open spec fn opportunity_first() -> spec_fn(MigrationOpportunity, MigrationOpportunity) -> bool {
    |a: MigrationOpportunity, b: MigrationOpportunity|
        support_order(a.support_level) < support_order(b.support_level)
            || (support_order(a.support_level) == support_order(b.support_level)
                && (a.estimated_size > b.estimated_size
                    || (a.estimated_size == b.estimated_size && text_order(a.title@, b.title@) <= 0)))
}

fn stays_before(a: &MigrationOpportunity, b: &MigrationOpportunity) -> (r: bool)
    ensures
        r == opportunity_first()(*a, *b),
{
    let ra = support_rank(a.support_level);
    let rb = support_rank(b.support_level);
    if ra != rb {
        return ra < rb;
    }
    if a.estimated_size != b.estimated_size {
        return a.estimated_size > b.estimated_size;
    }
    let ta = chars_of(a.title.as_str());
    let tb = chars_of(b.title.as_str());
    text_order_exec(ta.as_slice(), tb.as_slice()) <= 0
}

/// The empty opportunity that stands in a slot while its value is moved
/// out.
fn placeholder_opportunity() -> (o: MigrationOpportunity)
    ensures
        o.id@.len() == 0 && o.title@.len() == 0 && o.reason@.len() == 0,
        o.source_path@.len() == 0 && o.recommended_target_dir@.len() == 0 && o.recommended_target_path@.len() == 0,
        o.category == MigrationCategory::LargeFiles,
        o.support_level == MigrationSupportLevel::OneClick,
        o.risk == RiskLevel::Low,
        o.estimated_size == 0,
        o.blocked_processes@.len() == 0 && o.required_steps@.len() == 0,
        o.one_click_paths@.len() == 0 && o.tags@.len() == 0,
{
    MigrationOpportunity {
        id: String::new(),
        title: String::new(),
        category: MigrationCategory::LargeFiles,
        support_level: MigrationSupportLevel::OneClick,
        risk: RiskLevel::Low,
        estimated_size: 0,
        source_path: String::new(),
        recommended_target_dir: String::new(),
        recommended_target_path: String::new(),
        reason: String::new(),
        blocked_processes: Vec::new(),
        required_steps: Vec::new(),
        one_click_paths: Vec::new(),
        tags: Vec::new(),
    }
}

/// The opportunities in order: stable sort by `opportunity_first`.
pub fn sort_opportunities(v: Vec<MigrationOpportunity>) -> (r: Vec<MigrationOpportunity>)
    ensures
        r@ == stable_sort(v@, opportunity_first()),
{
    let ghost ov = v@;
    let n = v.len();
    let mut rest = v;
    let mut out: Vec<MigrationOpportunity> = Vec::new();
    let mut i: usize = 0;
    while i < n
        invariant
            i <= n,
            n == ov.len(),
            rest@.len() == n,
            forall|k: int| i <= k < n ==> #[trigger] rest@[k] == ov[k],
            out@ == stable_sort(ov.take(i as int), opportunity_first()),
        decreases n - i,
    {
        let mut x = placeholder_opportunity();
        rest.set_and_swap(i, &mut x);
        assert(x == ov[i as int]);
        let mut j: usize = out.len();
        assert(out@.take(j as int) =~= out@);
        while j > 0 && !stays_before(&out[j - 1], &x)
            invariant
                j <= out@.len(),
                slot(out@, x, opportunity_first()) == slot(out@.take(j as int), x, opportunity_first()),
            decreases j,
        {
            assert(out@.take(j as int).drop_last() =~= out@.take(j - 1));
            j -= 1;
        }
        assert(out@.take(j as int).len() == j);
        assert(ov.take(i + 1).drop_last() =~= ov.take(i as int));
        assert(ov.take(i + 1).last() == x);
        out.insert(j, x);
        i += 1;
    }
    assert(ov.take(n as int) =~= ov);
    out
}

/// How many opportunities have this support level.
pub open spec fn support_count(os: Seq<MigrationOpportunity>, level: MigrationSupportLevel) -> nat
    decreases os.len(),
{
    if os.len() == 0 {
        0
    } else {
        support_count(os.drop_last(), level) + if os.last().support_level == level { 1nat } else { 0nat }
    }
}

/// The estimated sizes added up, wrapping at 2^64 as the sum of the
/// release build does.
pub open spec fn wrapped_total(os: Seq<MigrationOpportunity>) -> u64
    decreases os.len(),
{
    if os.len() == 0 {
        0
    } else {
        let a = wrapped_total(os.drop_last());
        let s = os.last().estimated_size;
        if a + s > u64::MAX {
            (a + s - 0x1_0000_0000_0000_0000) as u64
        } else {
            (a + s) as u64
        }
    }
}

pub open spec fn no_opportunity_summary() -> Seq<char> {
    "当前扫描结果中没有检测到适合迁移助手处理的高价值对象。建议优先扫描 C 盘用户目录、下载目录、微信数据目录或 Conda 安装目录。"@
}

/// The summary of the advice: how many opportunities, their size, and how
/// many of each support level.
pub open spec fn advice_summary(os: Seq<MigrationOpportunity>) -> Seq<char> {
    if os.len() == 0 {
        no_opportunity_summary()
    } else {
        "已识别 "@ + decimal(os.len()) + " 个迁移机会，预计涉及 "@ + size_text(wrapped_total(os) as nat)
            + "。其中可一键迁移 "@ + decimal(support_count(os, MigrationSupportLevel::OneClick))
            + " 项，引导式迁移 "@ + decimal(support_count(os, MigrationSupportLevel::Guided))
            + " 项，人工处理 "@ + decimal(support_count(os, MigrationSupportLevel::Manual))
            + " 项。建议先处理下载目录中的大文件，再处理微信数据和 Conda 这类需要配置变更的目录。"@
    }
}

/// The summary of the advice.
pub fn build_summary(os: &Vec<MigrationOpportunity>) -> (r: String)
    ensures
        r@ == advice_summary(os@),
{
    if os.len() == 0 {
        return owned("当前扫描结果中没有检测到适合迁移助手处理的高价值对象。建议优先扫描 C 盘用户目录、下载目录、微信数据目录或 Conda 安装目录。");
    }
    let mut one_click: usize = 0;
    let mut guided: usize = 0;
    let mut manual: usize = 0;
    let mut total: u64 = 0;
    let mut i: usize = 0;
    while i < os.len()
        invariant
            i <= os@.len(),
            one_click == support_count(os@.take(i as int), MigrationSupportLevel::OneClick),
            guided == support_count(os@.take(i as int), MigrationSupportLevel::Guided),
            manual == support_count(os@.take(i as int), MigrationSupportLevel::Manual),
            one_click <= i && guided <= i && manual <= i,
            total == wrapped_total(os@.take(i as int)),
        decreases os@.len() - i,
    {
        assert(os@.take(i + 1).drop_last() =~= os@.take(i as int));
        assert(os@.take(i + 1).last() == os@[i as int]);
        match os[i].support_level {
            MigrationSupportLevel::OneClick => {
                one_click += 1;
            },
            MigrationSupportLevel::Guided => {
                guided += 1;
            },
            MigrationSupportLevel::Manual => {
                manual += 1;
            },
        }
        total = total.wrapping_add(os[i].estimated_size);
        i += 1;
    }
    assert(os@.take(os@.len() as int) =~= os@);
    let mut v = chars_of("已识别 ");
    push_decimal(&mut v, os.len() as u64);
    append_str(&mut v, " 个迁移机会，预计涉及 ");
    let size = format_bytes_human(total);
    append_str(&mut v, size.as_str());
    append_str(&mut v, "。其中可一键迁移 ");
    push_decimal(&mut v, one_click as u64);
    append_str(&mut v, " 项，引导式迁移 ");
    push_decimal(&mut v, guided as u64);
    append_str(&mut v, " 项，人工处理 ");
    push_decimal(&mut v, manual as u64);
    append_str(&mut v, " 项。建议先处理下载目录中的大文件，再处理微信数据和 Conda 这类需要配置变更的目录。");
    string_of(v.as_slice())
}

/// The target root in use: the one given unless it is empty, else the
/// default.
pub open spec fn chosen_root(target_root: Option<&str>, default_root: Seq<char>) -> Seq<char> {
    match target_root {
        Some(t) => if t@.len() > 0 {
            t@
        } else {
            default_root
        },
        None => default_root,
    }
}

/// The default target root: `SmartDiskCleanerMigration` in the home folder
/// (or `/Users/Shared`) on macOS, `D:\SmartDiskCleanerMigration` elsewhere.
pub open spec fn default_root(macos: bool, home: Option<&str>) -> Seq<char> {
    if macos {
        let h = match home {
            Some(x) => x@,
            None => "/Users/Shared"@,
        };
        if h.len() > 0 && h.last() == '/' {
            h + "SmartDiskCleanerMigration"@
        } else {
            h + "/SmartDiskCleanerMigration"@
        }
    } else {
        "D:\\SmartDiskCleanerMigration"@
    }
}

/// The default target root, from the platform and the home folder.
pub fn default_target_root(macos: bool, home: Option<&str>) -> (r: String)
    ensures
        r@ == default_root(macos, home),
{
    if !macos {
        return owned("D:\\SmartDiskCleanerMigration");
    }
    let h = match home {
        Some(x) => chars_of(x),
        None => chars_of("/Users/Shared"),
    };
    let mut v = h;
    if v.len() > 0 && v[v.len() - 1] == '/' {
        append_str(&mut v, "SmartDiskCleanerMigration");
    } else {
        append_str(&mut v, "/SmartDiskCleanerMigration");
    }
    string_of(v.as_slice())
}

/// Migration advice from a scan: every opportunity found, in order, a plan
/// for each, and a summary; the target root is the one given, else the
/// default.
pub fn build_migration_advice(report: &ScanReport, target_root: Option<&str>, default_root: &str) -> (r: MigrationAdvisorOutput)
    requires
        sizes_sum(report.scanned_files@) <= u64::MAX,
    ensures
        r.source@ == "local_rules"@,
        exists|raw: Seq<MigrationOpportunity>|
            migration_candidates(raw, report.scanned_files@, chosen_root(target_root, default_root@))
            && #[trigger] stable_sort(raw, opportunity_first()) == r.opportunities@,
        r.plans@.len() == r.opportunities@.len(),
        forall|i: int| 0 <= i < r.plans@.len() ==> plan_for(#[trigger] r.plans@[i], r.opportunities@[i]),
        r.summary@ == advice_summary(r.opportunities@),
{
    let root: String = match target_root {
        Some(t) => if chars_of(t).len() > 0 { owned(t) } else { owned(default_root) },
        None => owned(default_root),
    };
    let tr = root.as_str();
    let files = &report.scanned_files;
    let ones = build_one_click_file_opportunities(files, tr);
    let w = build_wechat_data_opportunity(files, tr);
    let p = build_conda_package_cache_opportunity(files, tr);
    let e = build_conda_envs_opportunity(files, tr);
    let i = build_conda_installation_opportunity(files, tr);
    let ghost (gones, gw, gp, ge, gi) = (ones@, w, p, e, i);
    let mut raw = ones;
    let ghost raw0 = raw@;
    match w {
        Some(o) => raw.push(o),
        None => {},
    }
    match p {
        Some(o) => raw.push(o),
        None => {},
    }
    match e {
        Some(o) => raw.push(o),
        None => {},
    }
    match i {
        Some(o) => raw.push(o),
        None => {},
    }
    assert(raw@ =~= gones + opt_seq(gw) + opt_seq(gp) + opt_seq(ge) + opt_seq(gi));
    assert(one_click_result(gones, report.scanned_files@, tr@));
    assert(wechat_result(gw, report.scanned_files@, tr@));
    assert(conda_pkgs_result(gp, report.scanned_files@, tr@));
    assert(conda_envs_result(ge, report.scanned_files@, tr@));
    assert(conda_install_result(gi, report.scanned_files@, tr@));
    assert(migration_candidates(raw@, report.scanned_files@, tr@));
    let ghost graw = raw@;
    let sorted = sort_opportunities(raw);
    let mut plans: Vec<MigrationPlan> = Vec::new();
    let mut k: usize = 0;
    while k < sorted.len()
        invariant
            k <= sorted@.len(),
            plans@.len() == k,
            forall|j: int| 0 <= j < k ==> plan_for(#[trigger] plans@[j], sorted@[j]),
        decreases sorted@.len() - k,
    {
        let plan = build_plan_from_opportunity(&sorted[k]);
        plans.push(plan);
        k += 1;
    }
    let summary = build_summary(&sorted);
    MigrationAdvisorOutput { source: owned("local_rules"), summary, opportunities: sorted, plans }
}

proof fn lemma_one_click_choice(files: Seq<FileRecord>)
    ensures
        forall|k: int| 0 <= k < one_click_choice(files).len() ==> #[trigger] one_click(one_click_choice(files)[k].path@, one_click_choice(files)[k].size),
{
    let recs = one_click_records(files);
    let all = stable_sort(recs, size_then_path());
    let chosen = one_click_choice(files);
    lemma_one_click_records(files);
    crate::sorting::lemma_stable_sort_len(recs, size_then_path());
    assert forall|k: int| 0 <= k < chosen.len() implies #[trigger] one_click(chosen[k].path@, chosen[k].size) by {
        assert(chosen[k] == all[k]);
        crate::sorting::lemma_stable_sort_member(recs, size_then_path(), k);
        let j = choose|j: int| 0 <= j < recs.len() && recs[j] == all[k];
        assert(one_click(recs[j].path@, recs[j].size));
    }
}

/// A file offered for a move at once lies in a user's home, outside
/// system locations and application data.
pub open spec fn movable_source(o: MigrationOpportunity) -> bool {
    user_space(o.source_path@) && !system_sensitive(o.source_path@) && !app_specific(o.source_path@)
}

proof fn lemma_candidates_one_click(raw: Seq<MigrationOpportunity>, files: Seq<FileRecord>, target_root: Seq<char>)
    requires
        migration_candidates(raw, files, target_root),
    ensures
        forall|j: int| 0 <= j < raw.len() && (#[trigger] raw[j]).support_level == MigrationSupportLevel::OneClick
            ==> movable_source(raw[j]),
{
    let (ones, w, p, e, i) = choose|ones: Seq<MigrationOpportunity>, w: Option<MigrationOpportunity>, p: Option<MigrationOpportunity>,
        e: Option<MigrationOpportunity>, i: Option<MigrationOpportunity>|
        #![trigger one_click_result(ones, files, target_root), wechat_result(w, files, target_root), conda_pkgs_result(p, files, target_root), conda_envs_result(e, files, target_root), conda_install_result(i, files, target_root)]
        raw == ones + opt_seq(w) + opt_seq(p) + opt_seq(e) + opt_seq(i)
        && one_click_result(ones, files, target_root)
        && wechat_result(w, files, target_root)
        && conda_pkgs_result(p, files, target_root)
        && conda_envs_result(e, files, target_root)
        && conda_install_result(i, files, target_root);
    lemma_one_click_choice(files);
    let tail = opt_seq(w) + opt_seq(p) + opt_seq(e) + opt_seq(i);
    assert(raw =~= ones + tail);
    assert forall|k: int| 0 <= k < tail.len() implies #[trigger] tail[k].support_level != MigrationSupportLevel::OneClick by {
        let a = opt_seq(w);
        let b = opt_seq(p);
        let c = opt_seq(e);
        let d = opt_seq(i);
        assert(tail =~= a + b + c + d);
        if k < a.len() {
            assert(tail[k] == a[k]);
        } else if k < a.len() + b.len() {
            assert(tail[k] == b[k - a.len()]);
        } else if k < a.len() + b.len() + c.len() {
            assert(tail[k] == c[k - a.len() - b.len()]);
        } else {
            assert(tail[k] == d[k - a.len() - b.len() - c.len()]);
        }
    }
    assert forall|j: int| 0 <= j < raw.len() && (#[trigger] raw[j]).support_level == MigrationSupportLevel::OneClick
        implies movable_source(raw[j]) by {
        if j < ones.len() {
            assert(raw[j] == ones[j]);
            assert(one_click_opportunity(ones[j], one_click_choice(files)[j], target_root));
            assert(one_click(one_click_choice(files)[j].path@, one_click_choice(files)[j].size));
        } else {
            assert(raw[j] == tail[j - ones.len()]);
        }
    }
}

/// Moving at once is offered only for files in a user's home, outside
/// system locations and application data: every opportunity of the advice
/// that can be moved at once has such a source.
pub proof fn law_one_click_only_user_files(raw: Seq<MigrationOpportunity>, files: Seq<FileRecord>, target_root: Seq<char>)
    requires
        migration_candidates(raw, files, target_root),
    ensures
        forall|k: int| 0 <= k < stable_sort(raw, opportunity_first()).len()
            && (#[trigger] stable_sort(raw, opportunity_first())[k]).support_level == MigrationSupportLevel::OneClick
            ==> movable_source(stable_sort(raw, opportunity_first())[k]),
{
    lemma_candidates_one_click(raw, files, target_root);
    let sorted = stable_sort(raw, opportunity_first());
    assert forall|k: int| 0 <= k < sorted.len() && (#[trigger] sorted[k]).support_level == MigrationSupportLevel::OneClick
        implies movable_source(sorted[k]) by {
        crate::sorting::lemma_stable_sort_member(raw, opportunity_first(), k);
        let j = choose|j: int| 0 <= j < raw.len() && raw[j] == sorted[k];
        assert(raw[j].support_level == MigrationSupportLevel::OneClick);
    }
}

} // verus!
