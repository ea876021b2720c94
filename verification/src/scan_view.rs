//! What the scan view shows of a report: files by category and by query,
//! the overview of the top-level entries, and the tree of matching files.

use vstd::prelude::*;
use crate::diagnostics::text_first;
use crate::analyzer::{path_first, sizes_sum, sort_by_path};
use crate::models::{FileRecord, ScanReport};
use crate::order::text_order_exec;
use crate::paths::{components, components_of, has_drive, relative_components, text_order};
use crate::rules::{in_list, listed};
use crate::sorting::{
    at_most, lemma_stable_sort_len, lemma_stable_sort_member, slot, stable_sort,
};
use crate::text::{
    append_chars, append_str, chars_of, contains, contains_chars, eq_chars, join, join_exec, lower, owned,
    string_of, string_views, to_lower, trim, trim_str, views,
};

verus! {

pub open spec fn image_extensions() -> Seq<&'static str> {
    seq!["png", "jpg", "jpeg", "gif", "bmp", "webp", "svg", "ico", "tif", "tiff", "heic", "heif", "raw", "psd", "avif"]
}

pub open spec fn video_extensions() -> Seq<&'static str> {
    seq!["mp4", "mkv", "avi", "mov", "wmv", "flv", "webm", "m4v", "mpeg", "mpg", "ts", "3gp", "rmvb"]
}

pub open spec fn audio_extensions() -> Seq<&'static str> {
    seq!["mp3", "wav", "flac", "aac", "m4a", "ogg", "wma", "opus", "ape", "amr", "mid", "midi"]
}

pub open spec fn archive_extensions() -> Seq<&'static str> {
    seq!["zip", "zipx", "7z", "rar", "tar", "gz", "tgz", "bz2", "xz", "cab", "iso", "img", "dmg", "jar"]
}

pub open spec fn executable_extensions() -> Seq<&'static str> {
    seq!["exe", "com", "msi", "msix", "msixbundle", "appx", "appxbundle", "bat", "cmd", "ps1", "vbs", "js", "jar", "scr"]
}

pub open spec fn document_extensions() -> Seq<&'static str> {
    seq!["pdf", "doc", "docx", "ppt", "pptx", "xls", "xlsx", "csv", "txt", "md", "rtf", "wps", "odt", "ods", "odp"]
}

pub open spec fn code_extensions() -> Seq<&'static str> {
    seq![
        "rs", "toml", "json", "yaml", "yml", "xml", "ini", "cfg", "conf", "env", "ts", "tsx", "js", "jsx",
        "vue", "py", "java", "kt", "go", "c", "cc", "cpp", "h", "hpp", "cs", "php", "rb", "swift", "scala",
        "sql", "html", "css", "scss", "less", "sh", "bash", "zsh", "ps1", "lock",
    ]
}

/// The lower-cased extension a file record carries, or nothing.
pub open spec fn record_ext(f: FileRecord) -> Seq<char> {
    match f.extension {
        Some(e) => lower(e@),
        None => Seq::empty(),
    }
}

/// Whether a file falls in a category of the view: `all`, `image`,
/// `video`, `audio`, `archive`, `executable`, `document`, `code`, or
/// `other` (none of these, or no extension). An unknown category lets every
/// file through.
pub open spec fn category_matches(f: FileRecord, category: Seq<char>) -> bool {
    let ext = record_ext(f);
    if category == "all"@ {
        true
    } else if ext.len() == 0 {
        category == "other"@
    } else {
        let image = listed(ext, image_extensions());
        let video = listed(ext, video_extensions());
        let audio = listed(ext, audio_extensions());
        let archive = listed(ext, archive_extensions());
        let executable = listed(ext, executable_extensions());
        let document = listed(ext, document_extensions());
        let code = listed(ext, code_extensions());
        if category == "image"@ {
            image
        } else if category == "video"@ {
            video
        } else if category == "audio"@ {
            audio
        } else if category == "archive"@ {
            archive
        } else if category == "executable"@ {
            executable
        } else if category == "document"@ {
            document
        } else if category == "code"@ {
            code
        } else if category == "other"@ {
            !(image || video || audio || archive || executable || document || code)
        } else {
            true
        }
    }
}

/// `matches_file_category`.
pub fn matches_file_category(file: &FileRecord, category: &str) -> (r: bool)
    ensures
        r == category_matches(*file, category@),
{
    let cat = chars_of(category);
    let c = cat.as_slice();
    if crate::text::eq_lit(c, "all") {
        return true;
    }
    let ext: Vec<char> = match &file.extension {
        Some(e) => to_lower(chars_of(e.as_str()).as_slice()),
        None => Vec::new(),
    };
    if ext.len() == 0 {
        return crate::text::eq_lit(c, "other");
    }
    let e = ext.as_slice();
    let l_image: [&str; 15] = ["png", "jpg", "jpeg", "gif", "bmp", "webp", "svg", "ico", "tif", "tiff", "heic", "heif", "raw", "psd", "avif"];
    let l_video: [&str; 13] = ["mp4", "mkv", "avi", "mov", "wmv", "flv", "webm", "m4v", "mpeg", "mpg", "ts", "3gp", "rmvb"];
    let l_audio: [&str; 12] = ["mp3", "wav", "flac", "aac", "m4a", "ogg", "wma", "opus", "ape", "amr", "mid", "midi"];
    let l_archive: [&str; 14] = ["zip", "zipx", "7z", "rar", "tar", "gz", "tgz", "bz2", "xz", "cab", "iso", "img", "dmg", "jar"];
    let l_exec: [&str; 14] = ["exe", "com", "msi", "msix", "msixbundle", "appx", "appxbundle", "bat", "cmd", "ps1", "vbs", "js", "jar", "scr"];
    let l_doc: [&str; 15] = ["pdf", "doc", "docx", "ppt", "pptx", "xls", "xlsx", "csv", "txt", "md", "rtf", "wps", "odt", "ods", "odp"];
    let l_code: [&str; 39] = [
        "rs", "toml", "json", "yaml", "yml", "xml", "ini", "cfg", "conf", "env", "ts", "tsx", "js", "jsx",
        "vue", "py", "java", "kt", "go", "c", "cc", "cpp", "h", "hpp", "cs", "php", "rb", "swift", "scala",
        "sql", "html", "css", "scss", "less", "sh", "bash", "zsh", "ps1", "lock",
    ];
    assert(l_image@ =~= image_extensions());
    assert(l_video@ =~= video_extensions());
    assert(l_audio@ =~= audio_extensions());
    assert(l_archive@ =~= archive_extensions());
    assert(l_exec@ =~= executable_extensions());
    assert(l_doc@ =~= document_extensions());
    assert(l_code@ =~= code_extensions());
    let image = in_list(e, &l_image);
    let video = in_list(e, &l_video);
    let audio = in_list(e, &l_audio);
    let archive = in_list(e, &l_archive);
    let executable = in_list(e, &l_exec);
    let document = in_list(e, &l_doc);
    let code = in_list(e, &l_code);
    if crate::text::eq_lit(c, "image") {
        image
    } else if crate::text::eq_lit(c, "video") {
        video
    } else if crate::text::eq_lit(c, "audio") {
        audio
    } else if crate::text::eq_lit(c, "archive") {
        archive
    } else if crate::text::eq_lit(c, "executable") {
        executable
    } else if crate::text::eq_lit(c, "document") {
        document
    } else if crate::text::eq_lit(c, "code") {
        code
    } else if crate::text::eq_lit(c, "other") {
        !(image || video || audio || archive || executable || document || code)
    } else {
        true
    }
}

/// The components of a path below a root, or none where the path is not
/// under it.
pub open spec fn relative_names(path: Seq<char>, root: Seq<char>) -> Seq<Seq<char>> {
    match relative_components(path, root) {
        Some(c) => c,
        None => Seq::empty(),
    }
}

/// The components of `path` below `root` (`Path::strip_prefix`), as
/// vectors of characters.
pub fn relative_chars(path: &str, root: &str) -> (r: Vec<Vec<char>>)
    ensures
        views(r@) == relative_names(path@, root@),
{
    let cp = components_of(path);
    let cb = components_of(root);
    if cb.len() > cp.len() {
        let none: Vec<Vec<char>> = Vec::new();
        assert(views(none@) =~= Seq::<Seq<char>>::empty());
        return none;
    }
    let mut i: usize = 0;
    while i < cb.len()
        invariant
            i <= cb@.len() <= cp@.len(),
            views(cp@) == components(path@),
            views(cb@) == components(root@),
            forall|k: int| 0 <= k < i ==> #[trigger] views(cp@)[k] == views(cb@)[k],
        decreases cb@.len() - i,
    {
        if !eq_chars(cp[i].as_slice(), cb[i].as_slice()) {
            proof {
                assert(views(cp@).subrange(0, cb@.len() as int)[i as int] != views(cb@)[i as int]);
                assert(views(cp@).subrange(0, cb@.len() as int) != views(cb@));
                assert(!crate::paths::path_starts_with(path@, root@));
                assert(relative_components(path@, root@) is None);
            }
            let none: Vec<Vec<char>> = Vec::new();
            assert(views(none@) =~= Seq::<Seq<char>>::empty());
            return none;
        }
        i += 1;
    }
    assert(views(cp@).subrange(0, cb@.len() as int) =~= views(cb@));
    let mut out: Vec<Vec<char>> = Vec::new();
    let mut j: usize = cb.len();
    while j < cp.len()
        invariant
            cb@.len() <= j <= cp@.len(),
            views(cp@) == components(path@),
            views(cb@) == components(root@),
            views(out@) == views(cp@).subrange(cb@.len() as int, j as int),
        decreases cp@.len() - j,
    {
        let ghost before = out@;
        out.push(crate::text::copy_chars(cp[j].as_slice()));
        assert(views(out@) =~= views(before).push(cp@[j as int]@));
        assert(views(cp@).subrange(cb@.len() as int, j + 1) =~= views(cp@).subrange(cb@.len() as int, j as int).push(cp@[j as int]@));
        j += 1;
    }
    out
}

/// `relative_parts`: the components of `path` below `root`.
pub fn relative_parts(path: &str, root: &str) -> (r: Vec<String>)
    ensures
        string_views(r@) == relative_names(path@, root@),
{
    let parts = relative_chars(path, root);
    let mut out: Vec<String> = Vec::new();
    let mut i: usize = 0;
    while i < parts.len()
        invariant
            i <= parts@.len(),
            string_views(out@) == views(parts@).take(i as int),
        decreases parts@.len() - i,
    {
        let ghost before = out@;
        let s = string_of(parts[i].as_slice());
        out.push(s);
        assert(string_views(out@) =~= string_views(before).push(parts@[i as int]@));
        assert(views(parts@).take(i + 1) =~= views(parts@).take(i as int).push(parts@[i as int]@));
        i += 1;
    }
    assert(views(parts@).take(parts@.len() as int) =~= views(parts@));
    out
}

/// `Path::join` of a relative path with Windows separators: a backslash
/// goes between, unless the base is empty, ends with a separator or is a
/// bare drive such as `C:`.
pub open spec fn path_join(base: Seq<char>, rel: Seq<char>) -> Seq<char> {
    if base.len() == 0 || base.last() == '/' || base.last() == '\\' || (base.len() == 2 && has_drive(base)) {
        base + rel
    } else {
        base + seq!['\\'] + rel
    }
}

/// `Path::join` of a relative path.
pub fn path_join_exec(base: &str, rel: &[char]) -> (r: Vec<char>)
    ensures
        r@ == path_join(base@, rel@),
{
    let b = chars_of(base);
    let n = b.len();
    let bare_drive = n == 2 && b[1] == ':' && (('a' <= b[0] && b[0] <= 'z') || ('A' <= b[0] && b[0] <= 'Z'));
    let mut out = b;
    if !(n == 0 || out[n - 1] == '/' || out[n - 1] == '\\' || bare_drive) {
        out.push('\\');
    }
    append_chars(&mut out, rel);
    out
}

/// A sorted list of distinct texts with one more text in its place.
pub open spec fn set_insert(s: Seq<Seq<char>>, x: Seq<char>) -> Seq<Seq<char>> {
    if s.contains(x) {
        s
    } else {
        s.insert(slot(s, x, text_first()), x)
    }
}

fn set_insert_exec(v: &mut Vec<String>, x: String)
    ensures
        string_views(final(v)@) == set_insert(string_views(old(v)@), x@),
{
    let ghost sv = string_views(v@);
    let mut k: usize = 0;
    while k < v.len()
        invariant
            k <= v@.len(),
            sv == string_views(v@),
            forall|m: int| 0 <= m < k ==> #[trigger] sv[m] != x@,
        decreases v@.len() - k,
    {
        if v[k] == x {
            assert(sv[k as int] == x@);
            assert(sv.contains(x@));
            return;
        }
        k += 1;
    }
    assert(!sv.contains(x@));
    let xc = chars_of(x.as_str());
    let mut j: usize = v.len();
    assert(sv.take(j as int) =~= sv);
    while j > 0 && text_order_exec(chars_of(v[j - 1].as_str()).as_slice(), xc.as_slice()) > 0
        invariant
            j <= v@.len(),
            sv == string_views(v@),
            xc@ == x@,
            slot(sv, x@, text_first()) == slot(sv.take(j as int), x@, text_first()),
        decreases j,
    {
        assert(sv.take(j as int).drop_last() =~= sv.take(j - 1));
        assert(sv.take(j as int).last() == v@[j - 1]@);
        j -= 1;
    }
    proof {
        if j > 0 {
            assert(sv.take(j as int).last() == v@[j - 1]@);
        }
    }
    assert(sv.take(j as int).len() == j);
    v.insert(j, x);
    assert(string_views(v@) =~= sv.insert(j as int, x@));
}

/// A top-level entry of the overview while it is being gathered.
pub struct OverviewEntry {
    pub key: Seq<char>,
    pub name: Seq<char>,
    pub path: Seq<char>,
    pub is_dir: bool,
    pub count: int,
    pub size: int,
    pub preview: Seq<Seq<char>>,
}

/// The entry of the overview with the given key, or -1.
pub open spec fn entry_index(es: Seq<OverviewEntry>, key: Seq<char>) -> int
    decreases es.len(),
{
    if es.len() == 0 {
        -1
    } else if es.last().key == key {
        es.len() - 1
    } else {
        entry_index(es.drop_last(), key)
    }
}

/// A new, empty directory entry.
pub open spec fn new_dir_entry(name: Seq<char>, root: Seq<char>) -> OverviewEntry {
    OverviewEntry {
        key: "dir:"@ + name,
        name,
        path: path_join(root, name),
        is_dir: true,
        count: 0,
        size: 0,
        preview: Seq::empty(),
    }
}

/// The entry with the key, or a new directory entry.
pub open spec fn dir_entry_or_new(es: Seq<OverviewEntry>, name: Seq<char>, root: Seq<char>) -> OverviewEntry {
    let j = entry_index(es, "dir:"@ + name);
    if j >= 0 {
        es[j]
    } else {
        new_dir_entry(name, root)
    }
}

/// The entries with `e` in place of the one with its key, or added.
pub open spec fn put_entry(es: Seq<OverviewEntry>, e: OverviewEntry) -> Seq<OverviewEntry> {
    let j = entry_index(es, e.key);
    if j >= 0 {
        es.update(j, e)
    } else {
        es.push(e)
    }
}

/// One scanned file counted into the overview: a file at the top level
/// is an entry of its own; a deeper file counts into its top-level
/// directory, whose preview lists the names just below it.
pub open spec fn overview_file_step(es: Seq<OverviewEntry>, f: FileRecord, root: Seq<char>) -> Seq<OverviewEntry> {
    let parts = relative_names(f.path@, root);
    if parts.len() == 0 {
        es
    } else if parts.len() == 1 {
        put_entry(
            es,
            OverviewEntry {
                key: "file:"@ + parts[0],
                name: parts[0],
                path: f.path@,
                is_dir: false,
                count: 1,
                size: f.size as int,
                preview: Seq::empty(),
            },
        )
    } else {
        let base = dir_entry_or_new(es, parts[0], root);
        put_entry(
            es,
            OverviewEntry {
                count: base.count + 1,
                size: base.size + f.size,
                preview: set_insert(base.preview, parts[1]),
                ..base
            },
        )
    }
}

/// One empty directory counted into the overview.
pub open spec fn overview_dir_step(es: Seq<OverviewEntry>, d: Seq<char>, root: Seq<char>) -> Seq<OverviewEntry> {
    let parts = relative_names(d, root);
    if parts.len() == 0 {
        es
    } else {
        let base = dir_entry_or_new(es, parts[0], root);
        put_entry(
            es,
            if parts.len() > 1 {
                OverviewEntry { preview: set_insert(base.preview, parts[1]), ..base }
            } else {
                base
            },
        )
    }
}

pub open spec fn overview_files(files: Seq<FileRecord>, root: Seq<char>) -> Seq<OverviewEntry>
    decreases files.len(),
{
    if files.len() == 0 {
        Seq::empty()
    } else {
        overview_file_step(overview_files(files.drop_last(), root), files.last(), root)
    }
}

pub open spec fn overview_dirs(es: Seq<OverviewEntry>, dirs: Seq<String>, root: Seq<char>) -> Seq<OverviewEntry>
    decreases dirs.len(),
{
    if dirs.len() == 0 {
        es
    } else {
        overview_dir_step(overview_dirs(es, dirs.drop_last(), root), dirs.last()@, root)
    }
}

/// A row of the overview, taken by value.
pub struct OverviewRow {
    pub key: Seq<char>,
    pub name: Seq<char>,
    pub path: Seq<char>,
    pub kind: Seq<char>,
    pub file_count: int,
    pub total_size: int,
    pub preview: Seq<char>,
}

/// The preview of an entry: `-` for a file, `空目录` for an empty
/// directory, else its first four names and ` 等` where there are more.
pub open spec fn preview_text(e: OverviewEntry) -> Seq<char> {
    if !e.is_dir {
        "-"@
    } else if e.preview.len() == 0 {
        "空目录"@
    } else {
        join(at_most(e.preview, 4), "、"@) + (if e.preview.len() > 4 {
            " 等"@
        } else {
            Seq::empty()
        })
    }
}

pub open spec fn row_of(e: OverviewEntry) -> OverviewRow {
    OverviewRow {
        key: e.key,
        name: e.name,
        path: e.path,
        kind: if e.is_dir { "directory"@ } else { "file"@ },
        file_count: e.count,
        total_size: e.size,
        preview: preview_text(e),
    }
}

/// Directories first, then larger sizes, then names in order.
pub open spec fn overview_first() -> spec_fn(OverviewRow, OverviewRow) -> bool {
    |a: OverviewRow, b: OverviewRow|
        if a.kind != b.kind {
            a.kind == "directory"@
        } else if a.total_size != b.total_size {
            a.total_size > b.total_size
        } else {
            text_order(a.name, b.name) <= 0
        }
}

/// The rows of the overview of a report: its top-level files and
/// directories, ordered, at most `limit` of them.
pub open spec fn overview_rows(report: ScanReport, limit: usize) -> Seq<OverviewRow> {
    let root = report.root@;
    let es = overview_dirs(overview_files(report.scanned_files@, root), report.analysis.empty_dirs@, root);
    at_most(stable_sort(es.map_values(|e: OverviewEntry| row_of(e)), overview_first()), limit as int)
}

/// A row of the directory overview.
#[derive(Clone, Debug)]
pub struct DirectoryOverviewItem {
    pub key: String,
    pub name: String,
    pub path: String,
    pub kind: String,
    pub file_count: usize,
    pub total_size: u64,
    pub preview: String,
}

impl View for DirectoryOverviewItem {
    type V = OverviewRow;

    open spec fn view(&self) -> OverviewRow {
        OverviewRow {
            key: self.key@,
            name: self.name@,
            path: self.path@,
            kind: self.kind@,
            file_count: self.file_count as int,
            total_size: self.total_size as int,
            preview: self.preview@,
        }
    }
}

/// A top-level entry being gathered.
struct OverviewBucket {
    key: String,
    name: String,
    path: String,
    is_dir: bool,
    file_count: usize,
    total_size: u64,
    preview: Vec<String>,
}

spec fn bucket_view(b: OverviewBucket) -> OverviewEntry {
    OverviewEntry {
        key: b.key@,
        name: b.name@,
        path: b.path@,
        is_dir: b.is_dir,
        count: b.file_count as int,
        size: b.total_size as int,
        preview: string_views(b.preview@),
    }
}

spec fn bucket_views(s: Seq<OverviewBucket>) -> Seq<OverviewEntry> {
    s.map_values(|b: OverviewBucket| bucket_view(b))
}

/// Every entry counts at most `n` files and at most `total` bytes.
spec fn entries_bounded(es: Seq<OverviewEntry>, n: int, total: int) -> bool {
    forall|j: int| 0 <= j < es.len() ==> 0 <= #[trigger] es[j].count <= n && 0 <= es[j].size <= total
}

proof fn lemma_entry_index(es: Seq<OverviewEntry>, key: Seq<char>)
    ensures
        -1 <= entry_index(es, key) < es.len(),
        entry_index(es, key) >= 0 ==> es[entry_index(es, key)].key == key,
    decreases es.len(),
{
    if es.len() > 0 && es.last().key != key {
        lemma_entry_index(es.drop_last(), key);
    }
}

proof fn lemma_overview_files_bounded(files: Seq<FileRecord>, root: Seq<char>)
    ensures
        entries_bounded(overview_files(files, root), files.len() as int, sizes_sum(files)),
    decreases files.len(),
{
    if files.len() > 0 {
        let prev = files.drop_last();
        lemma_overview_files_bounded(prev, root);
        let es = overview_files(prev, root);
        let parts = relative_names(files.last().path@, root);
        if parts.len() > 0 {
            let k = if parts.len() == 1 { "file:"@ + parts[0] } else { "dir:"@ + parts[0] };
            lemma_entry_index(es, k);
        }
        let fin = overview_files(files, root);
        crate::analyzer::lemma_sizes_sum_prefix(files, files.len() - 1);
        assert(files.take(files.len() - 1) =~= prev);
        assert(sizes_sum(files) == sizes_sum(prev) + files.last().size);
        assert forall|j: int| 0 <= j < fin.len() implies 0 <= #[trigger] fin[j].count <= files.len()
            && 0 <= fin[j].size <= sizes_sum(files) by {
            if j < es.len() {
                assert(0 <= es[j].count <= prev.len());
                assert(0 <= es[j].size <= sizes_sum(prev));
            }
            if parts.len() > 1 {
                let base = dir_entry_or_new(es, parts[0], root);
                let idx = entry_index(es, "dir:"@ + parts[0]);
                if idx >= 0 {
                    assert(0 <= es[idx].count <= prev.len());
                    assert(0 <= es[idx].size <= sizes_sum(prev));
                }
                assert(0 <= base.count <= prev.len());
                assert(0 <= base.size <= sizes_sum(prev));
            }
        }
    }
}

proof fn lemma_overview_dirs_bounded(es: Seq<OverviewEntry>, dirs: Seq<String>, root: Seq<char>, n: int, total: int)
    requires
        entries_bounded(es, n, total),
        n >= 0,
        total >= 0,
    ensures
        entries_bounded(overview_dirs(es, dirs, root), n, total),
    decreases dirs.len(),
{
    if dirs.len() > 0 {
        lemma_overview_dirs_bounded(es, dirs.drop_last(), root, n, total);
        let prev = overview_dirs(es, dirs.drop_last(), root);
        let parts = relative_names(dirs.last()@, root);
        if parts.len() > 0 {
            lemma_entry_index(prev, "dir:"@ + parts[0]);
        }
        let fin = overview_dirs(es, dirs, root);
        assert forall|j: int| 0 <= j < fin.len() implies 0 <= #[trigger] fin[j].count <= n && 0 <= fin[j].size
            <= total by {
            if j < prev.len() {
                assert(0 <= prev[j].count <= n);
            }
        }
    }
}

fn find_bucket(buckets: &Vec<OverviewBucket>, key: &Vec<char>) -> (r: Option<usize>)
    ensures
        match r {
            Some(j) => j == entry_index(bucket_views(buckets@), key@),
            None => entry_index(bucket_views(buckets@), key@) < 0,
        },
{
    let ghost bv = bucket_views(buckets@);
    let mut j: usize = buckets.len();
    assert(bv.take(j as int) =~= bv);
    while j > 0
        invariant
            j <= buckets@.len(),
            bv == bucket_views(buckets@),
            entry_index(bv, key@) == entry_index(bv.take(j as int), key@),
        decreases j,
    {
        assert(bv.take(j as int).drop_last() =~= bv.take(j - 1));
        assert(bv.take(j as int).last() == bucket_view(buckets@[j - 1]));
        if eq_chars(chars_of(buckets[j - 1].key.as_str()).as_slice(), key.as_slice()) {
            return Some(j - 1);
        }
        j -= 1;
    }
    None
}

fn copy_bucket(b: &OverviewBucket) -> (r: OverviewBucket)
    ensures
        bucket_view(r) == bucket_view(*b),
{
    OverviewBucket {
        key: b.key.clone(),
        name: b.name.clone(),
        path: b.path.clone(),
        is_dir: b.is_dir,
        file_count: b.file_count,
        total_size: b.total_size,
        preview: crate::text::copy_strings(&b.preview),
    }
}

fn put_bucket(buckets: &mut Vec<OverviewBucket>, at: Option<usize>, b: OverviewBucket)
    requires
        match at {
            Some(j) => j == entry_index(bucket_views(old(buckets)@), bucket_view(b).key),
            None => entry_index(bucket_views(old(buckets)@), bucket_view(b).key) < 0,
        },
    ensures
        bucket_views(final(buckets)@) == put_entry(bucket_views(old(buckets)@), bucket_view(b)),
{
    proof {
        lemma_entry_index(bucket_views(buckets@), bucket_view(b).key);
    }
    let ghost bv = bucket_views(buckets@);
    let ghost e = bucket_view(b);
    match at {
        Some(j) => {
            buckets.set(j, b);
            assert(bucket_views(buckets@) =~= bv.update(j as int, e));
        },
        None => {
            buckets.push(b);
            assert(bucket_views(buckets@) =~= bv.push(e));
        },
    }
}

fn prefixed(prefix: &str, name: &[char]) -> (r: Vec<char>)
    ensures
        r@ == prefix@ + name@,
{
    let mut out = chars_of(prefix);
    append_chars(&mut out, name);
    out
}

fn dir_bucket_or_new(buckets: &Vec<OverviewBucket>, name: &Vec<char>, root: &str) -> (r: (Option<usize>, OverviewBucket))
    ensures
        bucket_view(r.1) == dir_entry_or_new(bucket_views(buckets@), name@, root@),
        bucket_view(r.1).key == "dir:"@ + name@,
        match r.0 {
            Some(j) => j == entry_index(bucket_views(buckets@), "dir:"@ + name@),
            None => entry_index(bucket_views(buckets@), "dir:"@ + name@) < 0,
        },
{
    let key = prefixed("dir:", name.as_slice());
    proof {
        lemma_entry_index(bucket_views(buckets@), key@);
    }
    match find_bucket(buckets, &key) {
        Some(j) => {
            let b = copy_bucket(&buckets[j]);
            assert(bucket_views(buckets@)[j as int] == bucket_view(buckets@[j as int]));
            (Some(j), b)
        },
        None => {
            let path = path_join_exec(root, name.as_slice());
            let b = OverviewBucket {
                key: string_of(key.as_slice()),
                name: string_of(name.as_slice()),
                path: string_of(path.as_slice()),
                is_dir: true,
                file_count: 0,
                total_size: 0,
                preview: Vec::new(),
            };
            assert(string_views(b.preview@) =~= Seq::<Seq<char>>::empty());
            assert(bucket_view(b) == new_dir_entry(name@, root@));
            (None, b)
        },
    }
}

fn gather_overview(report: &ScanReport) -> (r: Vec<OverviewBucket>)
    requires
        sizes_sum(report.scanned_files@) <= u64::MAX,
    ensures
        bucket_views(r@) == overview_dirs(
            overview_files(report.scanned_files@, report.root@),
            report.analysis.empty_dirs@,
            report.root@,
        ),
{
    let ghost files = report.scanned_files@;
    let ghost root = report.root@;
    let root_text = report.root.as_str();
    let mut buckets: Vec<OverviewBucket> = Vec::new();
    let mut i: usize = 0;
    while i < report.scanned_files.len()
        invariant
            i <= files.len(),
            files == report.scanned_files@,
            root == report.root@,
            root_text@ == root,
            sizes_sum(files) <= u64::MAX,
            bucket_views(buckets@) == overview_files(files.take(i as int), root),
        decreases files.len() - i,
    {
        let file = &report.scanned_files[i];
        let ghost prev = files.take(i as int);
        proof {
            assert(files.take(i + 1).drop_last() =~= prev);
            assert(files.take(i + 1).last() == *file);
            lemma_overview_files_bounded(prev, root);
            crate::analyzer::lemma_sizes_sum_prefix(files, i + 1);
        }
        let parts = relative_chars(file.path.as_str(), root_text);
        if parts.len() == 1 {
            let key = prefixed("file:", parts[0].as_slice());
            proof {
                lemma_entry_index(bucket_views(buckets@), key@);
            }
            let at = find_bucket(&buckets, &key);
            let b = OverviewBucket {
                key: string_of(key.as_slice()),
                name: string_of(parts[0].as_slice()),
                path: file.path.clone(),
                is_dir: false,
                file_count: 1,
                total_size: file.size,
                preview: Vec::new(),
            };
            assert(string_views(b.preview@) =~= Seq::<Seq<char>>::empty());
            assert(views(parts@)[0] == parts@[0]@);
            put_bucket(&mut buckets, at, b);
        } else if parts.len() > 1 {
            let (at, base) = dir_bucket_or_new(&buckets, &parts[0], root_text);
            proof {
                let es = bucket_views(buckets@);
                lemma_entry_index(es, "dir:"@ + parts@[0]@);
                if at is Some {
                    assert(0 <= es[at->0 as int].count <= prev.len());
                }
            }
            let ghost bview = bucket_view(base);
            let mut updated = base;
            updated.file_count = updated.file_count + 1;
            updated.total_size = updated.total_size + file.size;
            set_insert_exec(&mut updated.preview, string_of(parts[1].as_slice()));
            assert(views(parts@)[0] == parts@[0]@);
            assert(views(parts@)[1] == parts@[1]@);
            assert(bucket_view(updated) == (OverviewEntry {
                count: bview.count + 1,
                size: bview.size + file.size,
                preview: set_insert(bview.preview, parts@[1]@),
                ..bview
            }));
            put_bucket(&mut buckets, at, updated);
        }
        i += 1;
    }
    assert(files.take(files.len() as int) =~= files);
    let ghost mid = bucket_views(buckets@);
    let ghost dirs = report.analysis.empty_dirs@;
    let mut d: usize = 0;
    while d < report.analysis.empty_dirs.len()
        invariant
            d <= dirs.len(),
            dirs == report.analysis.empty_dirs@,
            root_text@ == root,
            bucket_views(buckets@) == overview_dirs(mid, dirs.take(d as int), root),
        decreases dirs.len() - d,
    {
        proof {
            assert(dirs.take(d + 1).drop_last() =~= dirs.take(d as int));
        }
        let parts = relative_chars(report.analysis.empty_dirs[d].as_str(), root_text);
        if parts.len() > 0 {
            let (at, base) = dir_bucket_or_new(&buckets, &parts[0], root_text);
            let ghost bview = bucket_view(base);
            let mut updated = base;
            assert(views(parts@)[0] == parts@[0]@);
            if parts.len() > 1 {
                set_insert_exec(&mut updated.preview, string_of(parts[1].as_slice()));
                assert(views(parts@)[1] == parts@[1]@);
                assert(bucket_view(updated) == (OverviewEntry { preview: set_insert(bview.preview, parts@[1]@), ..bview }));
            }
            put_bucket(&mut buckets, at, updated);
        }
        d += 1;
    }
    assert(dirs.take(dirs.len() as int) =~= dirs);
    buckets
}

fn preview_of(b: &OverviewBucket) -> (r: String)
    ensures
        r@ == preview_text(bucket_view(*b)),
{
    if !b.is_dir {
        return owned("-");
    }
    if b.preview.len() == 0 {
        return owned("空目录");
    }
    let ghost pv = string_views(b.preview@);
    let mut first: Vec<Vec<char>> = Vec::new();
    let mut i: usize = 0;
    while i < b.preview.len() && i < 4
        invariant
            i <= b.preview@.len(),
            i <= 4,
            pv == string_views(b.preview@),
            views(first@) == pv.take(i as int),
        decreases b.preview@.len() - i,
    {
        let ghost before = first@;
        first.push(chars_of(b.preview[i].as_str()));
        assert(views(first@) =~= views(before).push(pv[i as int]));
        assert(pv.take(i + 1) =~= pv.take(i as int).push(pv[i as int]));
        i += 1;
    }
    assert(views(first@) =~= at_most(pv, 4));
    let sep = chars_of("、");
    let mut out = join_exec(&first, sep.as_slice());
    if b.preview.len() > 4 {
        append_str(&mut out, " 等");
    }
    assert(out@ =~= preview_text(bucket_view(*b)));
    string_of(out.as_slice())
}

fn item_of(b: &OverviewBucket) -> (r: DirectoryOverviewItem)
    ensures
        r@ == row_of(bucket_view(*b)),
{
    DirectoryOverviewItem {
        key: b.key.clone(),
        name: b.name.clone(),
        path: b.path.clone(),
        kind: owned(if b.is_dir { "directory" } else { "file" }),
        file_count: b.file_count,
        total_size: b.total_size,
        preview: preview_of(b),
    }
}

/// Whether row `a` may stand in front of row `b`.
fn overview_before(a: &DirectoryOverviewItem, b: &DirectoryOverviewItem) -> (r: bool)
    ensures
        r == overview_first()(a@, b@),
{
    if a.kind != b.kind {
        crate::text::eq_lit(chars_of(a.kind.as_str()).as_slice(), "directory")
    } else if a.total_size != b.total_size {
        a.total_size > b.total_size
    } else {
        text_order_exec(chars_of(a.name.as_str()).as_slice(), chars_of(b.name.as_str()).as_slice()) <= 0
    }
}

/// `build_directory_overview`: the top-level files and directories of a
/// report under its root, directories first, then by size and name, at
/// most `limit` of them.
pub fn build_directory_overview(report: &ScanReport, limit: usize) -> (r: Vec<DirectoryOverviewItem>)
    requires
        sizes_sum(report.scanned_files@) <= u64::MAX,
    ensures
        r@.map_values(|it: DirectoryOverviewItem| it@) == overview_rows(*report, limit),
{
    let buckets = gather_overview(report);
    let ghost es = bucket_views(buckets@);
    let ghost rows = es.map_values(|e: OverviewEntry| row_of(e));
    let mut out: Vec<DirectoryOverviewItem> = Vec::new();
    let mut i: usize = 0;
    while i < buckets.len()
        invariant
            i <= buckets@.len(),
            es == bucket_views(buckets@),
            rows == es.map_values(|e: OverviewEntry| row_of(e)),
            out@.map_values(|it: DirectoryOverviewItem| it@) == stable_sort(rows.take(i as int), overview_first()),
        decreases buckets@.len() - i,
    {
        let x = item_of(&buckets[i]);
        let ghost ov = out@.map_values(|it: DirectoryOverviewItem| it@);
        let mut j: usize = out.len();
        assert(ov.take(j as int) =~= ov);
        while j > 0 && !overview_before(&out[j - 1], &x)
            invariant
                j <= out@.len(),
                ov == out@.map_values(|it: DirectoryOverviewItem| it@),
                slot(ov, x@, overview_first()) == slot(ov.take(j as int), x@, overview_first()),
            decreases j,
        {
            assert(ov.take(j as int).drop_last() =~= ov.take(j - 1));
            assert(ov.take(j as int).last() == out@[j - 1]@);
            j -= 1;
        }
        proof {
            if j > 0 {
                assert(ov.take(j as int).last() == out@[j - 1]@);
            }
        }
        assert(ov.take(j as int).len() == j);
        assert(rows.take(i + 1).drop_last() =~= rows.take(i as int));
        assert(rows.take(i + 1).last() == x@);
        out.insert(j, x);
        assert(out@.map_values(|it: DirectoryOverviewItem| it@) =~= ov.insert(j as int, x@));
        i += 1;
    }
    assert(rows.take(rows.len() as int) =~= rows);
    let ghost sorted = out@.map_values(|it: DirectoryOverviewItem| it@);
    out.truncate(limit);
    assert(out@.map_values(|it: DirectoryOverviewItem| it@) =~= at_most(sorted, limit as int));
    out
}

/// A node of the file tree: a directory with its nested rows, or a file.
#[derive(Debug)]
pub struct FileTreeNode {
    pub key: String,
    pub name: String,
    pub path: String,
    pub kind: String,
    pub size: u64,
    pub extension: String,
    pub file_count: usize,
    pub children: Option<Vec<FileTreeNode>>,
}

/// The number of nodes of a forest of rows, nested ones included.
pub open spec fn node_total(rows: Seq<FileTreeNode>) -> int
    decreases rows,
{
    if rows.len() == 0 {
        0
    } else {
        let last = rows.last();
        node_total(rows.drop_last()) + 1 + match last.children {
            Some(c) => node_total(c@),
            None => 0,
        }
    }
}

proof fn lemma_node_total_prefix(rows: Seq<FileTreeNode>, i: int)
    requires
        0 <= i <= rows.len(),
    ensures
        0 <= node_total(rows.take(i)) <= node_total(rows),
    decreases rows.len(),
{
    if rows.len() > 0 {
        lemma_node_total_nonneg(rows);
        if i == rows.len() {
            assert(rows.take(i) =~= rows);
        } else {
            lemma_node_total_prefix(rows.drop_last(), i);
            assert(rows.drop_last().take(i) =~= rows.take(i));
            let last = rows.last();
            if last.children is Some {
                lemma_node_total_nonneg(last.children->0@);
            }
        }
    } else {
        assert(rows.take(i) =~= rows);
    }
}

proof fn lemma_node_total_nonneg(rows: Seq<FileTreeNode>)
    ensures
        node_total(rows) >= 0,
    decreases rows,
{
    if rows.len() > 0 {
        lemma_node_total_nonneg(rows.drop_last());
        let last = rows.last();
        if last.children is Some {
            lemma_node_total_nonneg(last.children->0@);
        }
    }
}

/// `count_nodes`: the number of nodes of the rows, nested ones included.
pub fn count_nodes(rows: &[FileTreeNode]) -> (r: usize)
    requires
        node_total(rows@) <= usize::MAX,
    ensures
        r == node_total(rows@),
    decreases rows@,
{
    let mut total: usize = 0;
    let mut i: usize = 0;
    while i < rows.len()
        invariant
            i <= rows@.len(),
            node_total(rows@) <= usize::MAX,
            total == node_total(rows@.take(i as int)),
        decreases rows@.len() - i,
    {
        proof {
            lemma_node_total_prefix(rows@, i + 1);
            assert(rows@.take(i + 1).drop_last() =~= rows@.take(i as int));
            assert(rows@.take(i + 1).last() == rows@[i as int]);
        }
        let sub: usize = match &rows[i].children {
            Some(c) => {
                proof {
                    lemma_node_total_nonneg(c@);
                    lemma_node_total_nonneg(rows@.take(i as int));
                }
                count_nodes(c.as_slice())
            },
            None => 0,
        };
        total = total + 1 + sub;
        i += 1;
    }
    assert(rows@.take(rows@.len() as int) =~= rows@);
    total
}

/// A node of the file tree below some prefix, taken by value.
pub struct TreeEntry {
    pub key: Seq<char>,
    pub name: Seq<char>,
    pub path: Seq<char>,
    pub is_dir: bool,
    pub size: int,
    pub ext: Seq<char>,
    pub count: int,
}

/// The extension a file row shows: the record's, or nothing.
pub open spec fn ext_shown(f: FileRecord) -> Seq<char> {
    match f.extension {
        Some(e) => e@,
        None => Seq::empty(),
    }
}

/// The node with the given key, or -1.
pub open spec fn tree_index(es: Seq<TreeEntry>, key: Seq<char>) -> int
    decreases es.len(),
{
    if es.len() == 0 {
        -1
    } else if es.last().key == key {
        es.len() - 1
    } else {
        tree_index(es.drop_last(), key)
    }
}

pub open spec fn put_tree(es: Seq<TreeEntry>, e: TreeEntry) -> Seq<TreeEntry> {
    let j = tree_index(es, e.key);
    if j >= 0 {
        es.update(j, e)
    } else {
        es.push(e)
    }
}

/// Whether the components `parts` lie strictly below `prefix`.
pub open spec fn below(parts: Seq<Seq<char>>, prefix: Seq<Seq<char>>) -> bool {
    parts.len() > prefix.len() && parts.take(prefix.len() as int) == prefix
}

/// One file counted into the nodes just below `prefix`: the file itself
/// where it lies there, else the directory it lies in, whose size and
/// count grow.
pub open spec fn tree_step(
    es: Seq<TreeEntry>,
    f: FileRecord,
    root: Seq<char>,
    prefix: Seq<Seq<char>>,
) -> Seq<TreeEntry> {
    let parts = relative_names(f.path@, root);
    let n = prefix.len() as int;
    if !below(parts, prefix) {
        es
    } else if parts.len() == n + 1 {
        put_tree(
            es,
            TreeEntry {
                key: "file:"@ + join(parts, seq!['/']),
                name: parts[n],
                path: f.path@,
                is_dir: false,
                size: f.size as int,
                ext: ext_shown(f),
                count: 1,
            },
        )
    } else {
        let sub = parts.take(n + 1);
        let key = "dir:"@ + join(sub, seq!['/']);
        let j = tree_index(es, key);
        let base = if j >= 0 {
            es[j]
        } else {
            TreeEntry {
                key,
                name: parts[n],
                path: path_join(root, join(sub, seq!['/'])),
                is_dir: true,
                size: 0,
                ext: Seq::empty(),
                count: 0,
            }
        };
        put_tree(es, TreeEntry { size: base.size + f.size, count: base.count + 1, ..base })
    }
}

/// The nodes just below `prefix`, in the order they first occur.
pub open spec fn tree_entries(files: Seq<FileRecord>, root: Seq<char>, prefix: Seq<Seq<char>>) -> Seq<TreeEntry>
    decreases files.len(),
{
    if files.len() == 0 {
        Seq::empty()
    } else {
        tree_step(tree_entries(files.drop_last(), root, prefix), files.last(), root, prefix)
    }
}

/// Directories first, then larger sizes, then names in order.
pub open spec fn tree_first() -> spec_fn(TreeEntry, TreeEntry) -> bool {
    |a: TreeEntry, b: TreeEntry|
        if a.is_dir != b.is_dir {
            a.is_dir
        } else if a.size != b.size {
            a.size > b.size
        } else {
            text_order(a.name, b.name) <= 0
        }
}

/// The deepest a file lies below the root, in components.
pub open spec fn max_parts(files: Seq<FileRecord>, root: Seq<char>) -> int
    decreases files.len(),
{
    if files.len() == 0 {
        0
    } else {
        let m = max_parts(files.drop_last(), root);
        let k = relative_names(files.last().path@, root).len() as int;
        if k > m {
            k
        } else {
            m
        }
    }
}

/// A row shows the node: its key, name, path, kind, size, extension and
/// file count.
pub open spec fn node_shows(n: FileTreeNode, e: TreeEntry) -> bool {
    &&& n.key@ == e.key
    &&& n.name@ == e.name
    &&& n.path@ == e.path
    &&& n.kind@ == (if e.is_dir { "directory"@ } else { "file"@ })
    &&& n.size == e.size
    &&& n.extension@ == e.ext
    &&& n.file_count == e.count
}

/// The rows are the file tree below `prefix`: its nodes in order, each
/// directory with the rows below it (none where it is empty), each file
/// without any. `fuel` bounds the depth still to go.
pub open spec fn tree_rows_match(
    rows: Seq<FileTreeNode>,
    files: Seq<FileRecord>,
    root: Seq<char>,
    prefix: Seq<Seq<char>>,
    fuel: nat,
) -> bool
    decreases fuel,
{
    let expected = stable_sort(tree_entries(files, root, prefix), tree_first());
    &&& rows.len() == expected.len()
    &&& forall|i: int| 0 <= i < rows.len() ==> #[trigger] node_shows(rows[i], expected[i])
    &&& forall|i: int|
        0 <= i < rows.len() ==> if (#[trigger] expected[i]).is_dir {
            &&& fuel > 0
            &&& if tree_entries(files, root, prefix.push(expected[i].name)).len() == 0 {
                rows[i].children is None
            } else {
                &&& rows[i].children is Some
                &&& tree_rows_match(rows[i].children->0@, files, root, prefix.push(expected[i].name), (fuel - 1) as nat)
            }
        } else {
            rows[i].children is None
        }
}

/// The number of rows of the file tree below `prefix`, nested ones
/// included.
pub open spec fn tree_count(files: Seq<FileRecord>, root: Seq<char>, prefix: Seq<Seq<char>>, fuel: nat) -> int
    decreases fuel, 1nat, 0nat,
{
    entries_count(stable_sort(tree_entries(files, root, prefix), tree_first()), files, root, prefix, fuel)
}

/// The number of rows for the nodes `es` below `prefix`, nested ones
/// included.
pub open spec fn entries_count(
    es: Seq<TreeEntry>,
    files: Seq<FileRecord>,
    root: Seq<char>,
    prefix: Seq<Seq<char>>,
    fuel: nat,
) -> int
    decreases fuel, 0nat, es.len(),
{
    if es.len() == 0 {
        0
    } else {
        let e = es.last();
        entries_count(es.drop_last(), files, root, prefix, fuel) + 1 + if e.is_dir && fuel > 0 {
            tree_count(files, root, prefix.push(e.name), (fuel - 1) as nat)
        } else {
            0
        }
    }
}

pub proof fn lemma_tree_index(es: Seq<TreeEntry>, key: Seq<char>)
    ensures
        -1 <= tree_index(es, key) < es.len(),
        tree_index(es, key) >= 0 ==> es[tree_index(es, key)].key == key,
    decreases es.len(),
{
    if es.len() > 0 && es.last().key != key {
        lemma_tree_index(es.drop_last(), key);
    }
}

/// Every node below `prefix` counts at most all files and at most all
/// bytes, and a directory node lies above some file.
pub open spec fn tree_entries_bounded(es: Seq<TreeEntry>, files: Seq<FileRecord>, root: Seq<char>, n: int) -> bool {
    forall|j: int|
        0 <= j < es.len() ==> {
            &&& 0 <= #[trigger] es[j].count <= files.len()
            &&& 0 <= es[j].size <= sizes_sum(files)
            &&& es[j].is_dir ==> max_parts(files, root) >= n + 2
        }
}

pub proof fn lemma_max_parts(files: Seq<FileRecord>, root: Seq<char>)
    ensures
        max_parts(files, root) >= 0,
        files.len() > 0 ==> max_parts(files, root) >= relative_names(files.last().path@, root).len(),
        files.len() > 0 ==> max_parts(files, root) >= max_parts(files.drop_last(), root),
    decreases files.len(),
{
    if files.len() > 0 {
        lemma_max_parts(files.drop_last(), root);
    }
}

pub proof fn lemma_tree_entries_bounded(files: Seq<FileRecord>, root: Seq<char>, prefix: Seq<Seq<char>>)
    ensures
        tree_entries_bounded(tree_entries(files, root, prefix), files, root, prefix.len() as int),
    decreases files.len(),
{
    if files.len() > 0 {
        let prev = files.drop_last();
        lemma_tree_entries_bounded(prev, root, prefix);
        lemma_max_parts(files, root);
        crate::analyzer::lemma_sizes_sum_prefix(files, files.len() - 1);
        assert(files.take(files.len() - 1) =~= prev);
        let es = tree_entries(prev, root, prefix);
        let f = files.last();
        let parts = relative_names(f.path@, root);
        let n = prefix.len() as int;
        let fin = tree_entries(files, root, prefix);
        let fkey = "file:"@ + join(parts, seq!['/']);
        let dkey = "dir:"@ + join(parts.take(n + 1), seq!['/']);
        lemma_tree_index(es, fkey);
        lemma_tree_index(es, dkey);
        assert forall|j: int| 0 <= j < fin.len() implies {
            &&& 0 <= #[trigger] fin[j].count <= files.len()
            &&& 0 <= fin[j].size <= sizes_sum(files)
            &&& fin[j].is_dir ==> max_parts(files, root) >= n + 2
        } by {
            if j < es.len() {
                assert(0 <= es[j].count <= prev.len());
                assert(0 <= es[j].size <= sizes_sum(prev));
                assert(es[j].is_dir ==> max_parts(prev, root) >= n + 2);
            }
            let idx = tree_index(es, dkey);
            if idx >= 0 {
                assert(0 <= es[idx].count <= prev.len());
                assert(0 <= es[idx].size <= sizes_sum(prev));
            }
        }
    }
}

struct TreeBucket {
    key: String,
    name: String,
    path: String,
    is_dir: bool,
    size: u64,
    ext: String,
    count: usize,
}

spec fn tree_view(b: TreeBucket) -> TreeEntry {
    TreeEntry {
        key: b.key@,
        name: b.name@,
        path: b.path@,
        is_dir: b.is_dir,
        size: b.size as int,
        ext: b.ext@,
        count: b.count as int,
    }
}

spec fn tree_views(s: Seq<TreeBucket>) -> Seq<TreeEntry> {
    s.map_values(|b: TreeBucket| tree_view(b))
}

/// The components of each file below the root.
pub open spec fn parts_match(parts: Seq<Vec<Vec<char>>>, files: Seq<FileRecord>, root: Seq<char>) -> bool {
    &&& parts.len() == files.len()
    &&& forall|k: int| 0 <= k < files.len() ==> views(#[trigger] parts[k]@) == relative_names(files[k].path@, root)
}

fn find_tree(buckets: &Vec<TreeBucket>, key: &Vec<char>) -> (r: Option<usize>)
    ensures
        match r {
            Some(j) => j == tree_index(tree_views(buckets@), key@),
            None => tree_index(tree_views(buckets@), key@) < 0,
        },
{
    let ghost bv = tree_views(buckets@);
    let mut j: usize = buckets.len();
    assert(bv.take(j as int) =~= bv);
    while j > 0
        invariant
            j <= buckets@.len(),
            bv == tree_views(buckets@),
            tree_index(bv, key@) == tree_index(bv.take(j as int), key@),
        decreases j,
    {
        assert(bv.take(j as int).drop_last() =~= bv.take(j - 1));
        assert(bv.take(j as int).last() == tree_view(buckets@[j - 1]));
        if eq_chars(chars_of(buckets[j - 1].key.as_str()).as_slice(), key.as_slice()) {
            return Some(j - 1);
        }
        j -= 1;
    }
    None
}

fn put_tree_bucket(buckets: &mut Vec<TreeBucket>, at: Option<usize>, b: TreeBucket)
    requires
        match at {
            Some(j) => j == tree_index(tree_views(old(buckets)@), tree_view(b).key),
            None => tree_index(tree_views(old(buckets)@), tree_view(b).key) < 0,
        },
    ensures
        tree_views(final(buckets)@) == put_tree(tree_views(old(buckets)@), tree_view(b)),
{
    proof {
        lemma_tree_index(tree_views(buckets@), tree_view(b).key);
    }
    let ghost bv = tree_views(buckets@);
    let ghost e = tree_view(b);
    match at {
        Some(j) => {
            buckets.set(j, b);
            assert(tree_views(buckets@) =~= bv.update(j as int, e));
        },
        None => {
            buckets.push(b);
            assert(tree_views(buckets@) =~= bv.push(e));
        },
    }
}

fn is_below(parts: &Vec<Vec<char>>, prefix: &Vec<Vec<char>>) -> (r: bool)
    ensures
        r == below(views(parts@), views(prefix@)),
{
    if parts.len() <= prefix.len() {
        return false;
    }
    let mut i: usize = 0;
    while i < prefix.len()
        invariant
            i <= prefix@.len() < parts@.len(),
            forall|k: int| 0 <= k < i ==> #[trigger] views(parts@)[k] == views(prefix@)[k],
        decreases prefix@.len() - i,
    {
        if !eq_chars(parts[i].as_slice(), prefix[i].as_slice()) {
            assert(views(parts@).take(prefix@.len() as int)[i as int] != views(prefix@)[i as int]);
            return false;
        }
        i += 1;
    }
    assert(views(parts@).take(prefix@.len() as int) =~= views(prefix@));
    true
}

fn first_parts(parts: &Vec<Vec<char>>, n: usize) -> (r: Vec<Vec<char>>)
    requires
        n <= parts@.len(),
    ensures
        views(r@) == views(parts@).take(n as int),
{
    let mut out: Vec<Vec<char>> = Vec::new();
    let mut i: usize = 0;
    while i < n
        invariant
            i <= n <= parts@.len(),
            views(out@) == views(parts@).take(i as int),
        decreases n - i,
    {
        let ghost before = out@;
        out.push(crate::text::copy_chars(parts[i].as_slice()));
        assert(views(out@) =~= views(before).push(parts@[i as int]@));
        assert(views(parts@).take(i + 1) =~= views(parts@).take(i as int).push(parts@[i as int]@));
        i += 1;
    }
    out
}

fn gather_tree(files: &[FileRecord], parts: &Vec<Vec<Vec<char>>>, root: &str, prefix: &Vec<Vec<char>>) -> (r: Vec<TreeBucket>)
    requires
        parts_match(parts@, files@, root@),
        sizes_sum(files@) <= u64::MAX,
    ensures
        tree_views(r@) == tree_entries(files@, root@, views(prefix@)),
{
    let ghost pre = views(prefix@);
    let n = prefix.len();
    let slash: [char; 1] = ['/'];
    assert(slash@ =~= seq!['/']);
    let mut buckets: Vec<TreeBucket> = Vec::new();
    let mut i: usize = 0;
    while i < files.len()
        invariant
            i <= files@.len(),
            parts_match(parts@, files@, root@),
            sizes_sum(files@) <= u64::MAX,
            pre == views(prefix@),
            n == prefix@.len(),
            slash@ == seq!['/'],
            tree_views(buckets@) == tree_entries(files@.take(i as int), root@, pre),
        decreases files@.len() - i,
    {
        let file = &files[i];
        let ghost prev = files@.take(i as int);
        let ghost es = tree_views(buckets@);
        proof {
            assert(files@.take(i + 1).drop_last() =~= prev);
            assert(files@.take(i + 1).last() == *file);
            lemma_tree_entries_bounded(prev, root@, pre);
            crate::analyzer::lemma_sizes_sum_prefix(files@, i + 1);
            assert(views(parts@[i as int]@) == relative_names(file.path@, root@));
        }
        let p = &parts[i];
        if is_below(p, prefix) {
            if p.len() == n + 1 {
                let joined = join_exec(p, &slash);
                let key = prefixed("file:", joined.as_slice());
                proof {
                    lemma_tree_index(es, key@);
                }
                let at = find_tree(&buckets, &key);
                let ext = match &file.extension {
                    Some(e) => e.clone(),
                    None => String::new(),
                };
                let b = TreeBucket {
                    key: string_of(key.as_slice()),
                    name: string_of(p[n].as_slice()),
                    path: file.path.clone(),
                    is_dir: false,
                    size: file.size,
                    ext,
                    count: 1,
                };
                assert(views(p@)[n as int] == p@[n as int]@);
                put_tree_bucket(&mut buckets, at, b);
            } else {
                let sub = first_parts(p, n + 1);
                let joined = join_exec(&sub, &slash);
                let key = prefixed("dir:", joined.as_slice());
                proof {
                    lemma_tree_index(es, key@);
                }
                let at = find_tree(&buckets, &key);
                let base = match at {
                    Some(j) => {
                        let bj = &buckets[j];
                        proof {
                            assert(es[j as int] == tree_view(buckets@[j as int]));
                            assert(0 <= es[j as int].count <= prev.len());
                            assert(0 <= es[j as int].size <= sizes_sum(prev));
                        }
                        TreeBucket {
                            key: bj.key.clone(),
                            name: bj.name.clone(),
                            path: bj.path.clone(),
                            is_dir: bj.is_dir,
                            size: bj.size,
                            ext: bj.ext.clone(),
                            count: bj.count,
                        }
                    },
                    None => {
                        let path = path_join_exec(root, joined.as_slice());
                        TreeBucket {
                            key: string_of(key.as_slice()),
                            name: string_of(p[n].as_slice()),
                            path: string_of(path.as_slice()),
                            is_dir: true,
                            size: 0,
                            ext: String::new(),
                            count: 0,
                        }
                    },
                };
                assert(views(p@)[n as int] == p@[n as int]@);
                let ghost bview = tree_view(base);
                let updated = TreeBucket {
                    key: base.key,
                    name: base.name,
                    path: base.path,
                    is_dir: base.is_dir,
                    size: base.size + file.size,
                    ext: base.ext,
                    count: base.count + 1,
                };
                assert(tree_view(updated) == (TreeEntry { size: bview.size + file.size, count: bview.count + 1, ..bview }));
                put_tree_bucket(&mut buckets, at, updated);
            }
        }
        i += 1;
    }
    assert(files@.take(files@.len() as int) =~= files@);
    buckets
}

fn copy_tree_bucket(b: &TreeBucket) -> (r: TreeBucket)
    ensures
        tree_view(r) == tree_view(*b),
{
    TreeBucket {
        key: b.key.clone(),
        name: b.name.clone(),
        path: b.path.clone(),
        is_dir: b.is_dir,
        size: b.size,
        ext: b.ext.clone(),
        count: b.count,
    }
}

/// Whether node `a` may stand in front of node `b`.
fn tree_before(a: &TreeBucket, b: &TreeBucket) -> (r: bool)
    ensures
        r == tree_first()(tree_view(*a), tree_view(*b)),
{
    if a.is_dir != b.is_dir {
        a.is_dir
    } else if a.size != b.size {
        a.size > b.size
    } else {
        text_order_exec(chars_of(a.name.as_str()).as_slice(), chars_of(b.name.as_str()).as_slice()) <= 0
    }
}

fn sort_tree(v: &Vec<TreeBucket>) -> (r: Vec<TreeBucket>)
    ensures
        tree_views(r@) == stable_sort(tree_views(v@), tree_first()),
{
    let ghost sv = tree_views(v@);
    let mut out: Vec<TreeBucket> = Vec::new();
    let mut i: usize = 0;
    while i < v.len()
        invariant
            i <= v@.len(),
            sv == tree_views(v@),
            tree_views(out@) == stable_sort(sv.take(i as int), tree_first()),
        decreases v@.len() - i,
    {
        let x = copy_tree_bucket(&v[i]);
        let ghost ov = tree_views(out@);
        let mut j: usize = out.len();
        assert(ov.take(j as int) =~= ov);
        while j > 0 && !tree_before(&out[j - 1], &x)
            invariant
                j <= out@.len(),
                ov == tree_views(out@),
                slot(ov, tree_view(x), tree_first()) == slot(ov.take(j as int), tree_view(x), tree_first()),
            decreases j,
        {
            assert(ov.take(j as int).drop_last() =~= ov.take(j - 1));
            assert(ov.take(j as int).last() == tree_view(out@[j - 1]));
            j -= 1;
        }
        proof {
            if j > 0 {
                assert(ov.take(j as int).last() == tree_view(out@[j - 1]));
            }
        }
        assert(ov.take(j as int).len() == j);
        assert(sv.take(i + 1).drop_last() =~= sv.take(i as int));
        assert(sv.take(i + 1).last() == tree_view(x));
        let ghost xv = tree_view(x);
        out.insert(j, x);
        assert(tree_views(out@) =~= ov.insert(j as int, xv));
        i += 1;
    }
    assert(sv.take(sv.len() as int) =~= sv);
    out
}

fn copy_parts(v: &Vec<Vec<char>>) -> (r: Vec<Vec<char>>)
    ensures
        views(r@) == views(v@),
{
    let r = first_parts(v, v.len());
    assert(views(v@).take(v@.len() as int) =~= views(v@));
    r
}

fn build_rows(
    files: &[FileRecord],
    parts: &Vec<Vec<Vec<char>>>,
    root: &str,
    prefix: &Vec<Vec<char>>,
    fuel: usize,
) -> (r: Vec<FileTreeNode>)
    requires
        parts_match(parts@, files@, root@),
        sizes_sum(files@) <= u64::MAX,
        fuel + prefix@.len() == max_parts(files@, root@),
    ensures
        tree_rows_match(r@, files@, root@, views(prefix@), fuel as nat),
        node_total(r@) == tree_count(files@, root@, views(prefix@), fuel as nat),
    decreases fuel,
{
    let ghost pre = views(prefix@);
    let buckets = gather_tree(files, parts, root, prefix);
    let sorted = sort_tree(&buckets);
    let ghost entries = tree_entries(files@, root@, pre);
    let ghost expected = tree_views(sorted@);
    proof {
        lemma_tree_entries_bounded(files@, root@, pre);
        lemma_stable_sort_len(entries, tree_first());
        assert forall|k: int| 0 <= k < expected.len() && (#[trigger] expected[k]).is_dir implies fuel >= 2 by {
            lemma_stable_sort_member(entries, tree_first(), k);
            let j = choose|j: int| 0 <= j < entries.len() && entries[j] == expected[k];
            assert(0 <= entries[j].count);
            assert(entries[j].is_dir ==> max_parts(files@, root@) >= pre.len() + 2);
        }
    }
    let mut rows: Vec<FileTreeNode> = Vec::new();
    let mut i: usize = 0;
    while i < sorted.len()
        invariant
            i <= sorted@.len(),
            parts_match(parts@, files@, root@),
            sizes_sum(files@) <= u64::MAX,
            fuel + prefix@.len() == max_parts(files@, root@),
            pre == views(prefix@),
            expected == tree_views(sorted@),
            expected == stable_sort(tree_entries(files@, root@, pre), tree_first()),
            forall|k: int| 0 <= k < expected.len() && (#[trigger] expected[k]).is_dir ==> fuel >= 2,
            rows@.len() == i,
            forall|k: int| 0 <= k < i ==> #[trigger] node_shows(rows@[k], expected[k]),
            forall|k: int|
                0 <= k < i ==> if (#[trigger] expected[k]).is_dir {
                    &&& fuel > 0
                    &&& if tree_entries(files@, root@, pre.push(expected[k].name)).len() == 0 {
                        rows@[k].children is None
                    } else {
                        &&& rows@[k].children is Some
                        &&& tree_rows_match(rows@[k].children->0@, files@, root@, pre.push(expected[k].name), (fuel - 1) as nat)
                    }
                } else {
                    rows@[k].children is None
                },
            node_total(rows@) == entries_count(expected.take(i as int), files@, root@, pre, fuel as nat),
        decreases sorted@.len() - i,
    {
        let b = &sorted[i];
        let ghost e = expected[i as int];
        assert(e == tree_view(*b));
        let children: Option<Vec<FileTreeNode>> = if b.is_dir {
            let mut sub = copy_parts(prefix);
            sub.push(chars_of(b.name.as_str()));
            assert(views(sub@) =~= pre.push(e.name));
            let c = build_rows(files, parts, root, &sub, fuel - 1);
            proof {
                lemma_stable_sort_len(tree_entries(files@, root@, pre.push(e.name)), tree_first());
            }
            if c.len() == 0 {
                None
            } else {
                Some(c)
            }
        } else {
            None
        };
        let node = FileTreeNode {
            key: b.key.clone(),
            name: b.name.clone(),
            path: b.path.clone(),
            kind: owned(if b.is_dir { "directory" } else { "file" }),
            size: b.size,
            extension: b.ext.clone(),
            file_count: b.count,
            children,
        };
        let ghost before = rows@;
        rows.push(node);
        proof {
            assert(rows@.drop_last() =~= before);
            assert(expected.take(i + 1).drop_last() =~= expected.take(i as int));
            assert(expected.take(i + 1).last() == e);
            assert(node_shows(rows@[i as int], expected[i as int]));
        }
        i += 1;
    }
    assert(expected.take(expected.len() as int) =~= expected);
    rows
}

fn max_parts_exec(files: &[FileRecord], parts: &Vec<Vec<Vec<char>>>, root: &str) -> (r: usize)
    requires
        parts_match(parts@, files@, root@),
    ensures
        r == max_parts(files@, root@),
{
    let mut m: usize = 0;
    let mut i: usize = 0;
    while i < files.len()
        invariant
            i <= files@.len(),
            parts_match(parts@, files@, root@),
            m == max_parts(files@.take(i as int), root@),
        decreases files@.len() - i,
    {
        assert(files@.take(i + 1).drop_last() =~= files@.take(i as int));
        assert(views(parts@[i as int]@) == relative_names(files@[i as int].path@, root@));
        if parts[i].len() > m {
            m = parts[i].len();
        }
        i += 1;
    }
    assert(files@.take(files@.len() as int) =~= files@);
    m
}

/// `build_file_tree_rows`: the tree of the files below the root, each
/// directory with its total size and number of files.
pub fn build_file_tree_rows(root: &str, files: &[FileRecord]) -> (r: Vec<FileTreeNode>)
    requires
        sizes_sum(files@) <= u64::MAX,
    ensures
        tree_rows_match(r@, files@, root@, Seq::empty(), max_parts(files@, root@) as nat),
        node_total(r@) == tree_count(files@, root@, Seq::empty(), max_parts(files@, root@) as nat),
{
    let mut parts: Vec<Vec<Vec<char>>> = Vec::new();
    let mut i: usize = 0;
    while i < files.len()
        invariant
            i <= files@.len(),
            parts@.len() == i,
            forall|k: int| 0 <= k < i ==> views(#[trigger] parts@[k]@) == relative_names(files@[k].path@, root@),
        decreases files@.len() - i,
    {
        parts.push(relative_chars(files[i].path.as_str(), root));
        i += 1;
    }
    let fuel = max_parts_exec(files, &parts, root);
    let prefix: Vec<Vec<char>> = Vec::new();
    assert(views(prefix@) =~= Seq::<Seq<char>>::empty());
    build_rows(files, &parts, root, &prefix, fuel)
}

/// What a query of the file tree returns.
#[derive(Debug)]
pub struct FileTreeQueryResult {
    pub matched_count: usize,
    pub node_count: usize,
    pub truncated: bool,
    pub rows: Vec<FileTreeNode>,
}

/// Whether a file matches a query (already trimmed and lower-cased) and a
/// category: an empty query matches every file, else the query must occur
/// in the lower-cased path or extension.
pub open spec fn query_matches(f: FileRecord, q: Seq<char>, category: Seq<char>) -> bool {
    (q.len() == 0 || contains(lower(f.path@), q) || contains(record_ext(f), q)) && category_matches(f, category)
}

/// The files that match a query and a category, in scan order.
pub open spec fn matched_files(files: Seq<FileRecord>, query: Seq<char>, category: Seq<char>) -> Seq<FileRecord> {
    files.filter(|f: FileRecord| query_matches(f, lower(trim(query)), category))
}

/// The matching files the tree shows: by path, at most `limit` of them.
pub open spec fn shown_files(files: Seq<FileRecord>, query: Seq<char>, category: Seq<char>, limit: usize) -> Seq<FileRecord> {
    at_most(stable_sort(matched_files(files, query, category), path_first()), limit as int)
}

/// `build_file_tree_query_result`: the files of a report that match a
/// query and a category, as a tree below the report's root, with how many
/// matched and whether the tree holds only the first `limit` of them.
pub fn build_file_tree_query_result(report: &ScanReport, query: &str, category: &str, limit: usize) -> (r: FileTreeQueryResult)
    requires
        sizes_sum(shown_files(report.scanned_files@, query@, category@, limit)) <= u64::MAX,
        tree_count(
            shown_files(report.scanned_files@, query@, category@, limit),
            report.root@,
            Seq::empty(),
            max_parts(shown_files(report.scanned_files@, query@, category@, limit), report.root@) as nat,
        ) <= usize::MAX,
    ensures
        r.matched_count == matched_files(report.scanned_files@, query@, category@).len(),
        r.truncated == (matched_files(report.scanned_files@, query@, category@).len() > limit),
        tree_rows_match(
            r.rows@,
            shown_files(report.scanned_files@, query@, category@, limit),
            report.root@,
            Seq::empty(),
            max_parts(shown_files(report.scanned_files@, query@, category@, limit), report.root@) as nat,
        ),
        r.node_count == node_total(r.rows@),
{
    let q = to_lower(trim_str(query).as_slice());
    let ghost files = report.scanned_files@;
    let ghost pred = |f: FileRecord| query_matches(f, lower(trim(query@)), category@);
    let mut matched: Vec<FileRecord> = Vec::new();
    let mut i: usize = 0;
    while i < report.scanned_files.len()
        invariant
            i <= files.len(),
            files == report.scanned_files@,
            q@ == lower(trim(query@)),
            pred == (|f: FileRecord| query_matches(f, lower(trim(query@)), category@)),
            matched@ == files.take(i as int).filter(pred),
        decreases files.len() - i,
    {
        let file = &report.scanned_files[i];
        proof {
            reveal(Seq::filter);
            assert(files.take(i + 1).drop_last() =~= files.take(i as int));
            assert(files.take(i + 1).last() == *file);
        }
        let full = to_lower(chars_of(file.path.as_str()).as_slice());
        let ext: Vec<char> = match &file.extension {
            Some(e) => to_lower(chars_of(e.as_str()).as_slice()),
            None => Vec::new(),
        };
        let hit = (q.len() == 0 || contains_chars(full.as_slice(), q.as_slice()) || contains_chars(ext.as_slice(), q.as_slice()))
            && matches_file_category(file, category);
        if hit {
            matched.push(crate::analyzer::copy_record(file));
        }
        i += 1;
    }
    assert(files.take(files.len() as int) =~= files);
    let matched_count = matched.len();
    let mut sorted = sort_by_path(&matched);
    let truncated = matched_count > limit;
    if truncated {
        sorted.truncate(limit);
    }
    proof {
        crate::sorting::lemma_stable_sort_len(matched@, path_first());
    }
    assert(sorted@ =~= shown_files(report.scanned_files@, query@, category@, limit));
    let rows = build_file_tree_rows(report.root.as_str(), sorted.as_slice());
    let node_count = count_nodes(rows.as_slice());
    FileTreeQueryResult { matched_count, node_count, truncated, rows }
}

} // verus!
