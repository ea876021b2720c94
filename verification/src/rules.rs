//! File classification rules: archives and installers, documents, project
//! files, temporary files and transient locations.

use vstd::prelude::*;
use crate::models::FileRecord;
use crate::paths::{extension, extension_of, file_name, file_name_of, lower_extension, names, names_of};
use crate::text::{lower, to_lower, chars_of};

verus! {

/// `s` is one of the texts of `list`.
pub open spec fn listed(s: Seq<char>, list: Seq<&str>) -> bool {
    exists|i: int| 0 <= i < list.len() && s == list[i]@
}

pub fn in_list(s: &[char], list: &[&str]) -> (r: bool)
    ensures
        r == listed(s@, list@),
{
    let mut i: usize = 0;
    while i < list.len()
        invariant
            i <= list@.len(),
            forall|j: int| 0 <= j < i ==> s@ != list@[j]@,
        decreases list@.len() - i,
    {
        if crate::text::eq_lit(s, list[i]) {
            return true;
        }
        i += 1;
    }
    false
}

/// Archive and installer extensions of the cleanup advisor.
pub open spec fn advisor_archive_extensions() -> Seq<&'static str> {
    seq!["zip", "7z", "rar", "iso", "exe", "msi", "dmg"]
}

/// Archive and installer extensions of the analyzer.
pub open spec fn analyzer_archive_extensions() -> Seq<&'static str> {
    seq!["zip", "7z", "rar", "tar", "gz", "bz2", "xz", "iso", "msi", "exe"]
}

pub open spec fn document_extensions() -> Seq<&'static str> {
    seq!["pdf", "ppt", "pptx", "doc", "docx", "xls", "xlsx", "wps", "md"]
}

/// Directory names of version control, dependencies and build output.
pub open spec fn project_directories() -> Seq<&'static str> {
    seq![".git", ".svn", ".hg", "node_modules", "target", "vendor", "build", "dist", ".next"]
}

/// File names of project metadata.
pub open spec fn project_file_names() -> Seq<&'static str> {
    seq![
        "readme",
        "readme.md",
        "license",
        "license.md",
        "copying",
        "dockerfile",
        "makefile",
        "cmakelists.txt",
        ".gitignore",
        ".gitattributes",
        ".editorconfig",
        ".env",
        "agents.md",
    ]
}

/// Extensions of source code, configuration and notes.
pub open spec fn project_extensions() -> Seq<&'static str> {
    seq![
        "rs", "toml", "md", "txt", "json", "yaml", "yml", "ini", "cfg", "conf", "env", "xml", "js",
        "jsx", "ts", "tsx", "vue", "java", "kt", "py", "go", "rb", "php", "c", "cc", "cpp", "h",
        "hpp", "cs", "swift", "scala", "sql", "html", "css", "scss", "less", "sh", "bash", "zsh",
        "ps1", "bat", "cmd", "sample",
    ]
}

/// Directory names of downloads, temporary data, caches and exports.
pub open spec fn transient_directories() -> Seq<&'static str> {
    seq!["downloads", "download", "temp", "tmp", "cache", "caches", "export", "exports", "exported"]
}

/// Extensions of temporary files.
pub open spec fn temporary_extensions() -> Seq<&'static str> {
    seq!["tmp", "temp", "cache", "bak", "old", "dmp", "crdownload", "part", "download"]
}

/// Directory names of temporary data.
pub open spec fn temporary_directories() -> Seq<&'static str> {
    seq!["temp", "tmp", "cache", "caches"]
}

/// The lower-cased extension recorded for a file.
pub open spec fn record_extension(f: FileRecord) -> Option<Seq<char>> {
    match f.extension {
        Some(e) => Some(lower(e@)),
        None => None,
    }
}

/// Some named component of the path, lower-cased, is in `list`.
pub open spec fn has_listed_name(p: Seq<char>, list: Seq<&str>) -> bool {
    exists|k: int| 0 <= k < names(p).len() && listed(lower(names(p)[k]), list)
}

/// Whether the lower-cased extension of the path is in `list`.
pub open spec fn path_extension_listed(p: Seq<char>, list: Seq<&str>) -> bool {
    match lower_extension(p) {
        Some(e) => listed(e, list),
        None => false,
    }
}

/// Whether the lower-cased recorded extension is in `list`.
pub open spec fn record_extension_listed(f: FileRecord, list: Seq<&str>) -> bool {
    match record_extension(f) {
        Some(e) => listed(e, list),
        None => false,
    }
}

pub fn lower_extension_of(p: &str) -> (r: Option<Vec<char>>)
    ensures
        match r {
            Some(e) => lower_extension(p@) == Some(e@),
            None => lower_extension(p@) is None,
        },
{
    match extension_of(p) {
        Some(e) => Some(to_lower(e.as_slice())),
        None => None,
    }
}

pub fn path_extension_in(p: &str, list: &[&str]) -> (r: bool)
    ensures
        r == path_extension_listed(p@, list@),
{
    match lower_extension_of(p) {
        Some(e) => in_list(e.as_slice(), list),
        None => false,
    }
}

pub fn record_extension_in(f: &FileRecord, list: &[&str]) -> (r: bool)
    ensures
        r == record_extension_listed(*f, list@),
{
    match &f.extension {
        Some(e) => {
            let v = chars_of(e.as_str());
            let l = to_lower(v.as_slice());
            in_list(l.as_slice(), list)
        },
        None => false,
    }
}

pub fn has_listed_name_exec(p: &str, list: &[&str]) -> (r: bool)
    ensures
        r == has_listed_name(p@, list@),
{
    let n = names_of(p);
    let mut k: usize = 0;
    while k < n.len()
        invariant
            k <= n@.len(),
            crate::text::views(n@) == names(p@),
            forall|j: int| 0 <= j < k ==> !listed(lower(names(p@)[j]), list@),
        decreases n@.len() - k,
    {
        assert(n@[k as int]@ == names(p@)[k as int]);
        let l = to_lower(n[k].as_slice());
        if in_list(l.as_slice(), list) {
            return true;
        }
        k += 1;
    }
    false
}

/// Whether the cleanup advisor takes a path for an archive or an
/// installer, by its extension.
pub fn advisor_looks_archive_or_installer(path: &str) -> (r: bool)
    ensures
        r == path_extension_listed(path@, advisor_archive_extensions()),
{
    let list: [&str; 7] = ["zip", "7z", "rar", "iso", "exe", "msi", "dmg"];
    assert(list@ =~= advisor_archive_extensions());
    path_extension_in(path, &list)
}

/// The lower-cased file name is in `list`.
pub open spec fn file_name_listed(p: Seq<char>, list: Seq<&str>) -> bool {
    match file_name(p) {
        Some(n) => listed(lower(n), list),
        None => listed(Seq::empty(), list),
    }
}

pub fn file_name_in(p: &str, list: &[&str]) -> (r: bool)
    ensures
        r == file_name_listed(p@, list@),
{
    match file_name_of(p) {
        Some(n) => {
            let l = to_lower(n.as_slice());
            in_list(l.as_slice(), list)
        },
        None => {
            let e: Vec<char> = Vec::new();
            assert(e@ =~= Seq::<char>::empty());
            in_list(e.as_slice(), list)
        },
    }
}

pub open spec fn document_like(f: FileRecord) -> bool {
    record_extension_listed(f, document_extensions())
}

pub open spec fn project_sensitive(f: FileRecord) -> bool {
    ||| has_listed_name(f.path@, project_directories())
    ||| file_name_listed(f.path@, project_file_names())
    ||| record_extension_listed(f, project_extensions())
}

pub open spec fn in_transient_location(f: FileRecord) -> bool {
    has_listed_name(f.path@, transient_directories())
}

pub open spec fn archive_or_installer_file(f: FileRecord) -> bool {
    path_extension_listed(f.path@, advisor_archive_extensions())
}

/// The lower-cased file name, or the empty text when there is none.
pub open spec fn lower_file_name(p: Seq<char>) -> Seq<char> {
    match file_name(p) {
        Some(n) => lower(n),
        None => Seq::empty(),
    }
}

/// Temporary files: a temporary extension, a name ending in `.tmp`,
/// `.temp`, `.cache` or `.bak`, or a temporary directory on the path.
pub open spec fn temporary_file(f: FileRecord) -> bool {
    let n = lower_file_name(f.path@);
    ||| record_extension_listed(f, temporary_extensions())
    ||| crate::text::ends_with(n, ".tmp"@)
    ||| crate::text::ends_with(n, ".temp"@)
    ||| crate::text::ends_with(n, ".cache"@)
    ||| crate::text::ends_with(n, ".bak"@)
    ||| has_listed_name(f.path@, temporary_directories())
}

pub fn is_document_like(file: &FileRecord) -> (r: bool)
    ensures
        r == document_like(*file),
{
    let list: [&str; 9] = ["pdf", "ppt", "pptx", "doc", "docx", "xls", "xlsx", "wps", "md"];
    assert(list@ =~= document_extensions());
    record_extension_in(file, &list)
}

pub fn is_project_sensitive_duplicate(file: &FileRecord) -> (r: bool)
    ensures
        r == project_sensitive(*file),
{
    let dirs: [&str; 9] = [
        ".git",
        ".svn",
        ".hg",
        "node_modules",
        "target",
        "vendor",
        "build",
        "dist",
        ".next",
    ];
    assert(dirs@ =~= project_directories());
    if has_listed_name_exec(file.path.as_str(), &dirs) {
        return true;
    }
    let names: [&str; 13] = [
        "readme",
        "readme.md",
        "license",
        "license.md",
        "copying",
        "dockerfile",
        "makefile",
        "cmakelists.txt",
        ".gitignore",
        ".gitattributes",
        ".editorconfig",
        ".env",
        "agents.md",
    ];
    assert(names@ =~= project_file_names());
    if file_name_in(file.path.as_str(), &names) {
        return true;
    }
    let exts: [&str; 43] = [
        "rs", "toml", "md", "txt", "json", "yaml", "yml", "ini", "cfg", "conf", "env", "xml", "js",
        "jsx", "ts", "tsx", "vue", "java", "kt", "py", "go", "rb", "php", "c", "cc", "cpp", "h",
        "hpp", "cs", "swift", "scala", "sql", "html", "css", "scss", "less", "sh", "bash", "zsh",
        "ps1", "bat", "cmd", "sample",
    ];
    assert(exts@ =~= project_extensions());
    record_extension_in(file, &exts)
}

pub fn is_in_transient_location(file: &FileRecord) -> (r: bool)
    ensures
        r == in_transient_location(*file),
{
    let dirs: [&str; 9] = [
        "downloads",
        "download",
        "temp",
        "tmp",
        "cache",
        "caches",
        "export",
        "exports",
        "exported",
    ];
    assert(dirs@ =~= transient_directories());
    has_listed_name_exec(file.path.as_str(), &dirs)
}

pub fn is_archive_or_installer_file(file: &FileRecord) -> (r: bool)
    ensures
        r == archive_or_installer_file(*file),
{
    advisor_looks_archive_or_installer(file.path.as_str())
}

/// Whether the analyzer takes a path for an archive or an installer, by
/// its extension.
pub fn analyzer_looks_archive_or_installer(path: &str) -> (r: bool)
    ensures
        r == path_extension_listed(path@, analyzer_archive_extensions()),
{
    let list: [&str; 10] = ["zip", "7z", "rar", "tar", "gz", "bz2", "xz", "iso", "msi", "exe"];
    assert(list@ =~= analyzer_archive_extensions());
    path_extension_in(path, &list)
}

fn lower_file_name_of(p: &str) -> (r: Vec<char>)
    ensures
        r@ == lower_file_name(p@),
{
    match file_name_of(p) {
        Some(n) => to_lower(n.as_slice()),
        None => {
            let e: Vec<char> = Vec::new();
            assert(e@ =~= Seq::<char>::empty());
            e
        },
    }
}

pub fn is_temporary_file(file: &FileRecord) -> (r: bool)
    ensures
        r == temporary_file(*file),
{
    let exts: [&str; 9] = [
        "tmp",
        "temp",
        "cache",
        "bak",
        "old",
        "dmp",
        "crdownload",
        "part",
        "download",
    ];
    assert(exts@ =~= temporary_extensions());
    if record_extension_in(file, &exts) {
        return true;
    }
    let n = lower_file_name_of(file.path.as_str());
    if crate::text::ends_with_lit(n.as_slice(), ".tmp") || crate::text::ends_with_lit(
        n.as_slice(),
        ".temp",
    ) || crate::text::ends_with_lit(n.as_slice(), ".cache") || crate::text::ends_with_lit(
        n.as_slice(),
        ".bak",
    ) {
        return true;
    }
    let dirs: [&str; 4] = ["temp", "tmp", "cache", "caches"];
    assert(dirs@ =~= temporary_directories());
    has_listed_name_exec(file.path.as_str(), &dirs)
}

} // verus!
