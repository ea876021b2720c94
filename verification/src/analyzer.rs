//! Scan analysis: totals, empty, large, temporary and archive files, the
//! size per extension, the scan modules and the copy a duplicate group keeps.

use vstd::prelude::*;
use crate::models::{
    AnalysisResult, DedupResult, DuplicateGroup, FileRecord, ScanModuleKind, ScanModuleSummary,
    ScanResult, Timestamp, TypeStat,
};
use crate::order::path_order_exec;
use crate::order::{lemma_comps_order_eq, lemma_comps_order_trans};
use crate::paths::{components, names, path_order};
use crate::rules::{
    analyzer_archive_extensions, analyzer_looks_archive_or_installer, has_listed_name, is_temporary_file,
    listed, path_extension_listed, temporary_directories, temporary_file,
};
use crate::sorting::{
    lemma_stable_sort_keeps, lemma_stable_sort_ordered, ordered_by, slot, stable_sort, total_preorder,
};
use crate::text::{copy_strings, lower, owned};

verus! {

/// Options of the analysis.
#[derive(Clone, Copy, Debug)]
pub struct AnalyzerOptions {
    pub large_file_threshold_bytes: u64,
}

/// A copy of a file record, equal to it.
pub fn copy_record(f: &FileRecord) -> (r: FileRecord)
    ensures
        r == *f,
{
    let extension = match &f.extension {
        Some(e) => Some(e.clone()),
        None => None,
    };
    FileRecord {
        path: f.path.clone(),
        size: f.size,
        extension,
        modified_at: f.modified_at,
        is_empty: f.is_empty,
    }
}

/// Order of points in time: -1, 0 or 1.
pub open spec fn time_order(a: Timestamp, b: Timestamp) -> int {
    if a.secs < b.secs {
        -1
    } else if a.secs > b.secs {
        1
    } else if a.nanos < b.nanos {
        -1
    } else if a.nanos > b.nanos {
        1
    } else {
        0
    }
}

/// The comparison that picks the copy to keep: the later modification
/// time wins, a known time beats an unknown one, and between two unknown
/// times the greater path wins.
pub open spec fn keep_order(a: FileRecord, b: FileRecord) -> int {
    match (a.modified_at, b.modified_at) {
        (Some(x), Some(y)) => time_order(x, y),
        (Some(_), None) => 1,
        (None, Some(_)) => -1,
        (None, None) => path_order(a.path@, b.path@),
    }
}

/// `Iterator::max_by` with [`keep_order`]: the running pick is replaced by
/// each next file unless the pick is strictly greater.
pub open spec fn keep_pick(files: Seq<FileRecord>) -> FileRecord
    recommends
        files.len() > 0,
    decreases files.len(),
{
    if files.len() <= 1 {
        files[0]
    } else {
        let a = keep_pick(files.drop_last());
        if keep_order(a, files.last()) > 0 {
            a
        } else {
            files.last()
        }
    }
}

fn time_order_exec(a: Timestamp, b: Timestamp) -> (r: i8)
    ensures
        r == time_order(a, b),
{
    if a.secs < b.secs {
        -1
    } else if a.secs > b.secs {
        1
    } else if a.nanos < b.nanos {
        -1
    } else if a.nanos > b.nanos {
        1
    } else {
        0
    }
}

fn keep_order_exec(a: &FileRecord, b: &FileRecord) -> (r: i8)
    ensures
        r == keep_order(*a, *b),
{
    match (a.modified_at, b.modified_at) {
        (Some(x), Some(y)) => time_order_exec(x, y),
        (Some(_), None) => 1,
        (None, Some(_)) => -1,
        (None, None) => path_order_exec(a.path.as_str(), b.path.as_str()),
    }
}

/// `choose_keep_candidate`: the copy of a duplicate group to keep.
pub fn choose_keep_candidate(files: &[FileRecord]) -> (r: Option<FileRecord>)
    ensures
        files@.len() == 0 ==> r is None,
        files@.len() > 0 ==> r == Some(keep_pick(files@)),
{
    if files.len() == 0 {
        return None;
    }
    let mut best: usize = 0;
    let mut i: usize = 1;
    assert(files@.take(1).drop_last().len() == 0);
    while i < files.len()
        invariant
            1 <= i <= files@.len(),
            best < i,
            files@[best as int] == keep_pick(files@.take(i as int)),
        decreases files@.len() - i,
    {
        let ghost t1 = files@.take(i + 1);
        assert(t1.drop_last() =~= files@.take(i as int));
        assert(t1.last() == files@[i as int]);
        if keep_order_exec(&files[best], &files[i]) > 0 {
        } else {
            best = i;
        }
        i += 1;
    }
    assert(files@.take(files@.len() as int) =~= files@);
    Some(copy_record(&files[best]))
}


/// The sum of the sizes of the files.
pub open spec fn sizes_sum(files: Seq<FileRecord>) -> int
    decreases files.len(),
{
    if files.len() == 0 {
        0
    } else {
        sizes_sum(files.drop_last()) + files.last().size
    }
}

/// The empty files, in scan order.
pub open spec fn empties(files: Seq<FileRecord>) -> Seq<FileRecord> {
    files.filter(|f: FileRecord| f.is_empty)
}

/// The files of at least `threshold` bytes, in scan order.
pub open spec fn larges(files: Seq<FileRecord>, threshold: u64) -> Seq<FileRecord> {
    files.filter(|f: FileRecord| f.size >= threshold)
}

/// The temporary files, in scan order.
pub open spec fn temporaries(files: Seq<FileRecord>) -> Seq<FileRecord> {
    files.filter(|f: FileRecord| temporary_file(f))
}

/// The archives and installers, in scan order.
pub open spec fn archives(files: Seq<FileRecord>) -> Seq<FileRecord> {
    files.filter(|f: FileRecord| path_extension_listed(f.path@, analyzer_archive_extensions()))
}

/// Larger files first.
pub open spec fn size_first() -> spec_fn(FileRecord, FileRecord) -> bool {
    |a: FileRecord, b: FileRecord| a.size >= b.size
}

/// Paths in ascending order.
pub open spec fn path_first() -> spec_fn(FileRecord, FileRecord) -> bool {
    |a: FileRecord, b: FileRecord| path_order(a.path@, b.path@) <= 0
}

/// A row of the size per extension: the extension, the number of files
/// and their total size.
pub open spec fn stat_view(t: TypeStat) -> (Seq<char>, int, int) {
    (t.extension@, t.file_count as int, t.total_size as int)
}

pub open spec fn stat_views(s: Seq<TypeStat>) -> Seq<(Seq<char>, int, int)> {
    s.map_values(|t: TypeStat| stat_view(t))
}

/// Larger totals first.
pub open spec fn total_first() -> spec_fn((Seq<char>, int, int), (Seq<char>, int, int)) -> bool {
    |a: (Seq<char>, int, int), b: (Seq<char>, int, int)| a.2 >= b.2
}

/// The key a file is counted under: its extension, or `no_extension`.
pub open spec fn type_key(f: FileRecord) -> Seq<char> {
    match f.extension {
        Some(e) => e@,
        None => "no_extension"@,
    }
}

/// The last row of `t` with key `k`, or -1.
pub open spec fn key_slot(t: Seq<(Seq<char>, int, int)>, k: Seq<char>) -> int
    decreases t.len(),
{
    if t.len() == 0 {
        -1
    } else if t.last().0 == k {
        t.len() - 1
    } else {
        key_slot(t.drop_last(), k)
    }
}

/// Counts one more file into the rows.
pub open spec fn table_step(t: Seq<(Seq<char>, int, int)>, f: FileRecord) -> Seq<(Seq<char>, int, int)> {
    let k = type_key(f);
    let j = key_slot(t, k);
    if j < 0 {
        t.push((k, 1, f.size as int))
    } else {
        t.update(j, (k, t[j].1 + 1, t[j].2 + f.size))
    }
}

/// The rows of the size per extension, in the order the extensions first
/// occur.
pub open spec fn type_table(files: Seq<FileRecord>) -> Seq<(Seq<char>, int, int)>
    decreases files.len(),
{
    if files.len() == 0 {
        Seq::empty()
    } else {
        table_step(type_table(files.drop_last()), files.last())
    }
}

pub proof fn lemma_sizes_sum_prefix(files: Seq<FileRecord>, i: int)
    requires
        0 <= i <= files.len(),
    ensures
        0 <= sizes_sum(files.take(i)) <= sizes_sum(files),
    decreases files.len(),
{
    if files.len() > 0 {
        if i == files.len() {
            assert(files.take(i) =~= files);
            lemma_sizes_sum_prefix(files.drop_last(), i - 1);
            assert(files.drop_last().take(i - 1) =~= files.drop_last());
        } else {
            lemma_sizes_sum_prefix(files.drop_last(), i);
            assert(files.drop_last().take(i) =~= files.take(i));
        }
    }
}

proof fn lemma_key_slot_bounds(t: Seq<(Seq<char>, int, int)>, k: Seq<char>)
    ensures
        -1 <= key_slot(t, k) < t.len(),
        key_slot(t, k) >= 0 ==> t[key_slot(t, k)].0 == k,
    decreases t.len(),
{
    if t.len() > 0 && t.last().0 != k {
        lemma_key_slot_bounds(t.drop_last(), k);
    }
}

/// Each row counts at most all files and at most all bytes.
proof fn lemma_type_table_bounds(files: Seq<FileRecord>)
    ensures
        forall|j: int| 0 <= j < type_table(files).len() ==> {
            &&& 0 <= #[trigger] type_table(files)[j].1 <= files.len()
            &&& 0 <= type_table(files)[j].2 <= sizes_sum(files)
        },
    decreases files.len(),
{
    if files.len() > 0 {
        let prev = files.drop_last();
        lemma_type_table_bounds(prev);
        lemma_sizes_sum_prefix(files, files.len() - 1);
        assert(files.take(files.len() - 1) =~= prev);
        lemma_key_slot_bounds(type_table(prev), type_key(files.last()));
    }
}

/// A copy of a type row, equal to it.
fn copy_stat(t: &TypeStat) -> (r: TypeStat)
    ensures
        r == *t,
{
    TypeStat { extension: t.extension.clone(), file_count: t.file_count, total_size: t.total_size }
}

/// Counts one file into the rows of the size per extension.
fn count_type(table: &mut Vec<TypeStat>, file: &FileRecord)
    requires
        forall|k: int|
            0 <= k < old(table)@.len() ==> #[trigger] old(table)@[k].file_count < usize::MAX
                && old(table)@[k].total_size + file.size <= u64::MAX,
    ensures
        stat_views(final(table)@) == table_step(stat_views(old(table)@), *file),
{
    let key: String = match &file.extension {
        Some(e) => e.clone(),
        None => owned("no_extension"),
    };
    let ghost t0 = stat_views(table@);
    let mut j: usize = table.len();
    assert(t0.take(j as int) =~= t0);
    while j > 0 && table[j - 1].extension != key
        invariant
            j <= table@.len(),
            t0 == stat_views(table@),
            key_slot(t0, key@) == key_slot(t0.take(j as int), key@),
        decreases j,
    {
        assert(t0.take(j as int).drop_last() =~= t0.take(j - 1));
        j -= 1;
    }
    if j == 0 {
        proof {
            assert(t0.take(0).len() == 0);
        }
        table.push(TypeStat { extension: key, file_count: 1, total_size: file.size });
        assert(stat_views(table@) =~= t0.push((key@, 1, file.size as int)));
    } else {
        assert(t0.take(j as int).last() == t0[j - 1]);
        let count = table[j - 1].file_count + 1;
        let total = table[j - 1].total_size + file.size;
        table.set(j - 1, TypeStat { extension: key, file_count: count, total_size: total });
        assert(stat_views(table@) =~= t0.update(j - 1, (key@, t0[j - 1].1 + 1, t0[j - 1].2 + file.size)));
    }
}

/// Stable sort of files, larger first.
pub(crate) fn sort_by_size(v: &Vec<FileRecord>) -> (r: Vec<FileRecord>)
    ensures
        r@ == stable_sort(v@, size_first()),
{
    let mut out: Vec<FileRecord> = Vec::new();
    let mut i: usize = 0;
    while i < v.len()
        invariant
            i <= v@.len(),
            out@ == stable_sort(v@.take(i as int), size_first()),
        decreases v@.len() - i,
    {
        let x = copy_record(&v[i]);
        let mut j: usize = out.len();
        assert(out@.take(j as int) =~= out@);
        while j > 0 && out[j - 1].size < x.size
            invariant
                j <= out@.len(),
                slot(out@, x, size_first()) == slot(out@.take(j as int), x, size_first()),
            decreases j,
        {
            assert(out@.take(j as int).drop_last() =~= out@.take(j - 1));
            j -= 1;
        }
        assert(out@.take(j as int).len() == j);
        assert(v@.take(i + 1).drop_last() =~= v@.take(i as int));
        out.insert(j, x);
        i += 1;
    }
    assert(v@.take(v@.len() as int) =~= v@);
    out
}

/// Stable sort of files by path, ascending.
pub(crate) fn sort_by_path(v: &Vec<FileRecord>) -> (r: Vec<FileRecord>)
    ensures
        r@ == stable_sort(v@, path_first()),
{
    let mut out: Vec<FileRecord> = Vec::new();
    let mut i: usize = 0;
    while i < v.len()
        invariant
            i <= v@.len(),
            out@ == stable_sort(v@.take(i as int), path_first()),
        decreases v@.len() - i,
    {
        let x = copy_record(&v[i]);
        let mut j: usize = out.len();
        assert(out@.take(j as int) =~= out@);
        while j > 0 && path_order_exec(out[j - 1].path.as_str(), x.path.as_str()) > 0
            invariant
                j <= out@.len(),
                slot(out@, x, path_first()) == slot(out@.take(j as int), x, path_first()),
            decreases j,
        {
            assert(out@.take(j as int).drop_last() =~= out@.take(j - 1));
            j -= 1;
        }
        assert(out@.take(j as int).len() == j);
        assert(v@.take(i + 1).drop_last() =~= v@.take(i as int));
        out.insert(j, x);
        i += 1;
    }
    assert(v@.take(v@.len() as int) =~= v@);
    out
}

/// Stable sort of the type rows, larger totals first.
fn sort_by_total(v: &Vec<TypeStat>) -> (r: Vec<TypeStat>)
    ensures
        stat_views(r@) == stable_sort(stat_views(v@), total_first()),
{
    let ghost sv = stat_views(v@);
    let mut out: Vec<TypeStat> = Vec::new();
    let mut i: usize = 0;
    while i < v.len()
        invariant
            i <= v@.len(),
            sv == stat_views(v@),
            stat_views(out@) == stable_sort(sv.take(i as int), total_first()),
        decreases v@.len() - i,
    {
        let x = copy_stat(&v[i]);
        let ghost xv = stat_view(x);
        let ghost ov = stat_views(out@);
        let mut j: usize = out.len();
        assert(ov.take(j as int) =~= ov);
        while j > 0 && out[j - 1].total_size < x.total_size
            invariant
                j <= out@.len(),
                ov == stat_views(out@),
                xv == stat_view(x),
                slot(ov, xv, total_first()) == slot(ov.take(j as int), xv, total_first()),
            decreases j,
        {
            assert(ov.take(j as int).drop_last() =~= ov.take(j - 1));
            assert(ov.take(j as int).last() == stat_view(out@[j - 1]));
            j -= 1;
        }
        proof {
            if j > 0 {
                assert(ov.take(j as int).last() == stat_view(out@[j - 1]));
            }
        }
        assert(ov.take(j as int).len() == j);
        assert(sv.take(i + 1).drop_last() =~= sv.take(i as int));
        assert(sv.take(i + 1).last() == xv);
        out.insert(j, x);
        assert(stat_views(out@) =~= ov.insert(j as int, xv));
        i += 1;
    }
    assert(sv.take(sv.len() as int) =~= sv);
    out
}

/// `analyze`: totals of a scan, its empty, large, temporary and archive
/// files, and the size per extension.
///
/// The empty files come by path; the large, temporary and archive files
/// largest first; the extensions by total size, largest first. Equal keys
/// keep the scan order (the extensions: the order in which each first
/// occurs).
pub fn analyze(scan: &ScanResult, options: AnalyzerOptions) -> (r: AnalysisResult)
    requires
        sizes_sum(scan.files@) <= u64::MAX,
    ensures
        r.total_files == scan.files@.len(),
        r.total_size == sizes_sum(scan.files@),
        r.empty_files@ == stable_sort(empties(scan.files@), path_first()),
        r.empty_dirs@ == scan.empty_dirs@,
        r.large_files@ == stable_sort(larges(scan.files@, options.large_file_threshold_bytes), size_first()),
        r.temporary_files@ == stable_sort(temporaries(scan.files@), size_first()),
        r.archive_files@ == stable_sort(archives(scan.files@), size_first()),
        stat_views(r.type_breakdown@) == stable_sort(type_table(scan.files@), total_first()),
{
    let ghost files = scan.files@;
    let threshold = options.large_file_threshold_bytes;
    let mut total_size: u64 = 0;
    let mut empty_files: Vec<FileRecord> = Vec::new();
    let mut large_files: Vec<FileRecord> = Vec::new();
    let mut temporary_files: Vec<FileRecord> = Vec::new();
    let mut archive_files: Vec<FileRecord> = Vec::new();
    let mut table: Vec<TypeStat> = Vec::new();
    let mut i: usize = 0;
    while i < scan.files.len()
        invariant
            i <= files.len(),
            files == scan.files@,
            sizes_sum(files) <= u64::MAX,
            total_size == sizes_sum(files.take(i as int)),
            empty_files@ == empties(files.take(i as int)),
            large_files@ == larges(files.take(i as int), threshold),
            temporary_files@ == temporaries(files.take(i as int)),
            archive_files@ == archives(files.take(i as int)),
            stat_views(table@) == type_table(files.take(i as int)),
        decreases files.len() - i,
    {
        let file = &scan.files[i];
        let ghost prev = files.take(i as int);
        let ghost next = files.take(i + 1);
        assert(next.drop_last() =~= prev);
        assert(next.last() == *file);
        proof {
            reveal(Seq::filter);
            lemma_sizes_sum_prefix(files, i + 1);
            lemma_type_table_bounds(prev);
            assert forall|k: int| 0 <= k < table@.len() implies #[trigger] table@[k].file_count
                < usize::MAX && table@[k].total_size + file.size <= u64::MAX by {
                assert(stat_views(table@)[k] == stat_view(table@[k]));
                assert(type_table(prev)[k] == stat_view(table@[k]));
                assert(type_table(prev)[k].1 <= prev.len());
                assert(type_table(prev)[k].2 <= sizes_sum(prev));
                assert(sizes_sum(next) == sizes_sum(prev) + file.size);
            }
        }
        total_size = total_size + file.size;
        if file.is_empty {
            empty_files.push(copy_record(file));
        }
        if file.size >= threshold {
            large_files.push(copy_record(file));
        }
        if is_temporary_file(file) {
            temporary_files.push(copy_record(file));
        }
        if analyzer_looks_archive_or_installer(file.path.as_str()) {
            archive_files.push(copy_record(file));
        }
        count_type(&mut table, file);
        i += 1;
    }
    assert(files.take(files.len() as int) =~= files);
    AnalysisResult {
        total_files: scan.files.len(),
        total_size,
        empty_files: sort_by_path(&empty_files),
        empty_dirs: copy_strings(&scan.empty_dirs),
        large_files: sort_by_size(&large_files),
        temporary_files: sort_by_size(&temporary_files),
        archive_files: sort_by_size(&archive_files),
        type_breakdown: sort_by_total(&table),
    }
}

/// The sum of the total sizes of the duplicate groups.
pub open spec fn groups_sum(groups: Seq<DuplicateGroup>) -> int
    decreases groups.len(),
{
    if groups.len() == 0 {
        0
    } else {
        groups_sum(groups.drop_last()) + groups.last().total_size
    }
}

proof fn lemma_groups_sum_prefix(groups: Seq<DuplicateGroup>, i: int)
    requires
        0 <= i <= groups.len(),
    ensures
        0 <= groups_sum(groups.take(i)) <= groups_sum(groups),
    decreases groups.len(),
{
    if groups.len() > 0 {
        if i == groups.len() {
            assert(groups.take(i) =~= groups);
            lemma_groups_sum_prefix(groups.drop_last(), i - 1);
            assert(groups.drop_last().take(i - 1) =~= groups.drop_last());
        } else {
            lemma_groups_sum_prefix(groups.drop_last(), i);
            assert(groups.drop_last().take(i) =~= groups.take(i));
        }
    }
}

pub(crate) fn sum_sizes(files: &Vec<FileRecord>) -> (r: u64)
    requires
        sizes_sum(files@) <= u64::MAX,
    ensures
        r == sizes_sum(files@),
{
    let mut total: u64 = 0;
    let mut i: usize = 0;
    while i < files.len()
        invariant
            i <= files@.len(),
            sizes_sum(files@) <= u64::MAX,
            total == sizes_sum(files@.take(i as int)),
        decreases files@.len() - i,
    {
        proof {
            lemma_sizes_sum_prefix(files@, i + 1);
            assert(files@.take(i + 1).drop_last() =~= files@.take(i as int));
        }
        total = total + files[i].size;
        i += 1;
    }
    assert(files@.take(files@.len() as int) =~= files@);
    total
}

fn sum_group_sizes(groups: &Vec<DuplicateGroup>) -> (r: u64)
    requires
        groups_sum(groups@) <= u64::MAX,
    ensures
        r == groups_sum(groups@),
{
    let mut total: u64 = 0;
    let mut i: usize = 0;
    while i < groups.len()
        invariant
            i <= groups@.len(),
            groups_sum(groups@) <= u64::MAX,
            total == groups_sum(groups@.take(i as int)),
        decreases groups@.len() - i,
    {
        proof {
            lemma_groups_sum_prefix(groups@, i + 1);
            assert(groups@.take(i + 1).drop_last() =~= groups@.take(i as int));
        }
        total = total + groups[i].total_size;
        i += 1;
    }
    assert(groups@.take(groups@.len() as int) =~= groups@);
    total
}

/// The modules of a scan: duplicate groups, large, temporary, archive and
/// empty files, and empty directories, each with its count and size.
pub open spec fn scan_modules(analysis: AnalysisResult, dedup: DedupResult) -> Seq<ScanModuleSummary> {
    seq![
        ScanModuleSummary {
            kind: ScanModuleKind::DuplicateFiles,
            item_count: dedup.groups@.len() as usize,
            total_size: groups_sum(dedup.groups@) as u64,
        },
        ScanModuleSummary {
            kind: ScanModuleKind::LargeFiles,
            item_count: analysis.large_files@.len() as usize,
            total_size: sizes_sum(analysis.large_files@) as u64,
        },
        ScanModuleSummary {
            kind: ScanModuleKind::TemporaryFiles,
            item_count: analysis.temporary_files@.len() as usize,
            total_size: sizes_sum(analysis.temporary_files@) as u64,
        },
        ScanModuleSummary {
            kind: ScanModuleKind::ArchiveFiles,
            item_count: analysis.archive_files@.len() as usize,
            total_size: sizes_sum(analysis.archive_files@) as u64,
        },
        ScanModuleSummary {
            kind: ScanModuleKind::EmptyFiles,
            item_count: analysis.empty_files@.len() as usize,
            total_size: 0,
        },
        ScanModuleSummary {
            kind: ScanModuleKind::EmptyDirectories,
            item_count: analysis.empty_dirs@.len() as usize,
            total_size: 0,
        },
    ]
}

/// `build_scan_modules`: the summary of each module of a scan.
pub fn build_scan_modules(analysis: &AnalysisResult, dedup: &DedupResult) -> (r: Vec<ScanModuleSummary>)
    requires
        groups_sum(dedup.groups@) <= u64::MAX,
        sizes_sum(analysis.large_files@) <= u64::MAX,
        sizes_sum(analysis.temporary_files@) <= u64::MAX,
        sizes_sum(analysis.archive_files@) <= u64::MAX,
    ensures
        r@ == scan_modules(*analysis, *dedup),
{
    let mut r: Vec<ScanModuleSummary> = Vec::new();
    r.push(ScanModuleSummary {
        kind: ScanModuleKind::DuplicateFiles,
        item_count: dedup.groups.len(),
        total_size: sum_group_sizes(&dedup.groups),
    });
    r.push(ScanModuleSummary {
        kind: ScanModuleKind::LargeFiles,
        item_count: analysis.large_files.len(),
        total_size: sum_sizes(&analysis.large_files),
    });
    r.push(ScanModuleSummary {
        kind: ScanModuleKind::TemporaryFiles,
        item_count: analysis.temporary_files.len(),
        total_size: sum_sizes(&analysis.temporary_files),
    });
    r.push(ScanModuleSummary {
        kind: ScanModuleKind::ArchiveFiles,
        item_count: analysis.archive_files.len(),
        total_size: sum_sizes(&analysis.archive_files),
    });
    r.push(ScanModuleSummary {
        kind: ScanModuleKind::EmptyFiles,
        item_count: analysis.empty_files.len(),
        total_size: 0,
    });
    r.push(ScanModuleSummary {
        kind: ScanModuleKind::EmptyDirectories,
        item_count: analysis.empty_dirs.len(),
        total_size: 0,
    });
    assert(r@ =~= scan_modules(*analysis, *dedup));
    r
}

proof fn lemma_size_first_total()
    ensures
        total_preorder(size_first()),
{
}

proof fn lemma_total_first_total()
    ensures
        total_preorder(total_first()),
{
}

proof fn lemma_path_first_total()
    ensures
        total_preorder(path_first()),
{
    assert forall|a: FileRecord, b: FileRecord| #[trigger] path_first()(a, b) || #[trigger] path_first()(b, a) by {
        lemma_comps_order_eq(components(a.path@), components(b.path@));
    }
    assert forall|a: FileRecord, b: FileRecord, c: FileRecord|
        #[trigger] path_first()(a, b) && #[trigger] path_first()(b, c) implies path_first()(a, c) by {
        let (x, y, z) = (components(a.path@), components(b.path@), components(c.path@));
        lemma_comps_order_eq(x, y);
        lemma_comps_order_eq(y, z);
        lemma_comps_order_eq(x, z);
        if path_order(a.path@, b.path@) < 0 && path_order(b.path@, c.path@) < 0 {
            lemma_comps_order_trans(x, y, z);
        }
    }
}

/// A file with a temporary directory on its path (a component named
/// `temp`, `tmp`, `cache` or `caches`, in any case) is a temporary file:
/// the analysis lists it among the temporary files.
pub proof fn law_files_in_temporary_directories_are_temporary(files: Seq<FileRecord>, i: int, k: int)
    requires
        0 <= i < files.len(),
        0 <= k < names(files[i].path@).len(),
        lower(names(files[i].path@)[k]) == "temp"@ || lower(names(files[i].path@)[k]) == "tmp"@
            || lower(names(files[i].path@)[k]) == "cache"@ || lower(names(files[i].path@)[k]) == "caches"@,
    ensures
        stable_sort(temporaries(files), size_first()).contains(files[i]),
{
    let f = files[i];
    let n = lower(names(f.path@)[k]);
    let list = temporary_directories();
    if n == "temp"@ {
        assert(n == list[0]@);
    } else if n == "tmp"@ {
        assert(n == list[1]@);
    } else if n == "cache"@ {
        assert(n == list[2]@);
    } else {
        assert(n == list[3]@);
    }
    assert(listed(n, list));
    assert(has_listed_name(f.path@, list));
    assert(temporary_file(f));
    let pred = |g: FileRecord| temporary_file(g);
    files.lemma_filter_contains(pred, i);
    let t = temporaries(files);
    assert(t.contains(f));
    let r = stable_sort(t, size_first());
    lemma_stable_sort_keeps(t, size_first());
    t.to_multiset_ensures();
    r.to_multiset_ensures();
    assert(t.to_multiset().count(f) > 0);
    assert(r.to_multiset().count(f) > 0);
}

/// The lists of an analysis keep their promises: the empty files come
/// by path, the large, temporary and archive files largest first and the
/// extensions by total size, largest first; and each list holds exactly
/// the files of its kind, each once.
pub proof fn law_analysis_lists_ordered(files: Seq<FileRecord>, threshold: u64)
    ensures
        ordered_by(stable_sort(empties(files), path_first()), path_first()),
        ordered_by(stable_sort(larges(files, threshold), size_first()), size_first()),
        ordered_by(stable_sort(temporaries(files), size_first()), size_first()),
        ordered_by(stable_sort(archives(files), size_first()), size_first()),
        ordered_by(stable_sort(type_table(files), total_first()), total_first()),
        stable_sort(empties(files), path_first()).to_multiset() == empties(files).to_multiset(),
        stable_sort(larges(files, threshold), size_first()).to_multiset()
            == larges(files, threshold).to_multiset(),
        stable_sort(temporaries(files), size_first()).to_multiset() == temporaries(files).to_multiset(),
        stable_sort(archives(files), size_first()).to_multiset() == archives(files).to_multiset(),
{
    lemma_size_first_total();
    lemma_path_first_total();
    lemma_total_first_total();
    lemma_stable_sort_ordered(empties(files), path_first());
    lemma_stable_sort_ordered(larges(files, threshold), size_first());
    lemma_stable_sort_ordered(temporaries(files), size_first());
    lemma_stable_sort_ordered(archives(files), size_first());
    lemma_stable_sort_ordered(type_table(files), total_first());
    lemma_stable_sort_keeps(empties(files), path_first());
    lemma_stable_sort_keeps(larges(files, threshold), size_first());
    lemma_stable_sort_keeps(temporaries(files), size_first());
    lemma_stable_sort_keeps(archives(files), size_first());
}

} // verus!
