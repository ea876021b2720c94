//! Duplicate detection: which files could be copies of each other (equal
//! sizes, then equal samples), and the groups of files with equal content
//! hashes, each with the copy to keep.

use vstd::prelude::*;
use crate::analyzer::{choose_keep_candidate, copy_record, keep_pick, lemma_sizes_sum_prefix, sizes_sum, sum_sizes};
use crate::models::{DedupResult, DuplicateGroup, FileRecord, PathIssue, Timestamp};
use crate::order::same_path_exec;
use crate::paths::same_path;
use crate::text::{append_str, chars_of};
use crate::sorting::{slot, stable_sort};
use crate::text::{decimal, owned, push_decimal, string_of};

verus! {

/// Progress of duplicate detection.
#[derive(Clone, Debug)]
pub struct DedupProgress {
    /// `hashing` or `done`.
    pub phase: String,
    pub files_hashed: usize,
    pub files_total: usize,
    pub current_path: Option<String>,
}

/// A remembered content hash of a file, valid while the file keeps its
/// size and modification time.
#[derive(Clone, Debug)]
pub struct HashCacheEntry {
    pub path: String,
    pub size: u64,
    pub modified_at: Option<Timestamp>,
    pub hash: String,
    pub cached_at: Timestamp,
}

/// The remembered hashes.
#[derive(Clone, Debug)]
pub struct HashCache {
    pub entries: Vec<HashCacheEntry>,
}

/// `cache_matches`: the remembered hash still holds for the file.
pub fn cache_matches(entry: &HashCacheEntry, file: &FileRecord) -> (r: bool)
    ensures
        r == (entry.size == file.size && entry.modified_at == file.modified_at),
{
    entry.size == file.size && entry.modified_at == file.modified_at
}

/// The largest size that is hashed whole at once; larger files are first
/// compared by samples of their head and tail.
pub const PARTIAL_HASH_WINDOW_BYTES: u64 = 65536;

/// Whether a file is hashed whole right away rather than sampled first.
pub fn hashed_whole(size: u64) -> (r: bool)
    ensures
        r == (size <= 2 * PARTIAL_HASH_WINDOW_BYTES),
{
    size <= PARTIAL_HASH_WINDOW_BYTES * 2
}

/// Files with a key, gathered by key in the order the keys first occur.
pub open spec fn group_index(gs: Seq<(Seq<char>, Seq<FileRecord>)>, k: Seq<char>) -> int
    decreases gs.len(),
{
    if gs.len() == 0 {
        -1
    } else if gs.last().0 == k {
        gs.len() - 1
    } else {
        group_index(gs.drop_last(), k)
    }
}

pub open spec fn group_step(gs: Seq<(Seq<char>, Seq<FileRecord>)>, k: Seq<char>, f: FileRecord) -> Seq<(Seq<char>, Seq<FileRecord>)> {
    let j = group_index(gs, k);
    if j >= 0 {
        gs.update(j, (k, gs[j].1.push(f)))
    } else {
        gs.push((k, seq![f]))
    }
}

/// The files gathered by their keys.
pub open spec fn grouped(keyed: Seq<(Seq<char>, FileRecord)>) -> Seq<(Seq<char>, Seq<FileRecord>)>
    decreases keyed.len(),
{
    if keyed.len() == 0 {
        Seq::empty()
    } else {
        group_step(grouped(keyed.drop_last()), keyed.last().0, keyed.last().1)
    }
}

/// A file with the key it is grouped by.
#[derive(Clone, Debug)]
pub struct KeyedFile {
    pub key: String,
    pub file: FileRecord,
}

pub open spec fn keyed_view(k: KeyedFile) -> (Seq<char>, FileRecord) {
    (k.key@, k.file)
}

/// Files gathered under one key.
#[derive(Clone, Debug)]
pub struct FileGroup {
    pub key: String,
    pub files: Vec<FileRecord>,
}

pub open spec fn group_view(g: FileGroup) -> (Seq<char>, Seq<FileRecord>) {
    (g.key@, g.files@)
}

proof fn lemma_group_index(gs: Seq<(Seq<char>, Seq<FileRecord>)>, k: Seq<char>)
    ensures
        -1 <= group_index(gs, k) < gs.len(),
        group_index(gs, k) >= 0 ==> gs[group_index(gs, k)].0 == k,
    decreases gs.len(),
{
    if gs.len() > 0 && gs.last().0 != k {
        lemma_group_index(gs.drop_last(), k);
    }
}

fn copy_files(v: &Vec<FileRecord>) -> (r: Vec<FileRecord>)
    ensures
        r@ == v@,
{
    let mut out: Vec<FileRecord> = Vec::new();
    let mut i: usize = 0;
    while i < v.len()
        invariant
            i <= v@.len(),
            out@ == v@.take(i as int),
        decreases v@.len() - i,
    {
        out.push(copy_record(&v[i]));
        assert(v@.take(i + 1) =~= v@.take(i as int).push(v@[i as int]));
        i += 1;
    }
    assert(v@.take(v@.len() as int) =~= v@);
    out
}

/// The files gathered by their keys (a size or a hash), in the order the
/// keys first occur.
pub fn group_by_key(keyed: &Vec<KeyedFile>) -> (r: Vec<FileGroup>)
    ensures
        r@.map_values(|g: FileGroup| group_view(g)) == grouped(keyed@.map_values(|k: KeyedFile| keyed_view(k))),
{
    let ghost kv = keyed@.map_values(|k: KeyedFile| keyed_view(k));
    let mut groups: Vec<FileGroup> = Vec::new();
    let mut i: usize = 0;
    while i < keyed.len()
        invariant
            i <= keyed@.len(),
            kv == keyed@.map_values(|k: KeyedFile| keyed_view(k)),
            groups@.map_values(|g: FileGroup| group_view(g)) == grouped(kv.take(i as int)),
        decreases keyed@.len() - i,
    {
        let item = &keyed[i];
        let ghost gv = groups@.map_values(|g: FileGroup| group_view(g));
        assert(kv.take(i + 1).drop_last() =~= kv.take(i as int));
        assert(kv.take(i + 1).last() == keyed_view(*item));
        let mut j: usize = groups.len();
        assert(gv.take(j as int) =~= gv);
        while j > 0 && groups[j - 1].key != item.key
            invariant
                j <= groups@.len(),
                gv == groups@.map_values(|g: FileGroup| group_view(g)),
                group_index(gv, item.key@) == group_index(gv.take(j as int), item.key@),
            decreases j,
        {
            assert(gv.take(j as int).drop_last() =~= gv.take(j - 1));
            j -= 1;
        }
        proof {
            lemma_group_index(gv, item.key@);
            if j > 0 {
                assert(gv.take(j as int).last() == group_view(groups@[j - 1]));
            }
        }
        if j == 0 {
            let mut files: Vec<FileRecord> = Vec::new();
            files.push(copy_record(&item.file));
            groups.push(FileGroup { key: item.key.clone(), files });
            assert(groups@.map_values(|g: FileGroup| group_view(g)) =~= gv.push((item.key@, seq![item.file])));
        } else {
            let mut files = copy_files(&groups[j - 1].files);
            files.push(copy_record(&item.file));
            let key = groups[j - 1].key.clone();
            groups.set(j - 1, FileGroup { key, files });
            assert(groups@.map_values(|g: FileGroup| group_view(g)) =~= gv.update(
                j - 1,
                (item.key@, gv[j - 1].1.push(item.file)),
            ));
        }
        i += 1;
    }
    assert(kv.take(kv.len() as int) =~= kv);
    groups
}

/// A duplicate group, by value: its hash, total size, the copy to keep
/// and its files.
pub open spec fn dup_view(g: DuplicateGroup) -> (Seq<char>, int, Option<Seq<char>>, Seq<FileRecord>) {
    (
        g.hash@,
        g.total_size as int,
        match g.suggested_keep {
            Some(p) => Some(p@),
            None => None,
        },
        g.files@,
    )
}

/// The group for files with an equal hash: the hash, the total size, the
/// copy to keep, and the files.
pub open spec fn dup_of(g: (Seq<char>, Seq<FileRecord>)) -> (Seq<char>, int, Option<Seq<char>>, Seq<FileRecord>) {
    (g.0, sizes_sum(g.1), Some(keep_pick(g.1).path@), g.1)
}

/// Larger totals first.
pub open spec fn dup_first() -> spec_fn(
    (Seq<char>, int, Option<Seq<char>>, Seq<FileRecord>),
    (Seq<char>, int, Option<Seq<char>>, Seq<FileRecord>),
) -> bool {
    |a: (Seq<char>, int, Option<Seq<char>>, Seq<FileRecord>), b: (Seq<char>, int, Option<Seq<char>>, Seq<FileRecord>)|
        a.1 >= b.1
}

/// The duplicate groups: the gatherings of two or more files, largest
/// total first.
pub open spec fn duplicate_groups(gs: Seq<(Seq<char>, Seq<FileRecord>)>) -> Seq<(Seq<char>, int, Option<Seq<char>>, Seq<FileRecord>)> {
    stable_sort(
        gs.filter(|g: (Seq<char>, Seq<FileRecord>)| g.1.len() >= 2).map_values(
            |g: (Seq<char>, Seq<FileRecord>)| dup_of(g),
        ),
        dup_first(),
    )
}

/// `build_duplicate_groups`: the groups of two or more files with an equal
/// hash, each with its total size and the copy to keep, largest first.
pub fn build_duplicate_groups(by_hash: &Vec<FileGroup>) -> (r: Vec<DuplicateGroup>)
    requires
        forall|k: int| 0 <= k < by_hash@.len() ==> sizes_sum(#[trigger] by_hash@[k].files@) <= u64::MAX,
    ensures
        r@.map_values(|g: DuplicateGroup| dup_view(g)) == duplicate_groups(
            by_hash@.map_values(|g: FileGroup| group_view(g)),
        ),
{
    let ghost gv = by_hash@.map_values(|g: FileGroup| group_view(g));
    let ghost pred = |g: (Seq<char>, Seq<FileRecord>)| g.1.len() >= 2;
    let ghost to_dup = |g: (Seq<char>, Seq<FileRecord>)| dup_of(g);
    let mut kept: Vec<DuplicateGroup> = Vec::new();
    let mut i: usize = 0;
    while i < by_hash.len()
        invariant
            i <= by_hash@.len(),
            gv == by_hash@.map_values(|g: FileGroup| group_view(g)),
            pred == (|g: (Seq<char>, Seq<FileRecord>)| g.1.len() >= 2),
            to_dup == (|g: (Seq<char>, Seq<FileRecord>)| dup_of(g)),
            forall|k: int| 0 <= k < by_hash@.len() ==> sizes_sum(#[trigger] by_hash@[k].files@) <= u64::MAX,
            kept@.map_values(|g: DuplicateGroup| dup_view(g)) == gv.take(i as int).filter(pred).map_values(to_dup),
        decreases by_hash@.len() - i,
    {
        let g = &by_hash[i];
        proof {
            reveal(Seq::filter);
            assert(gv.take(i + 1).drop_last() =~= gv.take(i as int));
            assert(gv.take(i + 1).last() == group_view(*g));
        }
        let ghost before = kept@.map_values(|g: DuplicateGroup| dup_view(g));
        if g.files.len() >= 2 {
            let total = sum_sizes(&g.files);
            let keep = choose_keep_candidate(g.files.as_slice());
            let suggested_keep = match keep {
                Some(f) => Some(f.path),
                None => None,
            };
            let d = DuplicateGroup { hash: g.key.clone(), total_size: total, files: copy_files(&g.files), suggested_keep };
            assert(dup_view(d) == dup_of(group_view(*g)));
            kept.push(d);
            assert(kept@.map_values(|g: DuplicateGroup| dup_view(g)) =~= before.push(dup_of(group_view(*g))));
            assert(gv.take(i + 1).filter(pred) =~= gv.take(i as int).filter(pred).push(group_view(*g)));
            assert(gv.take(i + 1).filter(pred).map_values(to_dup) =~= gv.take(i as int).filter(pred).map_values(to_dup).push(dup_of(group_view(*g))));
        }
        i += 1;
    }
    assert(gv.take(gv.len() as int) =~= gv);
    let ghost kv = kept@.map_values(|g: DuplicateGroup| dup_view(g));
    let mut out: Vec<DuplicateGroup> = Vec::new();
    let mut n: usize = 0;
    while n < kept.len()
        invariant
            n <= kept@.len(),
            kv == kept@.map_values(|g: DuplicateGroup| dup_view(g)),
            out@.map_values(|g: DuplicateGroup| dup_view(g)) == stable_sort(kv.take(n as int), dup_first()),
        decreases kept@.len() - n,
    {
        let src = &kept[n];
        let x = DuplicateGroup {
            hash: src.hash.clone(),
            total_size: src.total_size,
            files: copy_files(&src.files),
            suggested_keep: match &src.suggested_keep {
                Some(p) => Some(p.clone()),
                None => None,
            },
        };
        let ghost xv = dup_view(x);
        assert(xv == dup_view(*src));
        let ghost ov = out@.map_values(|g: DuplicateGroup| dup_view(g));
        let mut j: usize = out.len();
        assert(ov.take(j as int) =~= ov);
        while j > 0 && out[j - 1].total_size < x.total_size
            invariant
                j <= out@.len(),
                ov == out@.map_values(|g: DuplicateGroup| dup_view(g)),
                xv == dup_view(x),
                slot(ov, xv, dup_first()) == slot(ov.take(j as int), xv, dup_first()),
            decreases j,
        {
            assert(ov.take(j as int).drop_last() =~= ov.take(j - 1));
            assert(ov.take(j as int).last() == dup_view(out@[j - 1]));
            j -= 1;
        }
        proof {
            if j > 0 {
                assert(ov.take(j as int).last() == dup_view(out@[j - 1]));
            }
        }
        assert(ov.take(j as int).len() == j);
        assert(kv.take(n + 1).drop_last() =~= kv.take(n as int));
        assert(kv.take(n + 1).last() == xv);
        out.insert(j, x);
        assert(out@.map_values(|g: DuplicateGroup| dup_view(g)) =~= ov.insert(j as int, xv));
        n += 1;
    }
    assert(kv.take(kv.len() as int) =~= kv);
    out
}

/// The files that could have copies, keyed by their size (in decimal):
/// every file that is not empty.
pub open spec fn sized(files: Seq<FileRecord>) -> Seq<(Seq<char>, FileRecord)>
    decreases files.len(),
{
    if files.len() == 0 {
        Seq::empty()
    } else {
        let prev = sized(files.drop_last());
        let f = files.last();
        if f.size > 0 {
            prev.push((decimal(f.size as nat), f))
        } else {
            prev
        }
    }
}

/// The non-empty files, each keyed by its size.
pub fn sized_keys(files: &[FileRecord]) -> (r: Vec<KeyedFile>)
    ensures
        r@.map_values(|k: KeyedFile| keyed_view(k)) == sized(files@),
{
    let mut out: Vec<KeyedFile> = Vec::new();
    let mut i: usize = 0;
    while i < files.len()
        invariant
            i <= files@.len(),
            out@.map_values(|k: KeyedFile| keyed_view(k)) == sized(files@.take(i as int)),
        decreases files@.len() - i,
    {
        let f = &files[i];
        assert(files@.take(i + 1).drop_last() =~= files@.take(i as int));
        assert(files@.take(i + 1).last() == *f);
        if f.size > 0 {
            let mut key: Vec<char> = Vec::new();
            push_decimal(&mut key, f.size);
            let ghost before = out@;
            let k = KeyedFile { key: string_of(key.as_slice()), file: copy_record(f) };
            out.push(k);
            assert(out@.map_values(|k: KeyedFile| keyed_view(k)) =~= before.map_values(|k: KeyedFile| keyed_view(k)).push(
                (decimal(f.size as nat), *f),
            ));
        }
        i += 1;
    }
    assert(files@.take(files@.len() as int) =~= files@);
    out
}

/// The gatherings of two or more files.
pub open spec fn with_copies(gs: Seq<(Seq<char>, Seq<FileRecord>)>) -> Seq<(Seq<char>, Seq<FileRecord>)> {
    gs.filter(|g: (Seq<char>, Seq<FileRecord>)| g.1.len() >= 2)
}

/// The groups that hold two or more files.
pub fn groups_with_copies(groups: Vec<FileGroup>) -> (r: Vec<FileGroup>)
    ensures
        r@.map_values(|g: FileGroup| group_view(g)) == with_copies(groups@.map_values(|g: FileGroup| group_view(g))),
{
    let ghost gv = groups@.map_values(|g: FileGroup| group_view(g));
    let ghost pred = |g: (Seq<char>, Seq<FileRecord>)| g.1.len() >= 2;
    let mut out: Vec<FileGroup> = Vec::new();
    let mut rest = groups;
    let mut i: usize = 0;
    let n = rest.len();
    while i < n
        invariant
            i <= n,
            n == gv.len(),
            rest@.len() == n,
            forall|k: int| i <= k < n ==> #[trigger] group_view(rest@[k]) == gv[k],
            pred == (|g: (Seq<char>, Seq<FileRecord>)| g.1.len() >= 2),
            out@.map_values(|g: FileGroup| group_view(g)) == gv.take(i as int).filter(pred),
        decreases n - i,
    {
        proof {
            reveal(Seq::filter);
            assert(gv.take(i + 1).drop_last() =~= gv.take(i as int));
            assert(gv.take(i + 1).last() == gv[i as int]);
        }
        let mut g = FileGroup { key: String::new(), files: Vec::new() };
        rest.set_and_swap(i, &mut g);
        assert(group_view(g) == gv[i as int]);
        if g.files.len() >= 2 {
            let ghost before = out@;
            out.push(g);
            assert(out@.map_values(|g: FileGroup| group_view(g)) =~= before.map_values(|g: FileGroup| group_view(g)).push(gv[i as int]));
        }
        i += 1;
    }
    assert(gv.take(gv.len() as int) =~= gv);
    out
}

/// A file with its content hash and the time the hash was taken.
#[derive(Clone, Debug)]
pub struct HashedFileEntry {
    pub file: FileRecord,
    pub size: u64,
    pub modified_at: Option<Timestamp>,
    pub hash: String,
    pub cached_at: Timestamp,
}

/// A copy of a hashed entry, equal to it.
pub fn copy_entry(e: &HashedFileEntry) -> (r: HashedFileEntry)
    ensures
        r == *e,
{
    HashedFileEntry {
        file: copy_record(&e.file),
        size: e.size,
        modified_at: e.modified_at,
        hash: e.hash.clone(),
        cached_at: e.cached_at,
    }
}

/// The entry of a file just hashed at `at`.
pub fn hashed_entry(file: &FileRecord, hash: String, at: Timestamp) -> (e: HashedFileEntry)
    ensures
        e.file == *file,
        e.size == file.size,
        e.modified_at == file.modified_at,
        e.hash == hash,
        e.cached_at == at,
{
    HashedFileEntry { file: copy_record(file), size: file.size, modified_at: file.modified_at, hash, cached_at: at }
}

/// What sampling one file of a size bucket gave.
#[derive(Clone, Debug)]
pub enum PrefilterOutcome {
    /// A small file, hashed whole.
    Exact(HashedFileEntry),
    /// A large file, with the digest of its sample.
    Partial { file: FileRecord, signature: String },
    /// The file could not be read.
    Failed { path: String, message: String },
}

pub open spec fn exact_of(os: Seq<PrefilterOutcome>) -> Seq<HashedFileEntry>
    decreases os.len(),
{
    if os.len() == 0 {
        Seq::empty()
    } else {
        match os.last() {
            PrefilterOutcome::Exact(e) => exact_of(os.drop_last()).push(e),
            _ => exact_of(os.drop_last()),
        }
    }
}

pub open spec fn partial_of(os: Seq<PrefilterOutcome>) -> Seq<(Seq<char>, FileRecord)>
    decreases os.len(),
{
    if os.len() == 0 {
        Seq::empty()
    } else {
        match os.last() {
            PrefilterOutcome::Partial { file, signature } => partial_of(os.drop_last()).push((signature@, file)),
            _ => partial_of(os.drop_last()),
        }
    }
}

/// The message of a file that could not be sampled.
pub open spec fn sampling_message(m: Seq<char>) -> Seq<char> {
    "failed to sample file for duplicate detection: "@ + m
}

pub open spec fn failed_of(os: Seq<PrefilterOutcome>) -> Seq<(Seq<char>, Seq<char>)>
    decreases os.len(),
{
    if os.len() == 0 {
        Seq::empty()
    } else {
        match os.last() {
            PrefilterOutcome::Failed { path, message } => failed_of(os.drop_last()).push((path@, sampling_message(message@))),
            _ => failed_of(os.drop_last()),
        }
    }
}

/// How many of the keys are `k`.
pub open spec fn key_count(keys: Seq<Seq<char>>, k: Seq<char>) -> nat
    decreases keys.len(),
{
    if keys.len() == 0 {
        0
    } else {
        key_count(keys.drop_last(), k) + if keys.last() == k { 1nat } else { 0nat }
    }
}

pub open spec fn entry_keys(es: Seq<HashedFileEntry>) -> Seq<Seq<char>> {
    es.map_values(|e: HashedFileEntry| e.hash@)
}

pub open spec fn pair_keys(ps: Seq<(Seq<char>, FileRecord)>) -> Seq<Seq<char>> {
    ps.map_values(|p: (Seq<char>, FileRecord)| p.0)
}

/// The entries whose hash occurs at least twice among `keys`, in order.
pub open spec fn repeated_entries(es: Seq<HashedFileEntry>, keys: Seq<Seq<char>>) -> Seq<HashedFileEntry>
    decreases es.len(),
{
    if es.len() == 0 {
        Seq::empty()
    } else if key_count(keys, es.last().hash@) >= 2 {
        repeated_entries(es.drop_last(), keys).push(es.last())
    } else {
        repeated_entries(es.drop_last(), keys)
    }
}

/// The files whose key occurs at least twice among `keys`, in order.
pub open spec fn repeated_files(ps: Seq<(Seq<char>, FileRecord)>, keys: Seq<Seq<char>>) -> Seq<FileRecord>
    decreases ps.len(),
{
    if ps.len() == 0 {
        Seq::empty()
    } else if key_count(keys, ps.last().0) >= 2 {
        repeated_files(ps.drop_last(), keys).push(ps.last().1)
    } else {
        repeated_files(ps.drop_last(), keys)
    }
}

fn count_key(keys: &Vec<String>, k: &String) -> (n: usize)
    ensures
        n == key_count(crate::text::string_views(keys@), k@),
{
    let ghost kv = crate::text::string_views(keys@);
    let mut n: usize = 0;
    let mut i: usize = 0;
    while i < keys.len()
        invariant
            i <= keys@.len(),
            kv == crate::text::string_views(keys@),
            n == key_count(kv.take(i as int), k@),
            n <= i,
        decreases keys@.len() - i,
    {
        assert(kv.take(i + 1).drop_last() =~= kv.take(i as int));
        assert(kv.take(i + 1).last() == keys@[i as int]@);
        if crate::text::eq_chars(chars_of(keys[i].as_str()).as_slice(), chars_of(k.as_str()).as_slice()) {
            n += 1;
        }
        i += 1;
    }
    assert(kv.take(keys@.len() as int) =~= kv);
    n
}

/// One size bucket sorted out after sampling: the hashed small files whose
/// hash another of them shares, the sampled large files whose sample
/// another shares (to be hashed whole), and the files that could not be
/// read.
pub fn sort_prefiltered(outcomes: Vec<PrefilterOutcome>) -> (r: (Vec<HashedFileEntry>, Vec<FileRecord>, Vec<PathIssue>))
    ensures
        r.0@ == repeated_entries(exact_of(outcomes@), entry_keys(exact_of(outcomes@))),
        r.1@ == repeated_files(partial_of(outcomes@), pair_keys(partial_of(outcomes@))),
        r.2@.map_values(|i: PathIssue| (i.path@, i.message@)) == failed_of(outcomes@),
{
    let ghost os = outcomes@;
    let mut exact: Vec<HashedFileEntry> = Vec::new();
    let mut exact_keys: Vec<String> = Vec::new();
    let mut partial: Vec<KeyedFile> = Vec::new();
    let mut partial_keys: Vec<String> = Vec::new();
    let mut failures: Vec<PathIssue> = Vec::new();
    let mut i: usize = 0;
    while i < outcomes.len()
        invariant
            i <= os.len(),
            os == outcomes@,
            exact@ == exact_of(os.take(i as int)),
            crate::text::string_views(exact_keys@) == entry_keys(exact@),
            partial@.map_values(|k: KeyedFile| keyed_view(k)) == partial_of(os.take(i as int)),
            crate::text::string_views(partial_keys@) == pair_keys(partial@.map_values(|k: KeyedFile| keyed_view(k))),
            failures@.map_values(|f: PathIssue| (f.path@, f.message@)) == failed_of(os.take(i as int)),
        decreases os.len() - i,
    {
        assert(os.take(i + 1).drop_last() =~= os.take(i as int));
        assert(os.take(i + 1).last() == os[i as int]);
        match &outcomes[i] {
            PrefilterOutcome::Exact(e) => {
                let c = copy_entry(e);
                let ghost before = exact@;
                let ghost kb = exact_keys@;
                exact_keys.push(c.hash.clone());
                exact.push(c);
                assert(crate::text::string_views(exact_keys@) =~= crate::text::string_views(kb).push(e.hash@));
                assert(entry_keys(exact@) =~= entry_keys(before).push(e.hash@));
            },
            PrefilterOutcome::Partial { file, signature } => {
                let ghost before = partial@;
                let ghost kb = partial_keys@;
                partial_keys.push(signature.clone());
                partial.push(KeyedFile { key: signature.clone(), file: copy_record(file) });
                assert(partial@.map_values(|k: KeyedFile| keyed_view(k)) =~= before.map_values(|k: KeyedFile| keyed_view(k)).push((signature@, *file)));
                assert(crate::text::string_views(partial_keys@) =~= crate::text::string_views(kb).push(signature@));
                assert(pair_keys(partial@.map_values(|k: KeyedFile| keyed_view(k))) =~= pair_keys(before.map_values(|k: KeyedFile| keyed_view(k))).push(signature@));
            },
            PrefilterOutcome::Failed { path, message } => {
                let ghost before = failures@;
                let mut m = chars_of("failed to sample file for duplicate detection: ");
                append_str(&mut m, message.as_str());
                failures.push(PathIssue { path: path.clone(), message: string_of(m.as_slice()) });
                assert(failures@.map_values(|f: PathIssue| (f.path@, f.message@)) =~= before.map_values(|f: PathIssue| (f.path@, f.message@)).push((path@, sampling_message(message@))));
            },
        }
        i += 1;
    }
    assert(os.take(os.len() as int) =~= os);
    let ghost ek = entry_keys(exact@);
    let mut ready: Vec<HashedFileEntry> = Vec::new();
    let mut j: usize = 0;
    while j < exact.len()
        invariant
            j <= exact@.len(),
            crate::text::string_views(exact_keys@) == ek,
            ek == entry_keys(exact@),
            ready@ == repeated_entries(exact@.take(j as int), ek),
        decreases exact@.len() - j,
    {
        assert(exact@.take(j + 1).drop_last() =~= exact@.take(j as int));
        assert(exact@.take(j + 1).last() == exact@[j as int]);
        let n = count_key(&exact_keys, &exact[j].hash);
        if n >= 2 {
            ready.push(copy_entry(&exact[j]));
        }
        j += 1;
    }
    assert(exact@.take(exact@.len() as int) =~= exact@);
    let ghost pv = partial@.map_values(|k: KeyedFile| keyed_view(k));
    let ghost pk = pair_keys(pv);
    let mut candidates: Vec<FileRecord> = Vec::new();
    let mut k: usize = 0;
    while k < partial.len()
        invariant
            k <= partial@.len(),
            pv == partial@.map_values(|k: KeyedFile| keyed_view(k)),
            crate::text::string_views(partial_keys@) == pk,
            pk == pair_keys(pv),
            candidates@ == repeated_files(pv.take(k as int), pk),
        decreases partial@.len() - k,
    {
        assert(pv.take(k + 1).drop_last() =~= pv.take(k as int));
        assert(pv.take(k + 1).last() == keyed_view(partial@[k as int]));
        let n = count_key(&partial_keys, &partial[k].key);
        if n >= 2 {
            candidates.push(copy_record(&partial[k].file));
        }
        k += 1;
    }
    assert(pv.take(pv.len() as int) =~= pv);
    (ready, candidates, failures)
}

/// The last remembered entry for a path.
pub open spec fn cache_index(entries: Seq<HashCacheEntry>, path: Seq<char>) -> int
    decreases entries.len(),
{
    if entries.len() == 0 {
        -1
    } else if same_path(entries.last().path@, path) {
        entries.len() - 1
    } else {
        cache_index(entries.drop_last(), path)
    }
}

proof fn lemma_cache_index(entries: Seq<HashCacheEntry>, path: Seq<char>)
    ensures
        -1 <= cache_index(entries, path) < entries.len(),
    decreases entries.len(),
{
    if entries.len() > 0 && !same_path(entries.last().path@, path) {
        lemma_cache_index(entries.drop_last(), path);
    }
}

/// The remembered hash of a file, taken up at `now`, where the last entry
/// remembered for its path still matches its size and modification time.
pub fn cached_hash(cache: &HashCache, file: &FileRecord, now: Timestamp) -> (r: Option<HashedFileEntry>)
    ensures
        ({
            let i = cache_index(cache.entries@, file.path@);
            match r {
                Some(e) => {
                    &&& 0 <= i < cache.entries@.len()
                    &&& cache.entries@[i].size == file.size
                    &&& cache.entries@[i].modified_at == file.modified_at
                    &&& e.file == *file
                    &&& e.size == cache.entries@[i].size
                    &&& e.modified_at == cache.entries@[i].modified_at
                    &&& e.hash == cache.entries@[i].hash
                    &&& e.cached_at == now
                },
                None => i < 0 || cache.entries@[i].size != file.size
                    || cache.entries@[i].modified_at != file.modified_at,
            }
        }),
{
    let ghost es = cache.entries@;
    let mut i: usize = cache.entries.len();
    proof {
        assert(es.take(i as int) =~= es);
    }
    while i > 0
        invariant
            i <= es.len(),
            es == cache.entries@,
            cache_index(es, file.path@) == cache_index(es.take(i as int), file.path@),
        decreases i,
    {
        let ghost t = es.take(i as int);
        assert(t.drop_last() =~= es.take(i - 1));
        assert(t.last() == es[i - 1]);
        let entry = &cache.entries[i - 1];
        if same_path_exec(entry.path.as_str(), file.path.as_str()) {
            if cache_matches(entry, file) {
                return Some(HashedFileEntry {
                    file: copy_record(file),
                    size: entry.size,
                    modified_at: entry.modified_at,
                    hash: entry.hash.clone(),
                    cached_at: now,
                });
            }
            return None;
        }
        i -= 1;
    }
    None
}

/// The message of a file that could not be hashed.
pub open spec fn hashing_message(m: Seq<char>) -> Seq<char> {
    "failed to hash file: "@ + m
}

/// How many hashed files pass between two progress reports.
pub const DEDUP_PROGRESS_EVERY: usize = 50;

/// The hashes gathered so far: the entries known before hashing, then the
/// files hashed, in the order they came.
#[derive(Debug)]
pub struct DedupCollector {
    pub entries: Vec<HashedFileEntry>,
    pub failures: Vec<PathIssue>,
    pub hashed: usize,
    pub total: usize,
}

/// The files of the entries, keyed by hash.
pub open spec fn entries_keyed(es: Seq<HashedFileEntry>) -> Seq<(Seq<char>, FileRecord)> {
    es.map_values(|e: HashedFileEntry| (e.hash@, e.file))
}

pub open spec fn entry_files(es: Seq<HashedFileEntry>) -> Seq<FileRecord> {
    es.map_values(|e: HashedFileEntry| e.file)
}

/// The cache entry an entry is remembered as.
pub open spec fn cache_view(e: HashedFileEntry) -> (Seq<char>, u64, Option<Timestamp>, Seq<char>, Timestamp) {
    (e.file.path@, e.size, e.modified_at, e.hash@, e.cached_at)
}

pub open spec fn remembered_view(c: HashCacheEntry) -> (Seq<char>, u64, Option<Timestamp>, Seq<char>, Timestamp) {
    (c.path@, c.size, c.modified_at, c.hash@, c.cached_at)
}

pub open spec fn pair_files(kv: Seq<(Seq<char>, FileRecord)>) -> Seq<FileRecord> {
    kv.map_values(|p: (Seq<char>, FileRecord)| p.1)
}

proof fn lemma_group_sums(kv: Seq<(Seq<char>, FileRecord)>)
    ensures
        forall|j: int| 0 <= j < grouped(kv).len() ==> sizes_sum(#[trigger] grouped(kv)[j].1) <= sizes_sum(pair_files(kv)),
        sizes_sum(pair_files(kv)) >= 0,
    decreases kv.len(),
{
    let fs = pair_files(kv);
    lemma_sizes_sum_prefix(fs, 0);
    if kv.len() > 0 {
        let prev = kv.drop_last();
        lemma_group_sums(prev);
        assert(fs.drop_last() =~= pair_files(prev));
        let gs = grouped(prev);
        let k = kv.last().0;
        let f = kv.last().1;
        lemma_group_index(gs, k);
        let j0 = group_index(gs, k);
        let total = sizes_sum(pair_files(prev));
        assert(grouped(kv) == group_step(gs, k, f));
        assert(fs.last() == f);
        assert(sizes_sum(fs) == total + f.size);
        assert forall|j: int| 0 <= j < grouped(kv).len() implies sizes_sum(#[trigger] grouped(kv)[j].1) <= sizes_sum(fs) by {
            if j0 >= 0 {
                let g = gs[j0].1.push(f);
                assert(grouped(kv) == gs.update(j0, (k, g)));
                if j == j0 {
                    assert(g.drop_last() =~= gs[j0].1);
                    assert(sizes_sum(g) == sizes_sum(gs[j0].1) + f.size);
                    assert(sizes_sum(gs[j0].1) <= total);
                } else {
                    assert(grouped(kv)[j] == gs[j]);
                    assert(sizes_sum(gs[j].1) <= total);
                }
            } else {
                assert(grouped(kv) == gs.push((k, seq![f])));
                if j == gs.len() {
                    assert(seq![f].drop_last() =~= Seq::<FileRecord>::empty());
                    assert(sizes_sum(Seq::<FileRecord>::empty()) == 0);
                    assert(sizes_sum(seq![f]) == f.size);
                } else {
                    assert(grouped(kv)[j] == gs[j]);
                    assert(sizes_sum(gs[j].1) <= total);
                }
            }
        }
    }
}

fn hashing_failure(path: &String, message: &str) -> (i: PathIssue)
    ensures
        i.path == *path,
        i.message@ == hashing_message(message@),
{
    let mut m = chars_of("failed to hash file: ");
    append_str(&mut m, message);
    PathIssue { path: path.clone(), message: string_of(m.as_slice()) }
}

impl DedupCollector {
    /// A collector that starts from the entries already known and the
    /// failures so far, with `total` files left to hash.
    pub fn new(ready: Vec<HashedFileEntry>, failures: Vec<PathIssue>, total: usize) -> (c: DedupCollector)
        ensures
            c.entries@ == ready@,
            c.failures@ == failures@,
            c.hashed == 0,
            c.total == total,
    {
        DedupCollector { entries: ready, failures, hashed: 0, total }
    }

    /// Takes in the hash of one more file, or why it could not be hashed;
    /// every fiftieth file and the last bring a progress report.
    pub fn record(&mut self, file: &FileRecord, result: Result<HashedFileEntry, String>) -> (progress: Option<DedupProgress>)
        requires
            old(self).hashed < usize::MAX,
        ensures
            final(self).hashed == old(self).hashed + 1,
            final(self).total == old(self).total,
            match result {
                Ok(e) => final(self).entries@ == old(self).entries@.push(e) && final(self).failures@ == old(self).failures@,
                Err(m) => {
                    &&& final(self).entries@ == old(self).entries@
                    &&& final(self).failures@.len() == old(self).failures@.len() + 1
                    &&& final(self).failures@.take(old(self).failures@.len() as int) == old(self).failures@
                    &&& final(self).failures@.last().path == file.path
                    &&& final(self).failures@.last().message@ == hashing_message(m@)
                },
            },
            match progress {
                Some(p) => {
                    &&& (final(self).hashed % DEDUP_PROGRESS_EVERY == 0 || final(self).hashed == final(self).total)
                    &&& p.phase@ == "hashing"@
                    &&& p.files_hashed == final(self).hashed
                    &&& p.files_total == final(self).total
                    &&& p.current_path == Some(file.path)
                },
                None => !(final(self).hashed % DEDUP_PROGRESS_EVERY == 0 || final(self).hashed == final(self).total),
            },
    {
        self.hashed = self.hashed + 1;
        match result {
            Ok(e) => {
                self.entries.push(e);
            },
            Err(m) => {
                let issue = hashing_failure(&file.path, m.as_str());
                self.failures.push(issue);
            },
        }
        if self.hashed % DEDUP_PROGRESS_EVERY == 0 || self.hashed == self.total {
            Some(DedupProgress {
                phase: owned("hashing"),
                files_hashed: self.hashed,
                files_total: self.total,
                current_path: Some(file.path.clone()),
            })
        } else {
            None
        }
    }

    /// The end of hashing: the duplicate groups of the entries gathered by
    /// hash, the failures, the cache of every entry, and the final progress
    /// report.
    pub fn finish(self) -> (r: (DedupResult, HashCache, DedupProgress))
        requires
            sizes_sum(entry_files(self.entries@)) <= u64::MAX,
        ensures
            r.0.groups@.map_values(|g: DuplicateGroup| dup_view(g)) == duplicate_groups(grouped(entries_keyed(self.entries@))),
            r.0.failures@ == self.failures@,
            r.1.entries@.map_values(|c: HashCacheEntry| remembered_view(c)) == self.entries@.map_values(|e: HashedFileEntry| cache_view(e)),
            r.2.phase@ == "done"@,
            r.2.files_hashed == self.hashed,
            r.2.files_total == self.total,
            r.2.current_path is None,
    {
        let ghost ev = self.entries@;
        let mut keyed: Vec<KeyedFile> = Vec::new();
        let mut cache: Vec<HashCacheEntry> = Vec::new();
        let mut i: usize = 0;
        while i < self.entries.len()
            invariant
                i <= ev.len(),
                ev == self.entries@,
                keyed@.map_values(|k: KeyedFile| keyed_view(k)) == entries_keyed(ev.take(i as int)),
                cache@.map_values(|c: HashCacheEntry| remembered_view(c)) == ev.take(i as int).map_values(|e: HashedFileEntry| cache_view(e)),
            decreases ev.len() - i,
        {
            let e = &self.entries[i];
            let ghost kb = keyed@;
            let ghost cb = cache@;
            keyed.push(KeyedFile { key: e.hash.clone(), file: copy_record(&e.file) });
            cache.push(HashCacheEntry {
                path: e.file.path.clone(),
                size: e.size,
                modified_at: e.modified_at,
                hash: e.hash.clone(),
                cached_at: e.cached_at,
            });
            assert(ev.take(i + 1) =~= ev.take(i as int).push(ev[i as int]));
            assert(keyed@.map_values(|k: KeyedFile| keyed_view(k)) =~= kb.map_values(|k: KeyedFile| keyed_view(k)).push((e.hash@, e.file)));
            assert(entries_keyed(ev.take(i + 1)) =~= entries_keyed(ev.take(i as int)).push((e.hash@, e.file)));
            assert(cache@.map_values(|c: HashCacheEntry| remembered_view(c)) =~= cb.map_values(|c: HashCacheEntry| remembered_view(c)).push(cache_view(*e)));
            assert(ev.take(i + 1).map_values(|e: HashedFileEntry| cache_view(e)) =~= ev.take(i as int).map_values(|e: HashedFileEntry| cache_view(e)).push(cache_view(*e)));
            i += 1;
        }
        assert(ev.take(ev.len() as int) =~= ev);
        let by_hash = group_by_key(&keyed);
        proof {
            let kv = entries_keyed(ev);
            lemma_group_sums(kv);
            assert(pair_files(kv) =~= entry_files(ev));
            assert(keyed@.map_values(|k: KeyedFile| keyed_view(k)) == kv);
            assert forall|k: int| 0 <= k < by_hash@.len() implies sizes_sum(#[trigger] by_hash@[k].files@) <= u64::MAX by {
                assert(group_view(by_hash@[k]) == by_hash@.map_values(|g: FileGroup| group_view(g))[k]);
                assert(by_hash@.map_values(|g: FileGroup| group_view(g))[k] == grouped(kv)[k]);
                assert(sizes_sum(grouped(kv)[k].1) <= sizes_sum(pair_files(kv)));
            }
        }
        let groups = build_duplicate_groups(&by_hash);
        let progress = DedupProgress {
            phase: owned("done"),
            files_hashed: self.hashed,
            files_total: self.total,
            current_path: None,
        };
        (DedupResult { groups, failures: self.failures }, HashCache { entries: cache }, progress)
    }

    /// The end of the search unless it was cancelled: a search that had
    /// files left to hash fails when cancelled; one that had none ends as
    /// `finish` ends it.
    pub fn finish_checked(self, cancelled: bool) -> (r: Result<(DedupResult, HashCache, DedupProgress), String>)
        requires
            sizes_sum(entry_files(self.entries@)) <= u64::MAX,
        ensures
            cancelled && self.total > 0 ==> (r matches Err(m) && m@ == "dedup cancelled by user"@),
            !(cancelled && self.total > 0) ==> (r matches Ok(d) && {
                &&& d.0.groups@.map_values(|g: DuplicateGroup| dup_view(g)) == duplicate_groups(grouped(entries_keyed(self.entries@)))
                &&& d.0.failures@ == self.failures@
                &&& d.1.entries@.map_values(|c: HashCacheEntry| remembered_view(c)) == self.entries@.map_values(|e: HashedFileEntry| cache_view(e))
                &&& d.2.phase@ == "done"@
                &&& d.2.files_hashed == self.hashed
                &&& d.2.files_total == self.total
                &&& d.2.current_path is None
            }),
    {
        if cancelled && self.total > 0 {
            return Err(cancelled_dedup_message());
        }
        Ok(self.finish())
    }
}

/// The error of a duplicate search that was cancelled.
pub fn cancelled_dedup_message() -> (r: String)
    ensures
        r@ == "dedup cancelled by user"@,
{
    owned("dedup cancelled by user")
}

/// The size buckets worth sampling: the non-empty files gathered by size,
/// where two or more share a size.
pub fn size_buckets(files: &[FileRecord]) -> (r: Vec<FileGroup>)
    ensures
        r@.map_values(|g: FileGroup| group_view(g)) == with_copies(grouped(sized(files@))),
{
    let keyed = sized_keys(files);
    let groups = group_by_key(&keyed);
    groups_with_copies(groups)
}

proof fn lemma_grouped_members(kv: Seq<(Seq<char>, FileRecord)>)
    ensures
        forall|j: int, i: int| 0 <= j < grouped(kv).len() && 0 <= i < grouped(kv)[j].1.len()
            ==> kv.contains((grouped(kv)[j].0, #[trigger] grouped(kv)[j].1[i])),
        forall|j: int| 0 <= j < grouped(kv).len() ==> (#[trigger] grouped(kv)[j]).1.len() >= 1,
    decreases kv.len(),
{
    if kv.len() > 0 {
        let prev = kv.drop_last();
        lemma_grouped_members(prev);
        let gs = grouped(prev);
        let k = kv.last().0;
        let f = kv.last().1;
        lemma_group_index(gs, k);
        let j0 = group_index(gs, k);
        assert(grouped(kv) == group_step(gs, k, f));
        assert(kv[kv.len() - 1] == (k, f));
        assert forall|j: int, i: int| 0 <= j < grouped(kv).len() && 0 <= i < grouped(kv)[j].1.len()
            implies kv.contains((grouped(kv)[j].0, #[trigger] grouped(kv)[j].1[i])) by {
            let g = grouped(kv)[j];
            let from_prev = j < gs.len() && (j != j0 || i < gs[j].1.len());
            if from_prev {
                assert(g.0 == gs[j].0);
                assert(g.1[i] == gs[j].1[i]);
                assert(prev.contains((gs[j].0, gs[j].1[i])));
                let m = choose|m: int| 0 <= m < prev.len() && prev[m] == (gs[j].0, gs[j].1[i]);
                assert(kv[m] == prev[m]);
            } else {
                assert(g.0 == k);
                assert(g.1[i] == f);
                assert(kv[kv.len() - 1] == (g.0, g.1[i]));
            }
        }
        assert forall|j: int| 0 <= j < grouped(kv).len() implies (#[trigger] grouped(kv)[j]).1.len() >= 1 by {
            if j < gs.len() && j != j0 {
                assert(grouped(kv)[j] == gs[j]);
            }
        }
    }
}

proof fn lemma_filter_member<A>(s: Seq<A>, pred: spec_fn(A) -> bool)
    ensures
        forall|i: int| 0 <= i < s.filter(pred).len() ==> s.contains(#[trigger] s.filter(pred)[i]) && pred(s.filter(pred)[i]),
    decreases s.len(),
{
    reveal(Seq::filter);
    if s.len() > 0 {
        let prev = s.drop_last();
        lemma_filter_member(prev, pred);
        assert forall|i: int| 0 <= i < s.filter(pred).len() implies s.contains(#[trigger] s.filter(pred)[i]) && pred(s.filter(pred)[i]) by {
            if i < prev.filter(pred).len() {
                assert(s.filter(pred)[i] == prev.filter(pred)[i]);
                let m = choose|m: int| 0 <= m < prev.len() && prev[m] == prev.filter(pred)[i];
                assert(s[m] == prev[m]);
            } else {
                assert(s.filter(pred)[i] == s.last());
                assert(s[s.len() - 1] == s.last());
            }
        }
    }
}

/// Duplicates are files with equal content: every group reported holds
/// two files or more, each one of the hashed files with the group's hash,
/// and its total is the sum of their sizes.
pub proof fn law_duplicate_groups_share_content(kv: Seq<(Seq<char>, FileRecord)>)
    ensures
        forall|k: int| 0 <= k < duplicate_groups(grouped(kv)).len() ==> {
            let d = #[trigger] duplicate_groups(grouped(kv))[k];
            &&& d.3.len() >= 2
            &&& d.1 == sizes_sum(d.3)
            &&& forall|i: int| 0 <= i < d.3.len() ==> kv.contains((d.0, #[trigger] d.3[i]))
        },
{
    let gs = grouped(kv);
    let pred = |g: (Seq<char>, Seq<FileRecord>)| g.1.len() >= 2;
    let mapped = gs.filter(pred).map_values(|g: (Seq<char>, Seq<FileRecord>)| dup_of(g));
    lemma_grouped_members(kv);
    lemma_filter_member(gs, pred);
    assert forall|k: int| 0 <= k < duplicate_groups(gs).len() implies {
        let d = #[trigger] duplicate_groups(gs)[k];
        &&& d.3.len() >= 2
        &&& d.1 == sizes_sum(d.3)
        &&& forall|i: int| 0 <= i < d.3.len() ==> kv.contains((d.0, #[trigger] d.3[i]))
    } by {
        assert(duplicate_groups(gs) == stable_sort(mapped, dup_first()));
        crate::sorting::lemma_stable_sort_member(mapped, dup_first(), k);
        let m = choose|m: int| 0 <= m < mapped.len() && mapped[m] == stable_sort(mapped, dup_first())[k];
        let g = gs.filter(pred)[m];
        assert(mapped[m] == dup_of(g));
        assert(gs.contains(g) && pred(g));
        let j = choose|j: int| 0 <= j < gs.len() && gs[j] == g;
        let d = duplicate_groups(gs)[k];
        assert forall|i: int| 0 <= i < d.3.len() implies kv.contains((d.0, #[trigger] d.3[i])) by {
            assert(d.3[i] == gs[j].1[i]);
        }
    }
}

pub open spec fn issue_view(i: PathIssue) -> (Seq<char>, Seq<char>) {
    (i.path@, i.message@)
}

/// The sampling round of a duplicate search: what the size buckets sampled
/// so far gave.
#[derive(Debug)]
pub struct DedupSearch {
    /// Small files hashed whole whose hash another shares.
    pub ready: Vec<HashedFileEntry>,
    /// Large files whose sample another shares, to be hashed whole.
    pub candidates: Vec<FileRecord>,
    /// Files that could not be sampled.
    pub failures: Vec<PathIssue>,
}

impl DedupSearch {
    /// A search that has sampled nothing yet.
    pub fn new() -> (s: DedupSearch)
        ensures
            s.ready@.len() == 0,
            s.candidates@.len() == 0,
            s.failures@.len() == 0,
    {
        DedupSearch { ready: Vec::new(), candidates: Vec::new(), failures: Vec::new() }
    }

    /// Takes in what sampling one size bucket gave, as `sort_prefiltered`
    /// sorts it out.
    pub fn record_bucket(&mut self, outcomes: Vec<PrefilterOutcome>)
        ensures
            final(self).ready@ == old(self).ready@ + repeated_entries(exact_of(outcomes@), entry_keys(exact_of(outcomes@))),
            final(self).candidates@ == old(self).candidates@ + repeated_files(partial_of(outcomes@), pair_keys(partial_of(outcomes@))),
            final(self).failures@.map_values(|i: PathIssue| issue_view(i))
                == old(self).failures@.map_values(|i: PathIssue| issue_view(i)) + failed_of(outcomes@),
    {
        let ghost of = self.failures@;
        let (mut exact, mut partial, mut issues) = sort_prefiltered(outcomes);
        let ghost iv = issues@;
        self.ready.append(&mut exact);
        self.candidates.append(&mut partial);
        self.failures.append(&mut issues);
        assert(self.failures@.map_values(|i: PathIssue| issue_view(i))
            =~= of.map_values(|i: PathIssue| issue_view(i)) + iv.map_values(|i: PathIssue| issue_view(i)));
        assert(iv.map_values(|i: PathIssue| issue_view(i)) =~= iv.map_values(|i: PathIssue| (i.path@, i.message@)));
    }

    /// The hashing round: the collector, holding the ready entries and the
    /// failures so far, and the candidates still to hash.
    pub fn start_hashing(self) -> (r: (DedupCollector, Vec<FileRecord>))
        ensures
            r.0.entries@ == self.ready@,
            r.0.failures@ == self.failures@,
            r.0.hashed == 0,
            r.0.total == self.candidates@.len(),
            r.1@ == self.candidates@,
    {
        let total = self.candidates.len();
        (DedupCollector::new(self.ready, self.failures, total), self.candidates)
    }
}

/// The files of the keyed list that have the key, in order.
pub open spec fn files_with_key(kv: Seq<(Seq<char>, FileRecord)>, k: Seq<char>) -> Seq<FileRecord>
    decreases kv.len(),
{
    if kv.len() == 0 {
        Seq::empty()
    } else if kv.last().0 == k {
        files_with_key(kv.drop_last(), k).push(kv.last().1)
    } else {
        files_with_key(kv.drop_last(), k)
    }
}

proof fn lemma_group_index_update(gs: Seq<(Seq<char>, Seq<FileRecord>)>, j: int, x: Seq<FileRecord>, k: Seq<char>)
    requires
        0 <= j < gs.len(),
    ensures
        group_index(gs.update(j, (gs[j].0, x)), k) == group_index(gs, k),
    decreases gs.len(),
{
    let u = gs.update(j, (gs[j].0, x));
    if gs.len() > 0 {
        if j == gs.len() - 1 {
            assert(u.drop_last() =~= gs.drop_last());
        } else {
            assert(u.drop_last() =~= gs.drop_last().update(j, (gs[j].0, x)));
            lemma_group_index_update(gs.drop_last(), j, x, k);
        }
    }
}

proof fn lemma_grouped_complete(kv: Seq<(Seq<char>, FileRecord)>, k: Seq<char>)
    ensures
        (group_index(grouped(kv), k) >= 0) == (files_with_key(kv, k).len() > 0),
        group_index(grouped(kv), k) >= 0 ==> grouped(kv)[group_index(grouped(kv), k)] == (k, files_with_key(kv, k)),
    decreases kv.len(),
{
    lemma_group_index(grouped(kv), k);
    if kv.len() > 0 {
        let prev = kv.drop_last();
        lemma_grouped_complete(prev, k);
        let gs = grouped(prev);
        let k2 = kv.last().0;
        let f = kv.last().1;
        lemma_group_index(gs, k);
        lemma_group_index(gs, k2);
        let j = group_index(gs, k2);
        let i = group_index(gs, k);
        assert(grouped(kv) == group_step(gs, k2, f));
        if j >= 0 {
            lemma_group_index_update(gs, j, gs[j].1.push(f), k);
            assert(gs[j].0 == k2);
            if k2 == k {
                assert(i == j);
            } else {
                assert(i != j || i < 0);
            }
        } else {
            let p = gs.push((k2, seq![f]));
            assert(p.drop_last() =~= gs);
            if k2 == k {
                assert(files_with_key(prev, k).len() == 0);
                assert(files_with_key(prev, k) =~= Seq::<FileRecord>::empty());
                assert(files_with_key(kv, k) =~= seq![f]);
            }
        }
    }
}

/// Every shared hash is reported: where two files or more of the hashed
/// ones have a hash, a duplicate group of that hash holds exactly those
/// files, in the order they were hashed.
pub proof fn law_hashed_files_land_in_their_group(entries: Seq<HashedFileEntry>, h: Seq<char>)
    requires
        files_with_key(entries_keyed(entries), h).len() >= 2,
    ensures
        exists|i: int|
            0 <= i < duplicate_groups(grouped(entries_keyed(entries))).len()
                && (#[trigger] duplicate_groups(grouped(entries_keyed(entries)))[i]).0 == h
                && duplicate_groups(grouped(entries_keyed(entries)))[i].3 == files_with_key(entries_keyed(entries), h),
{
    let kv = entries_keyed(entries);
    let gs = grouped(kv);
    lemma_grouped_complete(kv, h);
    lemma_group_index(gs, h);
    let gi = group_index(gs, h);
    let g = gs[gi];
    let pred = |g: (Seq<char>, Seq<FileRecord>)| g.1.len() >= 2;
    let filtered = gs.filter(pred);
    let mapped = filtered.map_values(|g: (Seq<char>, Seq<FileRecord>)| dup_of(g));
    gs.lemma_filter_contains(pred, gi);
    let m = choose|m: int| 0 <= m < filtered.len() && filtered[m] == g;
    assert(mapped[m] == dup_of(g));
    assert(mapped.contains(dup_of(g)));
    let sorted = stable_sort(mapped, dup_first());
    assert(sorted == duplicate_groups(gs));
    crate::sorting::lemma_stable_sort_keeps(mapped, dup_first());
    vstd::seq_lib::to_multiset_contains(mapped, dup_of(g));
    vstd::seq_lib::to_multiset_contains(sorted, dup_of(g));
    assert(sorted.contains(dup_of(g)));
    let i = choose|i: int| 0 <= i < sorted.len() && sorted[i] == dup_of(g);
    assert(sorted[i].0 == h);
}

} // verus!
