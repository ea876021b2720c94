//! What the remote advisor is told about a directory: its size, its
//! largest entries and kinds of files, samples of its temporary, archive
//! and duplicate files, and what the local rules make of it.

use vstd::prelude::*;
use crate::analyzer::{copy_record, lemma_sizes_sum_prefix, size_first, sizes_sum, sort_by_size, sum_sizes};
use crate::insight::{build_local_directory_insight, count_under, count_under_exec, dup_under, local_dir_insight};
use crate::models::{DuplicateGroup, FileAiInsight, FileRecord, ScanReport, SuggestedAction};
use crate::order::{path_starts_with_exec, same_path_exec, text_order_exec};
use crate::paths::{components, components_of, path_starts_with, relative_components, same_path, text_order};
use crate::sorting::{at_most, slot, stable_sort};
use crate::text::{
    chars_of, eq_chars, join, join_exec, lower, owned, replace_char, replace_char_exec, string_of, to_lower, views,
};

verus! {

/// A path as the advisor is shown it: below `base` where it lies there,
/// else whole, with slashes between components.
pub open spec fn shown_path(base: Seq<char>, path: Seq<char>) -> Seq<char> {
    match relative_components(path, base) {
        Some(c) => if c.len() > 0 {
            join(c, seq!['/'])
        } else {
            replace_char(path, '\\', '/')
        },
        None => replace_char(path, '\\', '/'),
    }
}

/// `path_relative_to`: the path below `base`, else the whole path, with
/// slashes.
pub fn path_relative_to(base: &str, path: &str) -> (r: String)
    ensures
        r@ == shown_path(base@, path@),
{
    if path_starts_with_exec(path, base) {
        let cp = components_of(path);
        let cb = components_of(base);
        if cp.len() > cb.len() {
            let mut rel: Vec<Vec<char>> = Vec::new();
            let mut i: usize = cb.len();
            while i < cp.len()
                invariant
                    cb@.len() <= i <= cp@.len(),
                    views(rel@) == views(cp@).subrange(cb@.len() as int, i as int),
                decreases cp@.len() - i,
            {
                let ghost before = rel@;
                rel.push(crate::text::copy_chars(cp[i].as_slice()));
                assert(views(rel@) =~= views(before).push(cp@[i as int]@));
                assert(views(cp@).subrange(cb@.len() as int, i + 1) =~= views(cp@).subrange(cb@.len() as int, i as int).push(cp@[i as int]@));
                i += 1;
            }
            let mut sep: Vec<char> = Vec::new();
            sep.push('/');
            assert(sep@ =~= seq!['/']);
            let j = join_exec(&rel, sep.as_slice());
            return string_of(j.as_slice());
        }
    }
    let r = replace_char_exec(chars_of(path).as_slice(), '\\', '/');
    string_of(r.as_slice())
}

/// The first component of a file's path below the directory, and whether
/// more follow it (it is then a subdirectory).
pub open spec fn child_of(path: Seq<char>, dir: Seq<char>) -> Option<(Seq<char>, bool)> {
    match relative_components(path, dir) {
        Some(c) => if c.len() > 0 {
            Some((c[0], c.len() > 1))
        } else {
            None
        },
        None => None,
    }
}

/// A row per entry directly below the directory: its name, whether it is
/// a directory, and the number and size of the files in it.
pub open spec fn child_slot(t: Seq<(Seq<char>, bool, int, int)>, name: Seq<char>) -> int
    decreases t.len(),
{
    if t.len() == 0 {
        -1
    } else if t.last().0 == name {
        t.len() - 1
    } else {
        child_slot(t.drop_last(), name)
    }
}

pub open spec fn child_step(t: Seq<(Seq<char>, bool, int, int)>, name: Seq<char>, nested: bool, size: int) -> Seq<(Seq<char>, bool, int, int)> {
    let j = child_slot(t, name);
    if j < 0 {
        t.push((name, nested, 1, size))
    } else {
        t.update(j, (name, t[j].1 || nested, t[j].2 + 1, t[j].3 + size))
    }
}

/// The entries directly below the directory that its files lie in.
pub open spec fn children(files: Seq<FileRecord>, dir: Seq<char>) -> Seq<(Seq<char>, bool, int, int)>
    decreases files.len(),
{
    if files.len() == 0 {
        Seq::empty()
    } else {
        let t = children(files.drop_last(), dir);
        match child_of(files.last().path@, dir) {
            Some((name, nested)) => child_step(t, name, nested, files.last().size as int),
            None => t,
        }
    }
}

/// Directories first, then larger entries, then by name.
pub open spec fn child_first() -> spec_fn((Seq<char>, bool, int, int), (Seq<char>, bool, int, int)) -> bool {
    |a: (Seq<char>, bool, int, int), b: (Seq<char>, bool, int, int)|
        (a.1 && !b.1) || (a.1 == b.1 && (a.3 > b.3 || (a.3 == b.3 && text_order(a.0, b.0) <= 0)))
}

/// An entry directly below a directory.
#[derive(Clone, Debug)]
pub struct ChildSummary {
    pub name: String,
    pub is_directory: bool,
    pub file_count: usize,
    pub total_size: u64,
}

pub open spec fn child_view(c: ChildSummary) -> (Seq<char>, bool, int, int) {
    (c.name@, c.is_directory, c.file_count as int, c.total_size as int)
}

pub open spec fn child_views(s: Seq<ChildSummary>) -> Seq<(Seq<char>, bool, int, int)> {
    s.map_values(|c: ChildSummary| child_view(c))
}

proof fn lemma_child_slot(t: Seq<(Seq<char>, bool, int, int)>, name: Seq<char>)
    ensures
        -1 <= child_slot(t, name) < t.len(),
        child_slot(t, name) >= 0 ==> t[child_slot(t, name)].0 == name,
    decreases t.len(),
{
    if t.len() > 0 && t.last().0 != name {
        lemma_child_slot(t.drop_last(), name);
    }
}

proof fn lemma_children_bounds(files: Seq<FileRecord>, dir: Seq<char>)
    ensures
        forall|j: int| 0 <= j < children(files, dir).len() ==> 0 <= #[trigger] children(files, dir)[j].3 <= sizes_sum(files)
            && 0 < children(files, dir)[j].2 <= files.len(),
    decreases files.len(),
{
    if files.len() > 0 {
        let prev = files.drop_last();
        lemma_children_bounds(prev, dir);
        lemma_sizes_sum_prefix(prev, 0);
        let t = children(prev, dir);
        match child_of(files.last().path@, dir) {
            Some((name, nested)) => {
                lemma_child_slot(t, name);
                let j0 = child_slot(t, name);
                assert forall|j: int| 0 <= j < children(files, dir).len() implies 0 <= #[trigger] children(files, dir)[j].3 <= sizes_sum(files)
                    && 0 < children(files, dir)[j].2 <= files.len() by {
                    if j0 >= 0 {
                        if j != j0 {
                            assert(children(files, dir)[j] == t[j]);
                        }
                    } else if j < t.len() {
                        assert(children(files, dir)[j] == t[j]);
                    }
                }
            },
            None => {},
        }
    }
}

fn child_of_exec(path: &str, dir: &str) -> (r: Option<(Vec<char>, bool)>)
    ensures
        match r {
            Some((n, nested)) => child_of(path@, dir@) == Some((n@, nested)),
            None => child_of(path@, dir@) is None,
        },
{
    if !path_starts_with_exec(path, dir) {
        return None;
    }
    let cp = components_of(path);
    let cb = components_of(dir);
    if cp.len() <= cb.len() {
        proof {
            let c = components(path@).subrange(components(dir@).len() as int, components(path@).len() as int);
            assert(c.len() == 0);
        }
        return None;
    }
    let name = crate::text::copy_chars(cp[cb.len()].as_slice());
    let nested = cp.len() > cb.len() + 1;
    proof {
        let c = components(path@).subrange(components(dir@).len() as int, components(path@).len() as int);
        assert(views(cp@)[cb@.len() as int] == cp@[cb@.len() as int]@);
        assert(c[0] == views(cp@)[cb@.len() as int]);
    }
    Some((name, nested))
}

/// `summarize_directory_children`: the entries directly below the
/// directory, directories first, then larger ones, then by name, at most
/// `limit`.
pub fn summarize_directory_children(dir: &str, files: &Vec<FileRecord>, limit: usize) -> (r: Vec<ChildSummary>)
    requires
        sizes_sum(files@) <= u64::MAX,
    ensures
        child_views(r@) == at_most(stable_sort(children(files@, dir@), child_first()), limit as int),
{
    let ghost fs = files@;
    let mut table: Vec<ChildSummary> = Vec::new();
    let mut i: usize = 0;
    while i < files.len()
        invariant
            i <= fs.len(),
            fs == files@,
            sizes_sum(fs) <= u64::MAX,
            child_views(table@) == children(fs.take(i as int), dir@),
        decreases fs.len() - i,
    {
        let ghost t = child_views(table@);
        assert(fs.take(i + 1).drop_last() =~= fs.take(i as int));
        assert(fs.take(i + 1).last() == fs[i as int]);
        proof {
            lemma_children_bounds(fs.take(i + 1), dir@);
            lemma_sizes_sum_prefix(fs, i + 1);
        }
        match child_of_exec(files[i].path.as_str(), dir) {
            Some((name, nested)) => {
                let size = files[i].size;
                let mut j: usize = table.len();
                proof {
                    assert(t.take(j as int) =~= t);
                }
                while j > 0 && !eq_chars(chars_of(table[j - 1].name.as_str()).as_slice(), name.as_slice())
                    invariant
                        j <= table@.len(),
                        t == child_views(table@),
                        child_slot(t, name@) == child_slot(t.take(j as int), name@),
                    decreases j,
                {
                    assert(t.take(j as int).drop_last() =~= t.take(j - 1));
                    assert(t.take(j as int).last() == child_view(table@[j - 1]));
                    j -= 1;
                }
                let ghost stepped = child_step(t, name@, nested, size as int);
                assert(children(fs.take(i + 1), dir@) == stepped);
                if j == 0 {
                    assert(t.take(0) =~= Seq::<(Seq<char>, bool, int, int)>::empty());
                    table.push(ChildSummary { name: string_of(name.as_slice()), is_directory: nested, file_count: 1, total_size: size });
                    assert(child_views(table@) =~= stepped);
                } else {
                    assert(t.take(j as int).last() == child_view(table@[j - 1]));
                    assert(child_slot(t, name@) == j - 1);
                    assert(stepped[j - 1].3 <= sizes_sum(fs.take(i + 1)));
                    assert(stepped[j - 1].2 <= i + 1);
                    let mut row = ChildSummary { name: String::new(), is_directory: false, file_count: 0, total_size: 0 };
                    table.set_and_swap(j - 1, &mut row);
                    let updated = ChildSummary {
                        name: row.name,
                        is_directory: row.is_directory || nested,
                        file_count: row.file_count + 1,
                        total_size: row.total_size + size,
                    };
                    table.set(j - 1, updated);
                    assert(child_views(table@) =~= stepped);
                }
            },
            None => {},
        }
        i += 1;
    }
    assert(fs.take(fs.len() as int) =~= fs);
    let ghost tv = child_views(table@);
    let n = table.len();
    let mut rest = table;
    let mut out: Vec<ChildSummary> = Vec::new();
    let mut k: usize = 0;
    while k < n
        invariant
            k <= n,
            n == tv.len(),
            rest@.len() == n,
            forall|m: int| k <= m < n ==> #[trigger] child_view(rest@[m]) == tv[m],
            child_views(out@) == stable_sort(tv.take(k as int), child_first()),
        decreases n - k,
    {
        let mut x = ChildSummary { name: String::new(), is_directory: false, file_count: 0, total_size: 0 };
        rest.set_and_swap(k, &mut x);
        let ghost xv = child_view(x);
        assert(xv == tv[k as int]);
        let xn = chars_of(x.name.as_str());
        let mut j: usize = out.len();
        let ghost ov = child_views(out@);
        assert(ov.take(j as int) =~= ov);
        while j > 0 && !((out[j - 1].is_directory && !x.is_directory)
            || (out[j - 1].is_directory == x.is_directory && (out[j - 1].total_size > x.total_size
                || (out[j - 1].total_size == x.total_size
                    && text_order_exec(chars_of(out[j - 1].name.as_str()).as_slice(), xn.as_slice()) <= 0))))
            invariant
                j <= out@.len(),
                ov == child_views(out@),
                xv == child_view(x),
                xn@ == x.name@,
                slot(ov, xv, child_first()) == slot(ov.take(j as int), xv, child_first()),
            decreases j,
        {
            assert(ov.take(j as int).drop_last() =~= ov.take(j - 1));
            assert(ov.take(j as int).last() == child_view(out@[j - 1]));
            j -= 1;
        }
        assert(ov.take(j as int).len() == j);
        assert(tv.take(k + 1).drop_last() =~= tv.take(k as int));
        assert(tv.take(k + 1).last() == xv);
        out.insert(j, x);
        assert(child_views(out@) =~= ov.insert(j as int, xv));
        k += 1;
    }
    assert(tv.take(n as int) =~= tv);
    let ghost sorted = child_views(out@);
    if out.len() > limit {
        out.truncate(limit);
    }
    assert(child_views(out@) =~= at_most(sorted, limit as int));
    out
}

/// The kind a file is counted under: its extension, lower-cased, or
/// `(none)`.
pub open spec fn ext_key(f: FileRecord) -> Seq<char> {
    match f.extension {
        Some(e) => if lower(e@).len() > 0 {
            lower(e@)
        } else {
            "(none)"@
        },
        None => "(none)"@,
    }
}

pub open spec fn ext_slot(t: Seq<(Seq<char>, int, int)>, k: Seq<char>) -> int
    decreases t.len(),
{
    if t.len() == 0 {
        -1
    } else if t.last().0 == k {
        t.len() - 1
    } else {
        ext_slot(t.drop_last(), k)
    }
}

/// The number and size of the files of each kind.
pub open spec fn ext_table(files: Seq<FileRecord>) -> Seq<(Seq<char>, int, int)>
    decreases files.len(),
{
    if files.len() == 0 {
        Seq::empty()
    } else {
        let t = ext_table(files.drop_last());
        let f = files.last();
        let k = ext_key(f);
        let j = ext_slot(t, k);
        if j < 0 {
            t.push((k, 1, f.size as int))
        } else {
            t.update(j, (k, t[j].1 + 1, t[j].2 + f.size))
        }
    }
}

/// More files first, then larger totals, then by kind.
pub open spec fn ext_first() -> spec_fn((Seq<char>, int, int), (Seq<char>, int, int)) -> bool {
    |a: (Seq<char>, int, int), b: (Seq<char>, int, int)|
        a.1 > b.1 || (a.1 == b.1 && (a.2 > b.2 || (a.2 == b.2 && text_order(a.0, b.0) <= 0)))
}

/// The files of one kind below a directory.
#[derive(Clone, Debug)]
pub struct ExtensionSummary {
    pub extension: String,
    pub file_count: usize,
    pub total_size: u64,
}

pub open spec fn ext_view(e: ExtensionSummary) -> (Seq<char>, int, int) {
    (e.extension@, e.file_count as int, e.total_size as int)
}

pub open spec fn ext_views(s: Seq<ExtensionSummary>) -> Seq<(Seq<char>, int, int)> {
    s.map_values(|e: ExtensionSummary| ext_view(e))
}

proof fn lemma_ext_slot(t: Seq<(Seq<char>, int, int)>, k: Seq<char>)
    ensures
        -1 <= ext_slot(t, k) < t.len(),
        ext_slot(t, k) >= 0 ==> t[ext_slot(t, k)].0 == k,
    decreases t.len(),
{
    if t.len() > 0 && t.last().0 != k {
        lemma_ext_slot(t.drop_last(), k);
    }
}

proof fn lemma_ext_bounds(files: Seq<FileRecord>)
    ensures
        forall|j: int| 0 <= j < ext_table(files).len() ==> 0 <= #[trigger] ext_table(files)[j].2 <= sizes_sum(files)
            && 0 < ext_table(files)[j].1 <= files.len(),
    decreases files.len(),
{
    if files.len() > 0 {
        let prev = files.drop_last();
        lemma_ext_bounds(prev);
        lemma_sizes_sum_prefix(prev, 0);
        let t = ext_table(prev);
        let k = ext_key(files.last());
        lemma_ext_slot(t, k);
        let j0 = ext_slot(t, k);
        assert forall|j: int| 0 <= j < ext_table(files).len() implies 0 <= #[trigger] ext_table(files)[j].2 <= sizes_sum(files)
            && 0 < ext_table(files)[j].1 <= files.len() by {
            if j0 >= 0 {
                if j != j0 {
                    assert(ext_table(files)[j] == t[j]);
                }
            } else if j < t.len() {
                assert(ext_table(files)[j] == t[j]);
            }
        }
    }
}

fn ext_key_of(f: &FileRecord) -> (r: Vec<char>)
    ensures
        r@ == ext_key(*f),
{
    match &f.extension {
        Some(e) => {
            let l = to_lower(chars_of(e.as_str()).as_slice());
            if l.len() > 0 {
                l
            } else {
                chars_of("(none)")
            }
        },
        None => chars_of("(none)"),
    }
}

/// `summarize_directory_extensions`: the kinds of files, most files first,
/// then larger totals, then by kind, at most `limit`.
pub fn summarize_directory_extensions(files: &Vec<FileRecord>, limit: usize) -> (r: Vec<ExtensionSummary>)
    requires
        sizes_sum(files@) <= u64::MAX,
    ensures
        ext_views(r@) == at_most(stable_sort(ext_table(files@), ext_first()), limit as int),
{
    let ghost fs = files@;
    let mut table: Vec<ExtensionSummary> = Vec::new();
    let mut i: usize = 0;
    while i < files.len()
        invariant
            i <= fs.len(),
            fs == files@,
            sizes_sum(fs) <= u64::MAX,
            ext_views(table@) == ext_table(fs.take(i as int)),
        decreases fs.len() - i,
    {
        let ghost t = ext_views(table@);
        assert(fs.take(i + 1).drop_last() =~= fs.take(i as int));
        assert(fs.take(i + 1).last() == fs[i as int]);
        proof {
            lemma_ext_bounds(fs.take(i + 1));
            lemma_sizes_sum_prefix(fs, i + 1);
        }
        let key = ext_key_of(&files[i]);
        let size = files[i].size;
        let mut j: usize = table.len();
        proof {
            assert(t.take(j as int) =~= t);
        }
        while j > 0 && !eq_chars(chars_of(table[j - 1].extension.as_str()).as_slice(), key.as_slice())
            invariant
                j <= table@.len(),
                t == ext_views(table@),
                ext_slot(t, key@) == ext_slot(t.take(j as int), key@),
            decreases j,
        {
            assert(t.take(j as int).drop_last() =~= t.take(j - 1));
            assert(t.take(j as int).last() == ext_view(table@[j - 1]));
            j -= 1;
        }
        let ghost stepped = ext_table(fs.take(i + 1));
        if j == 0 {
            assert(t.take(0) =~= Seq::<(Seq<char>, int, int)>::empty());
            table.push(ExtensionSummary { extension: string_of(key.as_slice()), file_count: 1, total_size: size });
            assert(ext_views(table@) =~= stepped);
        } else {
            assert(t.take(j as int).last() == ext_view(table@[j - 1]));
            assert(ext_slot(t, key@) == j - 1);
            assert(stepped[j - 1].2 <= sizes_sum(fs.take(i + 1)));
            assert(stepped[j - 1].1 <= i + 1);
            let mut row = ExtensionSummary { extension: String::new(), file_count: 0, total_size: 0 };
            table.set_and_swap(j - 1, &mut row);
            let updated = ExtensionSummary {
                extension: row.extension,
                file_count: row.file_count + 1,
                total_size: row.total_size + size,
            };
            table.set(j - 1, updated);
            assert(ext_views(table@) =~= stepped);
        }
        i += 1;
    }
    assert(fs.take(fs.len() as int) =~= fs);
    let ghost tv = ext_views(table@);
    let n = table.len();
    let mut rest = table;
    let mut out: Vec<ExtensionSummary> = Vec::new();
    let mut k: usize = 0;
    while k < n
        invariant
            k <= n,
            n == tv.len(),
            rest@.len() == n,
            forall|m: int| k <= m < n ==> #[trigger] ext_view(rest@[m]) == tv[m],
            ext_views(out@) == stable_sort(tv.take(k as int), ext_first()),
        decreases n - k,
    {
        let mut x = ExtensionSummary { extension: String::new(), file_count: 0, total_size: 0 };
        rest.set_and_swap(k, &mut x);
        let ghost xv = ext_view(x);
        assert(xv == tv[k as int]);
        let xe = chars_of(x.extension.as_str());
        let mut j: usize = out.len();
        let ghost ov = ext_views(out@);
        assert(ov.take(j as int) =~= ov);
        while j > 0 && !(out[j - 1].file_count > x.file_count
            || (out[j - 1].file_count == x.file_count && (out[j - 1].total_size > x.total_size
                || (out[j - 1].total_size == x.total_size
                    && text_order_exec(chars_of(out[j - 1].extension.as_str()).as_slice(), xe.as_slice()) <= 0))))
            invariant
                j <= out@.len(),
                ov == ext_views(out@),
                xv == ext_view(x),
                xe@ == x.extension@,
                slot(ov, xv, ext_first()) == slot(ov.take(j as int), xv, ext_first()),
            decreases j,
        {
            assert(ov.take(j as int).drop_last() =~= ov.take(j - 1));
            assert(ov.take(j as int).last() == ext_view(out@[j - 1]));
            j -= 1;
        }
        assert(ov.take(j as int).len() == j);
        assert(tv.take(k + 1).drop_last() =~= tv.take(k as int));
        assert(tv.take(k + 1).last() == xv);
        out.insert(j, x);
        assert(ext_views(out@) =~= ov.insert(j as int, xv));
        k += 1;
    }
    assert(tv.take(n as int) =~= tv);
    let ghost sorted = ext_views(out@);
    if out.len() > limit {
        out.truncate(limit);
    }
    assert(ext_views(out@) =~= at_most(sorted, limit as int));
    out
}

/// The files at or below a directory, in order.
pub open spec fn files_under(files: Seq<FileRecord>, dir: Seq<char>) -> Seq<FileRecord>
    decreases files.len(),
{
    if files.len() == 0 {
        Seq::empty()
    } else if path_starts_with(files.last().path@, dir) {
        files_under(files.drop_last(), dir).push(files.last())
    } else {
        files_under(files.drop_last(), dir)
    }
}

/// The paths of files as shown below a directory.
pub open spec fn shown_paths(files: Seq<FileRecord>, dir: Seq<char>) -> Seq<Seq<char>> {
    files.map_values(|f: FileRecord| shown_path(dir, f.path@))
}

/// The files of all duplicate groups, group after group.
pub open spec fn group_files(groups: Seq<DuplicateGroup>) -> Seq<FileRecord>
    decreases groups.len(),
{
    if groups.len() == 0 {
        Seq::empty()
    } else {
        group_files(groups.drop_last()) + groups.last().files@
    }
}

fn flatten_groups(groups: &Vec<DuplicateGroup>) -> (r: Vec<FileRecord>)
    ensures
        r@ == group_files(groups@),
{
    let mut out: Vec<FileRecord> = Vec::new();
    let mut i: usize = 0;
    while i < groups.len()
        invariant
            i <= groups@.len(),
            out@ == group_files(groups@.take(i as int)),
        decreases groups@.len() - i,
    {
        assert(groups@.take(i + 1).drop_last() =~= groups@.take(i as int));
        assert(groups@.take(i + 1).last() == groups@[i as int]);
        let g = &groups[i];
        let ghost base = out@;
        let mut k: usize = 0;
        while k < g.files.len()
            invariant
                k <= g.files@.len(),
                out@ == base + g.files@.take(k as int),
            decreases g.files@.len() - k,
        {
            out.push(copy_record(&g.files[k]));
            assert(g.files@.take(k + 1) =~= g.files@.take(k as int).push(g.files@[k as int]));
            assert(out@ =~= base + g.files@.take(k + 1));
            k += 1;
        }
        assert(g.files@.take(g.files@.len() as int) =~= g.files@);
        i += 1;
    }
    assert(groups@.take(groups@.len() as int) =~= groups@);
    out
}

fn samples_under(files: &Vec<FileRecord>, dir: &str, limit: usize) -> (r: Vec<String>)
    ensures
        crate::text::string_views(r@) == at_most(shown_paths(files_under(files@, dir@), dir@), limit as int),
{
    let mut out: Vec<String> = Vec::new();
    let ghost mut picked: Seq<FileRecord> = Seq::empty();
    let mut i: usize = 0;
    while i < files.len()
        invariant
            i <= files@.len(),
            picked == files_under(files@.take(i as int), dir@),
            crate::text::string_views(out@) == at_most(shown_paths(picked, dir@), limit as int),
        decreases files@.len() - i,
    {
        assert(files@.take(i + 1).drop_last() =~= files@.take(i as int));
        assert(files@.take(i + 1).last() == files@[i as int]);
        let f = &files[i];
        if path_starts_with_exec(f.path.as_str(), dir) {
            let ghost before = out@;
            if out.len() < limit {
                let shown = path_relative_to(dir, f.path.as_str());
                out.push(shown);
                proof {
                    assert(shown_paths(picked.push(*f), dir@) =~= shown_paths(picked, dir@).push(shown_path(dir@, f.path@)));
                    assert(crate::text::string_views(out@) =~= crate::text::string_views(before).push(shown@));
                }
            } else {
                proof {
                    assert(shown_paths(picked.push(*f), dir@) =~= shown_paths(picked, dir@).push(shown_path(dir@, f.path@)));
                    assert(at_most(shown_paths(picked.push(*f), dir@), limit as int) =~= at_most(shown_paths(picked, dir@), limit as int));
                }
            }
            proof {
                picked = picked.push(*f);
            }
        }
        i += 1;
    }
    assert(files@.take(files@.len() as int) =~= files@);
    out
}

/// One of the largest files, as the advisor is shown it.
#[derive(Clone, Debug)]
pub struct FileSample {
    pub relative_path: String,
    pub size: u64,
    pub extension: Option<String>,
}

/// A sample of a file below a directory.
pub open spec fn sample_of(s: FileSample, f: FileRecord, dir: Seq<char>) -> bool {
    s.relative_path@ == shown_path(dir, f.path@) && s.size == f.size && s.extension == f.extension
}

/// What the advisor is told about a directory.
#[derive(Clone, Debug)]
pub struct DirectoryPayload {
    pub root: String,
    pub target_directory: String,
    pub is_empty_directory: bool,
    pub file_count: usize,
    pub total_size: u64,
    pub top_level_entries: Vec<ChildSummary>,
    pub top_extensions: Vec<ExtensionSummary>,
    pub largest_file_samples: Vec<FileSample>,
    pub temporary_file_count: usize,
    pub temporary_file_samples: Vec<String>,
    pub archive_file_count: usize,
    pub archive_file_samples: Vec<String>,
    pub duplicate_file_count: usize,
    pub duplicate_file_samples: Vec<String>,
    pub local_summary: String,
    pub local_action: String,
}

/// How many samples of each kind: the item budget, kept between 3 and 12.
pub open spec fn sample_limit(max_items: usize) -> int {
    if max_items < 3 {
        3
    } else if max_items > 12 {
        12
    } else {
        max_items as int
    }
}

/// The word of an action as the advisor reads it.
pub open spec fn action_word(a: SuggestedAction) -> Seq<char> {
    match a {
        SuggestedAction::Delete => "delete"@,
        SuggestedAction::Move => "move"@,
        SuggestedAction::Review => "review"@,
        SuggestedAction::Keep => "keep"@,
    }
}

fn action_word_of(a: SuggestedAction) -> (r: &'static str)
    ensures
        r@ == action_word(a),
{
    match a {
        SuggestedAction::Delete => "delete",
        SuggestedAction::Move => "move",
        SuggestedAction::Review => "review",
        SuggestedAction::Keep => "keep",
    }
}

/// `build_directory_ai_payload`: the directory's size, its entries and
/// kinds of files, its largest files, samples and counts of its temporary,
/// archive and duplicate files, and the local rules' summary and action.
pub fn build_directory_ai_payload(
    report: &ScanReport,
    dir: &str,
    files: &Vec<FileRecord>,
    is_known_empty_dir: bool,
    max_items: usize,
) -> (r: DirectoryPayload)
    requires
        sizes_sum(files@) <= u64::MAX,
        dup_under(report.dedup.groups@, dir@) <= usize::MAX,
    ensures
        ({
            let limit = sample_limit(max_items);
            let dups = group_files(report.dedup.groups@);
            let largest = at_most(stable_sort(files@, size_first()), limit);
            &&& r.root == report.root
            &&& r.target_directory@ == dir@
            &&& r.is_empty_directory == is_known_empty_dir
            &&& r.file_count == files@.len()
            &&& r.total_size == sizes_sum(files@)
            &&& child_views(r.top_level_entries@) == at_most(stable_sort(children(files@, dir@), child_first()), limit)
            &&& ext_views(r.top_extensions@) == at_most(stable_sort(ext_table(files@), ext_first()), limit)
            &&& r.largest_file_samples@.len() == largest.len()
            &&& (forall|i: int| 0 <= i < largest.len() ==> sample_of(#[trigger] r.largest_file_samples@[i], largest[i], dir@))
            &&& r.temporary_file_count == count_under(report.analysis.temporary_files@, dir@)
            &&& crate::text::string_views(r.temporary_file_samples@) == at_most(shown_paths(files_under(report.analysis.temporary_files@, dir@), dir@), limit)
            &&& r.archive_file_count == count_under(report.analysis.archive_files@, dir@)
            &&& crate::text::string_views(r.archive_file_samples@) == at_most(shown_paths(files_under(report.analysis.archive_files@, dir@), dir@), limit)
            &&& r.duplicate_file_count == count_under(dups, dir@)
            &&& crate::text::string_views(r.duplicate_file_samples@) == at_most(shown_paths(files_under(dups, dir@), dir@), limit)
            &&& exists|i: FileAiInsight| #[trigger] local_dir_insight(*report, dir@, files@, is_known_empty_dir, i)
                && r.local_summary == i.summary && r.local_action@ == action_word(i.suggested_action)
        }),
{
    let limit: usize = if max_items < 3 { 3 } else if max_items > 12 { 12 } else { max_items };
    let total = sum_sizes(files);
    let sorted = sort_by_size(files);
    let mut largest: Vec<FileSample> = Vec::new();
    let end = if sorted.len() < limit { sorted.len() } else { limit };
    let mut i: usize = 0;
    while i < end
        invariant
            i <= end <= sorted@.len(),
            end == at_most(sorted@, limit as int).len(),
            largest@.len() == i,
            forall|k: int| 0 <= k < i ==> sample_of(#[trigger] largest@[k], sorted@[k], dir@),
        decreases end - i,
    {
        let f = &sorted[i];
        let sample = FileSample {
            relative_path: path_relative_to(dir, f.path.as_str()),
            size: f.size,
            extension: match &f.extension {
                Some(e) => Some(e.clone()),
                None => None,
            },
        };
        largest.push(sample);
        i += 1;
    }
    let dups = flatten_groups(&report.dedup.groups);
    let insight = build_local_directory_insight(report, dir, files, is_known_empty_dir);
    let action = owned(action_word_of(insight.suggested_action));
    proof {
        assert(local_dir_insight(*report, dir@, files@, is_known_empty_dir, insight));
    }
    DirectoryPayload {
        root: report.root.clone(),
        target_directory: owned(dir),
        is_empty_directory: is_known_empty_dir,
        file_count: files.len(),
        total_size: total,
        top_level_entries: summarize_directory_children(dir, files, limit),
        top_extensions: summarize_directory_extensions(files, limit),
        largest_file_samples: largest,
        temporary_file_count: count_under_exec(&report.analysis.temporary_files, dir),
        temporary_file_samples: samples_under(&report.analysis.temporary_files, dir, limit),
        archive_file_count: count_under_exec(&report.analysis.archive_files, dir),
        archive_file_samples: samples_under(&report.analysis.archive_files, dir, limit),
        duplicate_file_count: count_under_exec(&dups, dir),
        duplicate_file_samples: samples_under(&dups, dir, limit),
        local_summary: insight.summary,
        local_action: action,
    }
}

/// Whether a file of the list names the path.
pub open spec fn lists_file(files: Seq<FileRecord>, p: Seq<char>) -> bool {
    exists|i: int| 0 <= i < files.len() && same_path(#[trigger] files[i].path@, p)
}

fn lists_file_exec(files: &Vec<FileRecord>, p: &str) -> (r: bool)
    ensures
        r == lists_file(files@, p@),
{
    let mut i: usize = 0;
    while i < files.len()
        invariant
            i <= files@.len(),
            forall|k: int| 0 <= k < i ==> !same_path(#[trigger] files@[k].path@, p@),
        decreases files@.len() - i,
    {
        if same_path_exec(files[i].path.as_str(), p) {
            return true;
        }
        i += 1;
    }
    false
}

/// The first duplicate group that holds the path, if any.
pub open spec fn group_holding(groups: Seq<DuplicateGroup>, p: Seq<char>) -> int
    decreases groups.len(),
{
    if groups.len() == 0 {
        -1
    } else if group_holding(groups.drop_last(), p) >= 0 {
        group_holding(groups.drop_last(), p)
    } else if lists_file(groups.last().files@, p) {
        groups.len() - 1
    } else {
        -1
    }
}

proof fn lemma_group_holding(groups: Seq<DuplicateGroup>, p: Seq<char>)
    ensures
        -1 <= group_holding(groups, p) < groups.len(),
    decreases groups.len(),
{
    if groups.len() > 0 {
        lemma_group_holding(groups.drop_last(), p);
    }
}

proof fn lemma_group_holding_prefix(groups: Seq<DuplicateGroup>, p: Seq<char>, m: int)
    requires
        0 <= m <= groups.len(),
        group_holding(groups.take(m), p) >= 0,
    ensures
        group_holding(groups, p) == group_holding(groups.take(m), p),
    decreases groups.len() - m,
{
    if m < groups.len() {
        assert(groups.take(m + 1).drop_last() =~= groups.take(m));
        lemma_group_holding_prefix(groups, p, m + 1);
    } else {
        assert(groups.take(m) =~= groups);
    }
}

/// The paths of the other files of a group, in order.
pub open spec fn other_paths(files: Seq<FileRecord>, p: Seq<char>) -> Seq<Seq<char>>
    decreases files.len(),
{
    if files.len() == 0 {
        Seq::empty()
    } else if same_path(files.last().path@, p) {
        other_paths(files.drop_last(), p)
    } else {
        other_paths(files.drop_last(), p).push(files.last().path@)
    }
}

/// How many copies of a file are named to the advisor.
pub const DUPLICATE_PEERS_LIMIT: usize = 5;

/// What the advisor is told of a file's place in the scan: whether it is
/// large, temporary or an archive, and the duplicate group it is in.
#[derive(Clone, Debug)]
pub struct FileAiContext {
    pub is_large_file: bool,
    pub is_temporary_file: bool,
    pub is_archive_file: bool,
    pub duplicate_group_size: usize,
    pub duplicate_peers: Vec<String>,
    pub suggested_keep: Option<String>,
}

/// The context of a file for the advisor.
pub fn file_ai_context(report: &ScanReport, path: &str) -> (r: FileAiContext)
    ensures
        r.is_large_file == lists_file(report.analysis.large_files@, path@),
        r.is_temporary_file == lists_file(report.analysis.temporary_files@, path@),
        r.is_archive_file == lists_file(report.analysis.archive_files@, path@),
        ({
            let gs = report.dedup.groups@;
            let g = group_holding(gs, path@);
            if g < 0 {
                r.duplicate_group_size == 0 && r.duplicate_peers@.len() == 0 && r.suggested_keep is None
            } else {
                &&& r.duplicate_group_size == gs[g].files@.len()
                &&& crate::text::string_views(r.duplicate_peers@) == at_most(other_paths(gs[g].files@, path@), DUPLICATE_PEERS_LIMIT as int)
                &&& r.suggested_keep == gs[g].suggested_keep
            }
        }),
{
    let gs = &report.dedup.groups;
    proof {
        lemma_group_holding(gs@, path@);
    }
    let mut found: Option<usize> = None;
    let mut i: usize = 0;
    while i < gs.len() && found.is_none()
        invariant
            i <= gs@.len(),
            match found {
                None => group_holding(gs@.take(i as int), path@) == -1,
                Some(gi) => gi < gs@.len() && gi == group_holding(gs@, path@),
            },
        decreases gs@.len() - i,
    {
        assert(gs@.take(i + 1).drop_last() =~= gs@.take(i as int));
        assert(gs@.take(i + 1).last() == gs@[i as int]);
        if lists_file_exec(&gs[i].files, path) {
            proof {
                lemma_group_holding_prefix(gs@, path@, i + 1);
            }
            found = Some(i);
        }
        i += 1;
    }
    proof {
        if found is None {
            assert(gs@.take(gs@.len() as int) =~= gs@);
        }
    }
    let large = lists_file_exec(&report.analysis.large_files, path);
    let temporary = lists_file_exec(&report.analysis.temporary_files, path);
    let archive = lists_file_exec(&report.analysis.archive_files, path);
    match found {
        None => FileAiContext {
            is_large_file: large,
            is_temporary_file: temporary,
            is_archive_file: archive,
            duplicate_group_size: 0,
            duplicate_peers: Vec::new(),
            suggested_keep: None,
        },
        Some(gi) => {
            let g = &gs[gi];
            let mut peers: Vec<String> = Vec::new();
            let ghost mut others: Seq<Seq<char>> = Seq::empty();
            let mut k: usize = 0;
            while k < g.files.len()
                invariant
                    k <= g.files@.len(),
                    others == other_paths(g.files@.take(k as int), path@),
                    crate::text::string_views(peers@) == at_most(others, DUPLICATE_PEERS_LIMIT as int),
                decreases g.files@.len() - k,
            {
                assert(g.files@.take(k + 1).drop_last() =~= g.files@.take(k as int));
                assert(g.files@.take(k + 1).last() == g.files@[k as int]);
                let f = &g.files[k];
                if !same_path_exec(f.path.as_str(), path) {
                    let ghost before = peers@;
                    if peers.len() < DUPLICATE_PEERS_LIMIT {
                        peers.push(f.path.clone());
                        assert(crate::text::string_views(peers@) =~= crate::text::string_views(before).push(f.path@));
                    } else {
                        assert(at_most(others.push(f.path@), DUPLICATE_PEERS_LIMIT as int) =~= at_most(others, DUPLICATE_PEERS_LIMIT as int));
                    }
                    proof {
                        others = others.push(f.path@);
                    }
                }
                k += 1;
            }
            assert(g.files@.take(g.files@.len() as int) =~= g.files@);
            FileAiContext {
                is_large_file: large,
                is_temporary_file: temporary,
                is_archive_file: archive,
                duplicate_group_size: g.files.len(),
                duplicate_peers: peers,
                suggested_keep: match &g.suggested_keep {
                    Some(p) => Some(p.clone()),
                    None => None,
                },
            }
        },
    }
}

} // verus!
