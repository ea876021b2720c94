//! The directory scan: which entries the walk skips, and how the walk's
//! findings become a scan result. The walk itself (reading directories and
//! metadata) is done by the caller, which hands each entry over.

use vstd::prelude::*;
use globset::{GlobSet, GlobSetBuilder};
use crate::order::{path_starts_with_exec, same_path_exec};
use crate::paths::{components_of, relative_components, same_path};
use crate::models::{FileRecord, PathIssue, ScanResult, Timestamp};
use crate::analyzer::sizes_sum;
use crate::rules::lower_extension_of;
use crate::paths::lower_extension;
use crate::text::{append_str, chars_of, join, join_exec, owned, string_of, string_views, str_views, strings_of, trim, trim_str, views};

verus! {

#[verifier::external_type_specification]
#[verifier::external_body]
pub struct ExGlobSetBuilder(GlobSetBuilder);

#[verifier::external_type_specification]
#[verifier::external_body]
pub struct ExGlobSet(GlobSet);

/// The glob patterns added to a set builder, in the order they were added.
pub uninterp spec fn builder_globs(b: GlobSetBuilder) -> Seq<Seq<char>>;

/// The glob patterns a compiled set was built from.
pub uninterp spec fn set_globs(s: GlobSet) -> Seq<Seq<char>>;

/// The message of the error `globset::Glob::new` gives for a pattern, or
/// `None` where the pattern parses.
pub uninterp spec fn glob_error(pattern: Seq<char>) -> Option<Seq<char>>;

/// The message of the error `globset::GlobSetBuilder::build` gives for a
/// list of parsed patterns, or `None` where the set compiles.
pub uninterp spec fn glob_set_error(globs: Seq<Seq<char>>) -> Option<Seq<char>>;

/// Whether `globset::GlobSet::is_match` finds the path matched by some of
/// the patterns. The answer depends on the platform the crate is built for:
/// globset reads a backslash in the path as a separator where the target
/// is not a Unix, and as an ordinary character on Unix.
pub uninterp spec fn globs_match(globs: Seq<Seq<char>>, path: Seq<char>) -> bool;

/// `globset::GlobSetBuilder::new`: an empty builder.
#[verifier::external_body]
fn new_glob_builder() -> (b: GlobSetBuilder)
    ensures
        builder_globs(b) == Seq::<Seq<char>>::empty(),
{
    GlobSetBuilder::new()
}

/// `globset::Glob::new` on the pattern, and `globset::GlobSetBuilder::add`
/// of the parsed glob. Claimed: the pattern is added exactly when it
/// parses; otherwise the builder is unchanged and the parse error's message
/// comes back.
#[verifier::external_body]
fn add_glob(b: &mut GlobSetBuilder, pattern: &str) -> (r: Result<(), String>)
    ensures
        match r {
            Ok(()) => glob_error(pattern@) is None
                && builder_globs(*final(b)) == builder_globs(*old(b)).push(pattern@),
            Err(e) => glob_error(pattern@) == Some(e@)
                && builder_globs(*final(b)) == builder_globs(*old(b)),
        },
{
    match globset::Glob::new(pattern) {
        Ok(g) => {
            b.add(g);
            Ok(())
        },
        Err(e) => Err(e.to_string()),
    }
}

/// `globset::GlobSetBuilder::build`. Claimed: the set holds the builder's
/// patterns, and the build fails exactly as named by `glob_set_error`.
#[verifier::external_body]
fn build_glob_set(b: &GlobSetBuilder) -> (r: Result<GlobSet, String>)
    ensures
        match r {
            Ok(s) => glob_set_error(builder_globs(*b)) is None && set_globs(s) == builder_globs(*b),
            Err(e) => glob_set_error(builder_globs(*b)) == Some(e@),
        },
{
    match b.build() {
        Ok(s) => Ok(s),
        Err(e) => Err(e.to_string()),
    }
}

/// `globset::GlobSet::is_match` on a path given as text.
#[verifier::external_body]
fn glob_set_matches(s: &GlobSet, path: &str) -> (r: bool)
    ensures
        r == globs_match(set_globs(*s), path@),
{
    s.is_match(path)
}

/// The patterns every scan skips: version control data, dependency and
/// build directories, editor extensions and application caches.
pub open spec fn builtin_globs() -> Seq<Seq<char>> {
    seq![
        "**/.git/**"@,
        "**/.svn/**"@,
        "**/.hg/**"@,
        "**/node_modules/**"@,
        "**/target/**"@,
        "**/.cargo-target/**"@,
        "**/.vscode/extensions/**"@,
        "**/AppData/Local/Temp/**"@,
        "**/AppData/Local/**/Cache/**"@,
        "**/AppData/Local/**/Caches/**"@,
    ]
}

fn builtin_exclude_patterns() -> (r: Vec<&'static str>)
    ensures
        str_views(r@) == builtin_globs(),
{
    let mut v: Vec<&'static str> = Vec::new();
    v.push("**/.git/**");
    v.push("**/.svn/**");
    v.push("**/.hg/**");
    v.push("**/node_modules/**");
    v.push("**/target/**");
    v.push("**/.cargo-target/**");
    v.push("**/.vscode/extensions/**");
    v.push("**/AppData/Local/Temp/**");
    v.push("**/AppData/Local/**/Cache/**");
    v.push("**/AppData/Local/**/Caches/**");
    assert(str_views(v@) =~= builtin_globs());
    v
}

/// The user's patterns, trimmed, with the blank ones left out.
pub open spec fn kept_patterns(ps: Seq<Seq<char>>) -> Seq<Seq<char>>
    decreases ps.len(),
{
    if ps.len() == 0 {
        Seq::empty()
    } else {
        let rest = kept_patterns(ps.drop_last());
        let t = trim(ps.last());
        if t.len() == 0 {
            rest
        } else {
            rest.push(t)
        }
    }
}

/// Every pattern a scan with these user patterns skips by.
pub open spec fn exclude_globs(patterns: Seq<Seq<char>>) -> Seq<Seq<char>> {
    builtin_globs() + kept_patterns(patterns)
}

/// The parse error of the first pattern that does not parse.
pub open spec fn first_glob_error(gs: Seq<Seq<char>>) -> Option<Seq<char>>
    decreases gs.len(),
{
    if gs.len() == 0 {
        None
    } else {
        match first_glob_error(gs.drop_last()) {
            Some(e) => Some(e),
            None => glob_error(gs.last()),
        }
    }
}

proof fn lemma_first_glob_error_prefix(gs: Seq<Seq<char>>, k: int)
    requires
        0 <= k <= gs.len(),
        first_glob_error(gs.take(k)) is Some,
    ensures
        first_glob_error(gs) == first_glob_error(gs.take(k)),
    decreases gs.len() - k,
{
    if k < gs.len() {
        assert(gs.take(k + 1).drop_last() =~= gs.take(k));
        lemma_first_glob_error_prefix(gs, k + 1);
    } else {
        assert(gs.take(k) =~= gs);
    }
}

fn kept_user_patterns(patterns: &[String]) -> (r: Vec<String>)
    ensures
        string_views(r@) == kept_patterns(string_views(patterns@)),
{
    let mut out: Vec<String> = Vec::new();
    let mut i: usize = 0;
    while i < patterns.len()
        invariant
            i <= patterns@.len(),
            string_views(out@) == kept_patterns(string_views(patterns@).take(i as int)),
        decreases patterns@.len() - i,
    {
        let ghost before = out@;
        let ghost t1 = string_views(patterns@).take(i + 1);
        assert(t1.drop_last() =~= string_views(patterns@).take(i as int));
        assert(t1.last() == patterns@[i as int]@);
        let t = trim_str(patterns[i].as_str());
        if t.len() > 0 {
            let s = string_of(t.as_slice());
            out.push(s);
            assert(string_views(out@) =~= string_views(before).push(t@));
        }
        i += 1;
    }
    assert(string_views(patterns@).take(patterns@.len() as int) =~= string_views(patterns@));
    out
}

/// The matcher of the patterns a scan skips: the built-in patterns, then
/// the user's patterns, trimmed, blank ones left out. Fails with the parse
/// error of the first pattern that does not parse, or with the error of
/// compiling the set.
pub fn build_exclude_matcher(patterns: &[String]) -> (r: Result<GlobSet, String>)
    ensures
        ({
            let gs = exclude_globs(string_views(patterns@));
            match first_glob_error(gs) {
                Some(e) => r matches Err(m) && m@ == e,
                None => match glob_set_error(gs) {
                    Some(e) => r matches Err(m) && m@ == e,
                    None => r matches Ok(s) && set_globs(s) == gs,
                },
            }
        }),
{
    let builtin = builtin_exclude_patterns();
    let mut all = strings_of(builtin.as_slice());
    let user = kept_user_patterns(patterns);
    let ghost gs = exclude_globs(string_views(patterns@));
    let mut i: usize = 0;
    let n = all.len();
    while i < user.len()
        invariant
            n == builtin_globs().len(),
            i <= user@.len(),
            string_views(all@) == builtin_globs() + string_views(user@).take(i as int),
        decreases user@.len() - i,
    {
        let ghost before = all@;
        all.push(user[i].clone());
        assert(string_views(user@).take(i + 1) =~= string_views(user@).take(i as int).push(user@[i as int]@));
        assert(string_views(all@) =~= string_views(before).push(user@[i as int]@));
        i += 1;
    }
    assert(string_views(user@).take(user@.len() as int) =~= string_views(user@));
    assert(string_views(all@) == gs);
    let mut b = new_glob_builder();
    let mut k: usize = 0;
    while k < all.len()
        invariant
            k <= all@.len(),
            gs == exclude_globs(string_views(patterns@)),
            string_views(all@) == gs,
            builder_globs(b) == gs.take(k as int),
            first_glob_error(gs.take(k as int)) is None,
        decreases all@.len() - k,
    {
        let added = add_glob(&mut b, all[k].as_str());
        assert(gs.take(k + 1).drop_last() =~= gs.take(k as int));
        assert(gs.take(k + 1).last() == all@[k as int]@);
        match added {
            Ok(()) => {
                assert(builder_globs(b) =~= gs.take(k + 1));
            },
            Err(e) => {
                proof {
                    assert(first_glob_error(gs.take(k + 1)) == Some(e@));
                    lemma_first_glob_error_prefix(gs, k + 1);
                }
                return Err(e);
            },
        }
        k += 1;
    }
    assert(gs.take(all@.len() as int) =~= gs);
    build_glob_set(&b)
}

/// `Path::strip_prefix` of `root`, as text with `/` between components.
pub open spec fn relative_text(path: Seq<char>, root: Seq<char>) -> Option<Seq<char>> {
    match relative_components(path, root) {
        Some(c) => Some(join(c, seq!['/'])),
        None => None,
    }
}

/// Whether the walk skips an entry: never the root itself; otherwise when
/// a pattern matches the full path or the path relative to the root.
pub open spec fn excluded(path: Seq<char>, root: Seq<char>, globs: Seq<Seq<char>>) -> bool {
    !same_path(path, root) && (globs_match(globs, path) || match relative_text(path, root) {
        Some(t) => globs_match(globs, t),
        None => false,
    })
}

/// Whether the walk skips the entry at `path` under `root`.
pub fn is_excluded(path: &str, root: &str, matcher: &GlobSet) -> (r: bool)
    ensures
        r == excluded(path@, root@, set_globs(*matcher)),
{
    if same_path_exec(path, root) {
        return false;
    }
    if glob_set_matches(matcher, path) {
        return true;
    }
    if !path_starts_with_exec(path, root) {
        return false;
    }
    let cp = components_of(path);
    let cb = components_of(root);
    let mut rel: Vec<Vec<char>> = Vec::new();
    let mut i: usize = cb.len();
    while i < cp.len()
        invariant
            cb@.len() <= i <= cp@.len(),
            views(rel@) == views(cp@).subrange(cb@.len() as int, i as int),
        decreases cp@.len() - i,
    {
        let ghost before = rel@;
        rel.push(crate::text::copy_chars(cp[i].as_slice()));
        assert(views(rel@) =~= views(before).push(cp@[i as int]@));
        assert(views(cp@).subrange(cb@.len() as int, i + 1) =~= views(cp@).subrange(cb@.len() as int, i as int).push(cp@[i as int]@));
        i += 1;
    }
    let mut sep: Vec<char> = Vec::new();
    sep.push('/');
    let text = join_exec(&rel, sep.as_slice());
    let s = string_of(text.as_slice());
    assert(sep@ =~= seq!['/']);
    glob_set_matches(matcher, s.as_str())
}

/// Options of a scan: patterns of entries to skip besides the built-in
/// ones.
#[derive(Clone, Debug)]
pub struct ScanOptions {
    pub exclude_patterns: Vec<String>,
}

impl Default for ScanOptions {
    fn default() -> (r: ScanOptions)
        ensures
            r.exclude_patterns@.len() == 0,
    {
        ScanOptions { exclude_patterns: Vec::new() }
    }
}

/// Progress of a scan: the phase (`walking` or `done`), the counts so far
/// and the entry being looked at.
#[derive(Clone, Debug)]
pub struct ScanProgress {
    pub phase: String,
    pub files_found: usize,
    pub dirs_visited: usize,
    pub bytes_found: u64,
    pub current_path: Option<String>,
}

/// What the walk found at one entry.
#[derive(Debug)]
pub enum WalkEntry {
    /// A regular file, with its length and modification time where known.
    File { path: String, size: u64, modified_at: Option<Timestamp> },
    /// A directory; `listing` says whether it has no entries, or why it
    /// could not be read.
    Directory { path: String, listing: Result<bool, String> },
    /// Anything else (a link, a device).
    Other { path: String },
    /// An entry whose metadata could not be read.
    MetadataFailed { path: String, message: String },
    /// An entry the walk itself could not reach.
    WalkFailed { path: Option<String>, message: String },
}

/// The text of an optional string.
pub open spec fn text_of(o: Option<String>) -> Option<Seq<char>> {
    match o {
        Some(s) => Some(s@),
        None => None,
    }
}

/// How many entries pass between two progress reports.
pub const PROGRESS_EVERY: u64 = 100;

/// The findings of a walk so far.
#[derive(Debug)]
pub struct ScanWalk {
    pub files: Vec<FileRecord>,
    pub empty_dirs: Vec<String>,
    pub failures: Vec<PathIssue>,
    pub dirs_visited: usize,
    pub bytes_found: u64,
    pub entries_seen: u64,
}

fn prefixed(lit: &str, s: &str) -> (r: String)
    ensures
        r@ == lit@ + s@,
{
    let mut v = chars_of(lit);
    append_str(&mut v, s);
    string_of(v.as_slice())
}

/// What `ScanWalk::record` may be handed without overflowing its counters.
pub open spec fn recordable(w: &ScanWalk, entry: &WalkEntry) -> bool {
    &&& w.entries_seen < u64::MAX
    &&& (entry matches WalkEntry::File { size, .. } ==> w.bytes_found + *size <= u64::MAX)
    &&& (entry matches WalkEntry::Directory { .. } ==> w.dirs_visited < usize::MAX)
}

/// The bytes found are the total size of the files found.
pub open spec fn counts_files(w: &ScanWalk) -> bool {
    w.bytes_found == sizes_sum(w.files@)
}

/// The progress report after an entry, every `PROGRESS_EVERY` entries.
pub open spec fn reports_progress(w: &ScanWalk, entry: &WalkEntry) -> bool {
    !(entry is WalkFailed) && w.entries_seen % PROGRESS_EVERY == 0
}

/// One entry taken in by the walk: the state `o` becomes `f`, and the
/// progress report, if any, is `progress`. A file is recorded with its
/// lower-cased extension; an empty directory is listed; a directory that
/// cannot be read, an entry without metadata and an unreachable entry
/// become failures (the last under `root` where the walk gives no path).
/// Every entry but an unreachable one is counted, and each hundredth brings
/// a progress report.
pub open spec fn walk_step(o: ScanWalk, root: Seq<char>, entry: WalkEntry, f: ScanWalk, progress: Option<ScanProgress>) -> bool {
    &&& match entry {
        WalkEntry::File { path, size, modified_at } => {
            &&& f.files@.len() == o.files@.len() + 1
            &&& f.files@.take(o.files@.len() as int) == o.files@
            &&& f.files@.last().path == path
            &&& f.files@.last().size == size
            &&& text_of(f.files@.last().extension) == lower_extension(path@)
            &&& f.files@.last().modified_at == modified_at
            &&& f.files@.last().is_empty == (size == 0)
            &&& f.bytes_found == o.bytes_found + size
            &&& f.empty_dirs@ == o.empty_dirs@ && f.failures@ == o.failures@
            &&& f.dirs_visited == o.dirs_visited
        },
        WalkEntry::Directory { path, listing } => {
            &&& f.dirs_visited == o.dirs_visited + 1
            &&& f.files@ == o.files@ && f.bytes_found == o.bytes_found
            &&& match listing {
                Ok(empty) => {
                    &&& f.failures@ == o.failures@
                    &&& f.empty_dirs@ == (if empty { o.empty_dirs@.push(path) } else { o.empty_dirs@ })
                },
                Err(message) => {
                    &&& f.empty_dirs@ == o.empty_dirs@
                    &&& f.failures@.len() == o.failures@.len() + 1
                    &&& f.failures@.take(o.failures@.len() as int) == o.failures@
                    &&& f.failures@.last().path == path
                    &&& f.failures@.last().message@ == "failed to read directory: "@ + message@
                },
            }
        },
        WalkEntry::Other { .. } => {
            &&& f.files@ == o.files@ && f.empty_dirs@ == o.empty_dirs@ && f.failures@ == o.failures@
            &&& f.dirs_visited == o.dirs_visited && f.bytes_found == o.bytes_found
        },
        WalkEntry::MetadataFailed { path, message } => {
            &&& f.files@ == o.files@ && f.empty_dirs@ == o.empty_dirs@
            &&& f.dirs_visited == o.dirs_visited && f.bytes_found == o.bytes_found
            &&& f.failures@.len() == o.failures@.len() + 1
            &&& f.failures@.take(o.failures@.len() as int) == o.failures@
            &&& f.failures@.last().path == path
            &&& f.failures@.last().message@ == "failed to read metadata: "@ + message@
        },
        WalkEntry::WalkFailed { path, message } => {
            &&& f.files@ == o.files@ && f.empty_dirs@ == o.empty_dirs@
            &&& f.dirs_visited == o.dirs_visited && f.bytes_found == o.bytes_found
            &&& f.failures@.len() == o.failures@.len() + 1
            &&& f.failures@.take(o.failures@.len() as int) == o.failures@
            &&& f.failures@.last().path@ == (match path {
                Some(p) => p@,
                None => root,
            })
            &&& f.failures@.last().message == message
        },
    }
    &&& f.entries_seen == (if entry is WalkFailed { o.entries_seen } else { (o.entries_seen + 1) as u64 })
    &&& match progress {
        Some(p) => {
            &&& reports_progress(&f, &entry)
            &&& p.phase@ == "walking"@
            &&& p.files_found == f.files@.len()
            &&& p.dirs_visited == f.dirs_visited
            &&& p.bytes_found == f.bytes_found
            &&& text_of(p.current_path) == Some(entry_path(&entry))
        },
        None => !reports_progress(&f, &entry),
    }
    &&& (counts_files(&o) ==> counts_files(&f))
}

impl ScanWalk {
    /// A walk that has found nothing yet.
    pub fn new() -> (w: ScanWalk)
        ensures
            w.files@.len() == 0,
            w.empty_dirs@.len() == 0,
            w.failures@.len() == 0,
            w.dirs_visited == 0,
            w.bytes_found == 0,
            w.entries_seen == 0,
            counts_files(&w),
    {
        ScanWalk {
            files: Vec::new(),
            empty_dirs: Vec::new(),
            failures: Vec::new(),
            dirs_visited: 0,
            bytes_found: 0,
            entries_seen: 0,
        }
    }

    /// Takes in one entry of the walk, as [`walk_step`] says.
    pub fn record(&mut self, root: &str, entry: WalkEntry) -> (progress: Option<ScanProgress>)
        requires
            recordable(old(self), &entry),
        ensures
            walk_step(*old(self), root@, entry, *final(self), progress),
    {
        let ghost before = self.files@;
        let ghost old_failures = self.failures@;
        let ghost old_dirs = self.empty_dirs@;
        let (reached, path) = match entry {
            WalkEntry::File { path, size, modified_at } => {
                let extension = match lower_extension_of(path.as_str()) {
                    Some(e) => Some(string_of(e.as_slice())),
                    None => None,
                };
                let shown = path.clone();
                self.bytes_found = self.bytes_found + size;
                self.files.push(FileRecord {
                    path,
                    size,
                    extension,
                    modified_at,
                    is_empty: size == 0,
                });
                assert(self.files@.drop_last() =~= before);
                assert(self.files@.take(before.len() as int) =~= before);
                (true, shown)
            },
            WalkEntry::Directory { path, listing } => {
                self.dirs_visited = self.dirs_visited + 1;
                let shown = path.clone();
                match listing {
                    Ok(empty) => {
                        if empty {
                            self.empty_dirs.push(path);
                        }
                    },
                    Err(message) => {
                        let text = prefixed("failed to read directory: ", message.as_str());
                        self.failures.push(PathIssue { path, message: text });
                        assert(self.failures@.take(old_failures.len() as int) =~= old_failures);
                    },
                }
                (true, shown)
            },
            WalkEntry::Other { path } => (true, path),
            WalkEntry::MetadataFailed { path, message } => {
                let shown = path.clone();
                let text = prefixed("failed to read metadata: ", message.as_str());
                self.failures.push(PathIssue { path, message: text });
                assert(self.failures@.take(old_failures.len() as int) =~= old_failures);
                (true, shown)
            },
            WalkEntry::WalkFailed { path, message } => {
                let at = match path {
                    Some(p) => p,
                    None => owned(root),
                };
                let shown = at.clone();
                self.failures.push(PathIssue { path: at, message });
                assert(self.failures@.take(old_failures.len() as int) =~= old_failures);
                (false, shown)
            },
        };
        if !reached {
            return None;
        }
        self.entries_seen = self.entries_seen + 1;
        if self.entries_seen % PROGRESS_EVERY == 0 {
            Some(ScanProgress {
                phase: owned("walking"),
                files_found: self.files.len(),
                dirs_visited: self.dirs_visited,
                bytes_found: self.bytes_found,
                current_path: Some(path),
            })
        } else {
            None
        }
    }

    /// Takes in one entry of the walk unless the scan was cancelled, in
    /// which case nothing is taken in and the scan fails.
    pub fn record_checked(&mut self, root: &str, entry: WalkEntry, cancelled: bool) -> (r: Result<Option<ScanProgress>, String>)
        requires
            recordable(old(self), &entry),
        ensures
            cancelled ==> (r matches Err(m) && m@ == "scan cancelled by user"@ && *final(self) == *old(self)),
            !cancelled ==> (r matches Ok(p) && walk_step(*old(self), root@, entry, *final(self), p)),
    {
        if cancelled {
            return Err(cancelled_scan_message());
        }
        Ok(self.record(root, entry))
    }

    /// The end of the walk: the final progress report (phase `done`, no
    /// current entry) and the scan result, which keeps everything found.
    pub fn finish(self, root: &str) -> (r: (ScanProgress, ScanResult))
        ensures
            r.0.phase@ == "done"@,
            r.0.files_found == self.files@.len(),
            r.0.dirs_visited == self.dirs_visited,
            r.0.bytes_found == self.bytes_found,
            r.0.current_path is None,
            r.1.root@ == root@,
            r.1.files@ == self.files@,
            r.1.empty_dirs@ == self.empty_dirs@,
            r.1.failures@ == self.failures@,
    {
        let progress = ScanProgress {
            phase: owned("done"),
            files_found: self.files.len(),
            dirs_visited: self.dirs_visited,
            bytes_found: self.bytes_found,
            current_path: None,
        };
        (progress, ScanResult {
            root: owned(root),
            files: self.files,
            empty_dirs: self.empty_dirs,
            failures: self.failures,
        })
    }
}

/// The path an entry is reported under in progress.
pub open spec fn entry_path(entry: &WalkEntry) -> Seq<char> {
    match entry {
        WalkEntry::File { path, .. } => path@,
        WalkEntry::Directory { path, .. } => path@,
        WalkEntry::Other { path } => path@,
        WalkEntry::MetadataFailed { path, .. } => path@,
        WalkEntry::WalkFailed { path, .. } => match path {
            Some(p) => p@,
            None => Seq::empty(),
        },
    }
}

/// Why a scan cannot start at `root`: it must exist and be a directory.
pub fn check_scan_root(root: &str, exists: bool, is_dir: bool) -> (r: Result<(), String>)
    ensures
        match r {
            Ok(()) => exists && is_dir,
            Err(m) => if !exists {
                m@ == "scan path does not exist: "@ + root@
            } else {
                !is_dir && m@ == "scan path is not a directory: "@ + root@
            },
        },
{
    if !exists {
        return Err(prefixed("scan path does not exist: ", root));
    }
    if !is_dir {
        return Err(prefixed("scan path is not a directory: ", root));
    }
    Ok(())
}

/// The error of a scan that was cancelled.
pub fn cancelled_scan_message() -> (r: String)
    ensures
        r@ == "scan cancelled by user"@,
{
    owned("scan cancelled by user")
}

} // verus!
