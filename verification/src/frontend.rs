//! What the desktop front end is sent: a scan report cut down to what a
//! page shows, progress events, and the state of background scan work.

use vstd::prelude::*;
use crate::advisor::copy_suggestion;
use crate::analyzer::copy_record;
use crate::dedup::DedupProgress;
use crate::models::{
    AnalysisResult, DuplicateGroup, FileRecord, FileSuggestion, PathIssue, ScanModuleSummary, ScanReport, Timestamp,
    TypeStat,
};
use crate::scanner::ScanProgress;
use crate::sorting::at_most;
use crate::text::owned;

verus! {

/// A value that can be copied exactly.
pub trait Duplicate: Sized {
    fn duplicate(&self) -> (r: Self)
        ensures
            r == *self;
}

impl Duplicate for FileRecord {
    fn duplicate(&self) -> (r: Self) {
        copy_record(self)
    }
}

impl Duplicate for String {
    fn duplicate(&self) -> (r: Self) {
        self.clone()
    }
}

impl Duplicate for PathIssue {
    fn duplicate(&self) -> (r: Self) {
        PathIssue { path: self.path.clone(), message: self.message.clone() }
    }
}

impl Duplicate for TypeStat {
    fn duplicate(&self) -> (r: Self) {
        TypeStat { extension: self.extension.clone(), file_count: self.file_count, total_size: self.total_size }
    }
}

impl Duplicate for ScanModuleSummary {
    fn duplicate(&self) -> (r: Self) {
        *self
    }
}

impl Duplicate for FileSuggestion {
    fn duplicate(&self) -> (r: Self) {
        copy_suggestion(self)
    }
}

/// Copies of the first `n` elements, or of all where there are fewer.
pub fn first_copies<T: Duplicate>(v: &Vec<T>, n: usize) -> (r: Vec<T>)
    ensures
        r@ == at_most(v@, n as int),
{
    let end = if v.len() < n { v.len() } else { n };
    let mut out: Vec<T> = Vec::new();
    let mut i: usize = 0;
    while i < end
        invariant
            i <= end <= v@.len(),
            end == (if v@.len() < n { v@.len() } else { n as nat }),
            out@ == v@.take(i as int),
        decreases end - i,
    {
        out.push(v[i].duplicate());
        assert(v@.take(i + 1) =~= v@.take(i as int).push(v@[i as int]));
        i += 1;
    }
    assert(v@.take(end as int) =~= at_most(v@, n as int));
    out
}

/// How many of a kind of list a page shows.
pub const FRONTEND_LIST_LIMIT: usize = 100;

pub const FRONTEND_LARGE_FILES_LIMIT: usize = 50;

pub const FRONTEND_TEMP_FILES_LIMIT: usize = 50;

pub const FRONTEND_ARCHIVE_FILES_LIMIT: usize = 50;

pub const FRONTEND_DUPLICATE_GROUPS_LIMIT: usize = 10;

pub const FRONTEND_DUPLICATE_FILES_PER_GROUP_LIMIT: usize = 20;

pub const FRONTEND_SUGGESTIONS_LIMIT: usize = 1000;

/// The advice as shown: the first suggestions, with their full count.
#[derive(Clone, Debug)]
pub struct FrontendAdvisorOutput {
    pub source: String,
    pub summary: String,
    pub suggestions: Vec<FileSuggestion>,
    pub suggestion_count: usize,
    pub truncated: bool,
}

/// The duplicates as shown: the first groups, with their full count.
#[derive(Clone, Debug)]
pub struct FrontendDedupResult {
    pub groups: Vec<DuplicateGroup>,
    pub failures: Vec<PathIssue>,
    pub group_count: usize,
    pub truncated: bool,
}

/// A scan report as shown.
#[derive(Clone, Debug)]
pub struct FrontendScanReport {
    pub generated_at: Timestamp,
    pub scan_duration_ms: u64,
    pub root: String,
    pub scanned_files: Vec<FileRecord>,
    pub analysis: AnalysisResult,
    pub dedup: FrontendDedupResult,
    pub modules: Vec<ScanModuleSummary>,
    pub advisor: FrontendAdvisorOutput,
    pub failures: Vec<PathIssue>,
}

/// A duplicate group as shown: its first files only.
pub open spec fn shown_group(s: DuplicateGroup, g: DuplicateGroup) -> bool {
    &&& s.hash == g.hash
    &&& s.total_size == g.total_size
    &&& s.suggested_keep == g.suggested_keep
    &&& s.files@ == at_most(g.files@, FRONTEND_DUPLICATE_FILES_PER_GROUP_LIMIT as int)
}

fn shown_group_of(g: &DuplicateGroup) -> (s: DuplicateGroup)
    ensures
        shown_group(s, *g),
{
    DuplicateGroup {
        hash: g.hash.clone(),
        total_size: g.total_size,
        files: first_copies(&g.files, FRONTEND_DUPLICATE_FILES_PER_GROUP_LIMIT),
        suggested_keep: match &g.suggested_keep {
            Some(p) => Some(p.clone()),
            None => None,
        },
    }
}

/// The report cut down for a page: no scanned files; the first hundred
/// empty files, empty directories and failures; the first fifty large,
/// temporary and archive files; the first ten duplicate groups with their
/// first twenty files; the first thousand suggestions; with the full
/// counts and whether anything was left out.
pub fn summarize_report_for_frontend(report: &ScanReport) -> (r: FrontendScanReport)
    ensures
        r.generated_at == report.generated_at,
        r.scan_duration_ms == report.scan_duration_ms,
        r.root == report.root,
        r.scanned_files@.len() == 0,
        r.analysis.total_files == report.analysis.total_files,
        r.analysis.total_size == report.analysis.total_size,
        r.analysis.empty_files@ == at_most(report.analysis.empty_files@, FRONTEND_LIST_LIMIT as int),
        r.analysis.empty_dirs@ == at_most(report.analysis.empty_dirs@, FRONTEND_LIST_LIMIT as int),
        r.analysis.large_files@ == at_most(report.analysis.large_files@, FRONTEND_LARGE_FILES_LIMIT as int),
        r.analysis.temporary_files@ == at_most(report.analysis.temporary_files@, FRONTEND_TEMP_FILES_LIMIT as int),
        r.analysis.archive_files@ == at_most(report.analysis.archive_files@, FRONTEND_ARCHIVE_FILES_LIMIT as int),
        r.analysis.type_breakdown@ == report.analysis.type_breakdown@,
        r.dedup.groups@.len() == at_most(report.dedup.groups@, FRONTEND_DUPLICATE_GROUPS_LIMIT as int).len(),
        forall|i: int| 0 <= i < r.dedup.groups@.len() ==> shown_group(#[trigger] r.dedup.groups@[i], report.dedup.groups@[i]),
        r.dedup.failures@ == at_most(report.dedup.failures@, FRONTEND_LIST_LIMIT as int),
        r.dedup.group_count == report.dedup.groups@.len(),
        r.dedup.truncated == (report.dedup.groups@.len() > FRONTEND_DUPLICATE_GROUPS_LIMIT),
        r.modules@ == report.modules@,
        r.advisor.source == report.advisor.source,
        r.advisor.summary == report.advisor.summary,
        r.advisor.suggestions@ == at_most(report.advisor.suggestions@, FRONTEND_SUGGESTIONS_LIMIT as int),
        r.advisor.suggestion_count == report.advisor.suggestions@.len(),
        r.advisor.truncated == (report.advisor.suggestions@.len() > FRONTEND_SUGGESTIONS_LIMIT),
        r.failures@ == at_most(report.failures@, FRONTEND_LIST_LIMIT as int),
{
    let a = &report.analysis;
    let gs = &report.dedup.groups;
    let end = if gs.len() < FRONTEND_DUPLICATE_GROUPS_LIMIT { gs.len() } else { FRONTEND_DUPLICATE_GROUPS_LIMIT };
    let mut groups: Vec<DuplicateGroup> = Vec::new();
    let mut i: usize = 0;
    while i < end
        invariant
            i <= end <= gs@.len(),
            end == at_most(gs@, FRONTEND_DUPLICATE_GROUPS_LIMIT as int).len(),
            groups@.len() == i,
            forall|k: int| 0 <= k < i ==> shown_group(#[trigger] groups@[k], gs@[k]),
        decreases end - i,
    {
        groups.push(shown_group_of(&gs[i]));
        i += 1;
    }
    FrontendScanReport {
        generated_at: report.generated_at,
        scan_duration_ms: report.scan_duration_ms,
        root: report.root.clone(),
        scanned_files: Vec::new(),
        analysis: AnalysisResult {
            total_files: a.total_files,
            total_size: a.total_size,
            empty_files: first_copies(&a.empty_files, FRONTEND_LIST_LIMIT),
            empty_dirs: first_copies(&a.empty_dirs, FRONTEND_LIST_LIMIT),
            large_files: first_copies(&a.large_files, FRONTEND_LARGE_FILES_LIMIT),
            temporary_files: first_copies(&a.temporary_files, FRONTEND_TEMP_FILES_LIMIT),
            archive_files: first_copies(&a.archive_files, FRONTEND_ARCHIVE_FILES_LIMIT),
            type_breakdown: first_copies(&a.type_breakdown, a.type_breakdown.len()),
        },
        dedup: FrontendDedupResult {
            groups,
            failures: first_copies(&report.dedup.failures, FRONTEND_LIST_LIMIT),
            group_count: gs.len(),
            truncated: gs.len() > FRONTEND_DUPLICATE_GROUPS_LIMIT,
        },
        modules: first_copies(&report.modules, report.modules.len()),
        advisor: FrontendAdvisorOutput {
            source: report.advisor.source.clone(),
            summary: report.advisor.summary.clone(),
            suggestions: first_copies(&report.advisor.suggestions, FRONTEND_SUGGESTIONS_LIMIT),
            suggestion_count: report.advisor.suggestions.len(),
            truncated: report.advisor.suggestions.len() > FRONTEND_SUGGESTIONS_LIMIT,
        },
        failures: first_copies(&report.failures, FRONTEND_LIST_LIMIT),
    }
}

/// A progress event: of the walk, of duplicate hashing, or of analysis.
#[derive(Clone, Debug)]
pub enum ProgressEvent {
    Scan {
        phase: String,
        files_found: usize,
        dirs_visited: usize,
        bytes_found: u64,
        current_path: Option<String>,
    },
    Dedup {
        phase: String,
        files_hashed: usize,
        files_total: usize,
        current_path: Option<String>,
    },
    Analyze { phase: String, detail: String },
}

impl ProgressEvent {
    /// The event of the walk's progress.
    pub fn from_scan(p: &ScanProgress) -> (e: ProgressEvent)
        ensures
            e matches ProgressEvent::Scan { phase, files_found, dirs_visited, bytes_found, current_path }
                && phase == p.phase && files_found == p.files_found && dirs_visited == p.dirs_visited
                && bytes_found == p.bytes_found && current_path == p.current_path,
    {
        ProgressEvent::Scan {
            phase: p.phase.clone(),
            files_found: p.files_found,
            dirs_visited: p.dirs_visited,
            bytes_found: p.bytes_found,
            current_path: match &p.current_path {
                Some(c) => Some(c.clone()),
                None => None,
            },
        }
    }

    /// The event of duplicate hashing's progress.
    pub fn from_dedup(p: &DedupProgress) -> (e: ProgressEvent)
        ensures
            e matches ProgressEvent::Dedup { phase, files_hashed, files_total, current_path }
                && phase == p.phase && files_hashed == p.files_hashed && files_total == p.files_total
                && current_path == p.current_path,
    {
        ProgressEvent::Dedup {
            phase: p.phase.clone(),
            files_hashed: p.files_hashed,
            files_total: p.files_total,
            current_path: match &p.current_path {
                Some(c) => Some(c.clone()),
                None => None,
            },
        }
    }

    /// An analysis event with a phase and a detail.
    pub fn analyze(phase: &str, detail: &str) -> (e: ProgressEvent)
        ensures
            e matches ProgressEvent::Analyze { phase: p, detail: d } && p@ == phase@ && d@ == detail@,
    {
        ProgressEvent::Analyze { phase: owned(phase), detail: owned(detail) }
    }
}

/// The state of scan work that goes on in the background.
#[derive(Clone, Debug)]
pub struct ScanAsyncStatus {
    pub dedup_pending: bool,
    pub phase: String,
    pub message: String,
    pub error: Option<String>,
}

impl Default for ScanAsyncStatus {
    fn default() -> (r: ScanAsyncStatus)
        ensures
            !r.dedup_pending,
            r.phase@.len() == 0,
            r.message@.len() == 0,
            r.error is None,
    {
        ScanAsyncStatus { dedup_pending: false, phase: String::new(), message: String::new(), error: None }
    }
}

} // verus!
