//! The records that the scanner, the analyzer and the advisors exchange.
//! Paths are held as text (see [`crate::paths`]), and points in time as
//! seconds and nanoseconds since the Unix epoch.

use vstd::prelude::*;

verus! {

/// A point in time, UTC: seconds since the Unix epoch and the
/// sub-second nanoseconds.
#[derive(Clone, Copy, Debug, PartialEq, Eq, Structural)]
pub struct Timestamp {
    pub secs: i64,
    pub nanos: u32,
}

#[derive(Clone, Debug)]
pub struct FileRecord {
    pub path: String,
    pub size: u64,
    pub extension: Option<String>,
    pub modified_at: Option<Timestamp>,
    pub is_empty: bool,
}

#[derive(Clone, Debug)]
pub struct PathIssue {
    pub path: String,
    pub message: String,
}

#[derive(Clone, Debug)]
pub struct ScanResult {
    pub root: String,
    pub files: Vec<FileRecord>,
    pub empty_dirs: Vec<String>,
    pub failures: Vec<PathIssue>,
}

#[derive(Clone, Debug)]
pub struct TypeStat {
    pub extension: String,
    pub file_count: usize,
    pub total_size: u64,
}

#[derive(Clone, Debug)]
pub struct AnalysisResult {
    pub total_files: usize,
    pub total_size: u64,
    pub empty_files: Vec<FileRecord>,
    pub empty_dirs: Vec<String>,
    pub large_files: Vec<FileRecord>,
    pub temporary_files: Vec<FileRecord>,
    pub archive_files: Vec<FileRecord>,
    pub type_breakdown: Vec<TypeStat>,
}

#[derive(Clone, Copy, Debug, PartialEq, Eq, Structural)]
pub enum ScanModuleKind {
    DuplicateFiles,
    EmptyFiles,
    EmptyDirectories,
    LargeFiles,
    TemporaryFiles,
    ArchiveFiles,
}

#[derive(Clone, Copy, Debug, PartialEq, Eq, Structural)]
pub struct ScanModuleSummary {
    pub kind: ScanModuleKind,
    pub item_count: usize,
    pub total_size: u64,
}

#[derive(Clone, Debug)]
pub struct DuplicateGroup {
    pub hash: String,
    pub total_size: u64,
    pub files: Vec<FileRecord>,
    pub suggested_keep: Option<String>,
}

#[derive(Clone, Debug)]
pub struct DedupResult {
    pub groups: Vec<DuplicateGroup>,
    pub failures: Vec<PathIssue>,
}

#[derive(Clone, Copy, Debug, PartialEq, Eq, Structural)]
pub enum SuggestedAction {
    Delete,
    Keep,
    Move,
    Review,
}

#[derive(Clone, Copy, Debug, PartialEq, Eq, Structural)]
pub enum RiskLevel {
    Low,
    Medium,
    High,
}

#[derive(Clone, Copy, Debug, PartialEq, Eq, Structural)]
pub enum AiInsightTargetKind {
    File,
    Directory,
}

#[derive(Clone, Copy, Debug, PartialEq, Eq, Structural)]
pub enum MigrationCategory {
    LargeFiles,
    DownloadArchives,
    WechatData,
    CondaPackageCache,
    CondaEnvironments,
    CondaInstallation,
}

#[derive(Clone, Copy, Debug, PartialEq, Eq, Structural)]
pub enum MigrationSupportLevel {
    OneClick,
    Guided,
    Manual,
}

#[derive(Clone, Copy, Debug, PartialEq, Eq, Structural)]
pub enum MigrationObjectKind {
    File,
    Directory,
    AppData,
    PackageCache,
    EnvironmentStore,
    InstallationRoot,
}

#[derive(Clone, Copy, Debug, PartialEq, Eq, Structural)]
pub enum MigrationDocSourceKind {
    LocalRule,
    OfficialDoc,
    LocalObservation,
    HistoricalCase,
}

#[derive(Clone, Copy, Debug, PartialEq, Eq, Structural)]
pub enum MigrationActionKind {
    StopProcess,
    MovePath,
    UpdateYamlList,
    SetEnvVar,
    CreateJunction,
    VerifyPathExists,
}

#[derive(Clone, Copy, Debug, PartialEq, Eq, Structural)]
pub enum MigrationCheckpointKind {
    FileContent,
    EnvVar,
    PathState,
}

#[derive(Clone, Copy, Debug, PartialEq, Eq, Structural)]
pub enum MigrationRunStatus {
    DryRun,
    Succeeded,
    Failed,
    RolledBack,
}

#[derive(Clone, Debug)]
pub struct MigrationActionStep {
    pub title: String,
    pub detail: String,
    pub required: bool,
}

#[derive(Clone, Debug)]
pub struct MigrationOpportunity {
    pub id: String,
    pub title: String,
    pub category: MigrationCategory,
    pub support_level: MigrationSupportLevel,
    pub risk: RiskLevel,
    pub estimated_size: u64,
    pub source_path: String,
    pub recommended_target_dir: String,
    pub recommended_target_path: String,
    pub reason: String,
    pub blocked_processes: Vec<String>,
    pub required_steps: Vec<MigrationActionStep>,
    pub one_click_paths: Vec<String>,
    pub tags: Vec<String>,
}

#[derive(Clone, Debug)]
pub struct MigrationDocSource {
    pub title: String,
    pub kind: MigrationDocSourceKind,
    pub uri: Option<String>,
    pub note: String,
}

#[derive(Clone, Debug)]
pub struct MigrationDocExcerpt {
    pub title: String,
    pub kind: MigrationDocSourceKind,
    pub uri: Option<String>,
    pub excerpt: String,
}

/// One value of an action's parameter list.
#[derive(Clone, Debug)]
pub enum ParamValue {
    Text(String),
    Flag(bool),
    /// No value (`null`).
    Null,
}

/// A named parameter of a migration action.
#[derive(Clone, Debug)]
pub struct ActionParam {
    pub key: String,
    pub value: ParamValue,
}

#[derive(Clone, Debug)]
pub struct MigrationAction {
    pub id: String,
    pub kind: MigrationActionKind,
    pub title: String,
    pub detail: String,
    pub required: bool,
    pub enabled_by_default: bool,
    pub params: Vec<ActionParam>,
}

/// What an action is and does, taken by value.
pub struct ActionView {
    pub id: Seq<char>,
    pub kind: MigrationActionKind,
    pub title: Seq<char>,
    pub detail: Seq<char>,
    pub required: bool,
    pub enabled_by_default: bool,
    pub params: Seq<ActionParam>,
}

impl View for MigrationAction {
    type V = ActionView;

    open spec fn view(&self) -> ActionView {
        ActionView {
            id: self.id@,
            kind: self.kind,
            title: self.title@,
            detail: self.detail@,
            required: self.required,
            enabled_by_default: self.enabled_by_default,
            params: self.params@,
        }
    }
}

/// A snapshot taken before a migration step, to restore it.
#[derive(Clone, Debug)]
pub struct MigrationCheckpoint {
    pub key: String,
    pub kind: MigrationCheckpointKind,
    pub target: String,
    pub snapshot: Vec<ActionParam>,
}

/// A step that undoes part of a migration run.
#[derive(Clone, Debug)]
pub struct MigrationRollbackAction {
    pub id: String,
    pub kind: MigrationActionKind,
    pub title: String,
    pub detail: String,
    pub params: Vec<ActionParam>,
}

#[derive(Clone, Debug)]
pub struct MigrationPlan {
    pub id: String,
    pub title: String,
    pub category: MigrationCategory,
    pub object_kind: MigrationObjectKind,
    pub support_level: MigrationSupportLevel,
    pub risk: RiskLevel,
    pub estimated_size: u64,
    pub source_path: String,
    pub recommended_target_dir: String,
    pub recommended_target_path: String,
    pub summary: String,
    pub rationale: String,
    pub tags: Vec<String>,
    pub doc_sources: Vec<MigrationDocSource>,
    pub actions: Vec<MigrationAction>,
    pub verification_steps: Vec<MigrationActionStep>,
}

#[derive(Clone, Debug)]
pub struct MigrationHistoricalCase {
    pub run_id: String,
    pub title: String,
    pub status: MigrationRunStatus,
    pub dry_run: bool,
    pub action_titles: Vec<String>,
    pub failure_reason: Option<String>,
}

#[derive(Clone, Debug)]
pub struct MigrationAdvisorOutput {
    pub source: String,
    pub summary: String,
    pub opportunities: Vec<MigrationOpportunity>,
    pub plans: Vec<MigrationPlan>,
}

/// The record of one migration run.
#[derive(Clone, Debug)]
pub struct MigrationExecutionRecord {
    pub run_id: String,
    pub plan_id: String,
    pub title: String,
    pub started_at: Timestamp,
    pub finished_at: Timestamp,
    pub dry_run: bool,
    pub status: MigrationRunStatus,
    pub checkpoints: Vec<MigrationCheckpoint>,
    pub rollback_actions: Vec<MigrationRollbackAction>,
    pub logs: Vec<OperationLogEntry>,
    pub failure_reason: Option<String>,
}

#[derive(Clone, Debug)]
pub struct MigrationPlanReview {
    pub plan: MigrationPlan,
    pub source: String,
    pub remote_attempted: bool,
    pub used_fallback: bool,
    pub fallback_reason: Option<String>,
    pub doc_excerpts: Vec<MigrationDocExcerpt>,
    pub historical_cases: Vec<MigrationHistoricalCase>,
}

#[derive(Clone, Debug)]
pub struct FileSuggestion {
    pub path: String,
    pub action: SuggestedAction,
    pub risk: RiskLevel,
    pub reason: String,
}

#[derive(Clone, Debug)]
pub struct AdvisorOutput {
    pub source: String,
    pub summary: String,
    pub suggestions: Vec<FileSuggestion>,
}

#[derive(Clone, Debug)]
pub struct FileAiInsight {
    pub path: String,
    pub target_kind: AiInsightTargetKind,
    pub source: String,
    pub summary: String,
    pub suggested_action: SuggestedAction,
    pub risk: RiskLevel,
    pub reason: String,
    pub remote_attempted: bool,
    pub used_fallback: bool,
    pub fallback_reason: Option<String>,
}

#[derive(Clone, Copy, Debug, PartialEq, Eq, Structural)]
pub enum ProcessSuggestedAction {
    SafeToEnd,
    EndAfterSave,
    Review,
    AvoidEnd,
}

#[derive(Clone, Debug)]
pub struct ProcessAiInsight {
    pub pid: u32,
    pub name: String,
    pub source: String,
    pub summary: String,
    pub suggested_action: ProcessSuggestedAction,
    pub risk: RiskLevel,
    pub reason: String,
    pub remote_attempted: bool,
    pub used_fallback: bool,
    pub fallback_reason: Option<String>,
}

#[derive(Clone, Debug)]
pub struct ProcessAiFollowUpAnswer {
    pub pid: u32,
    pub name: String,
    pub question: String,
    pub answer: String,
    pub source: String,
    pub remote_attempted: bool,
    pub used_fallback: bool,
    pub fallback_reason: Option<String>,
}

#[derive(Clone, Debug)]
pub struct ProcessAiFollowUpTurn {
    pub question: String,
    pub answer: String,
}

#[derive(Clone, Debug)]
pub struct ScanReport {
    pub generated_at: Timestamp,
    pub scan_duration_ms: u64,
    pub root: String,
    pub scanned_files: Vec<FileRecord>,
    pub analysis: AnalysisResult,
    pub dedup: DedupResult,
    pub modules: Vec<ScanModuleSummary>,
    pub advisor: AdvisorOutput,
    pub failures: Vec<PathIssue>,
}

#[derive(Clone, Copy, Debug, PartialEq, Eq, Structural)]
pub enum ExecutionMode {
    Recycle,
    Move,
}

#[derive(Clone, Copy, Debug, PartialEq, Eq, Structural)]
pub enum DiagnosticSeverity {
    Info,
    Warning,
    Critical,
}

#[derive(Clone, Copy, Debug, PartialEq, Eq, Structural)]
pub enum DiagnosticCode {
    Accessible,
    NotFound,
    PermissionDenied,
    InUseByAnotherProcess,
    LockedRegion,
    ReadOnly,
    AlreadyExists,
    InvalidInput,
    DirectoryNotEmpty,
    Unsupported,
    Unknown,
}

#[derive(Clone, Debug)]
pub struct PathDiagnosis {
    pub path: String,
    pub operation: String,
    pub code: DiagnosticCode,
    pub severity: DiagnosticSeverity,
    pub summary: String,
    pub details: Vec<String>,
    pub suggestions: Vec<String>,
    pub possible_related_apps: Vec<String>,
    pub error_kind: Option<String>,
    pub raw_os_error: Option<i32>,
}

#[derive(Clone, Debug)]
pub struct OperationLogEntry {
    pub at: Timestamp,
    pub path: String,
    pub mode: ExecutionMode,
    pub dry_run: bool,
    pub success: bool,
    pub detail: String,
    pub diagnosis: Option<PathDiagnosis>,
}

} // verus!
