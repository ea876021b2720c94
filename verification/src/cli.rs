//! The command line: analyse a folder, carry out suggestions from a
//! report, or diagnose a path.

use vstd::prelude::*;
use crate::diagnostics::DiagnosticOperation;
use crate::models::ExecutionMode;

verus! {

/// The command line.
#[derive(Debug)]
pub struct Cli {
    pub command: Commands,
}

/// What the command line asks for.
#[derive(Debug)]
pub enum Commands {
    /// Scan and analyse a folder and write a report.
    Analyze {
        path: String,
        large_file_threshold_mb: u64,
        max_ai_items: usize,
        output: String,
        api_key: Option<String>,
        ai_base_url: String,
        ai_model: String,
    },
    /// Carry out suggestions of a report on the paths given.
    Execute {
        report: String,
        mode: ModeArg,
        paths: Vec<String>,
        target_dir: Option<String>,
        log: String,
        apply: bool,
    },
    /// Diagnose a path for an operation.
    Diagnose { path: String, operation: DiagnoseArg },
}

/// How suggested files are cleaned up.
#[derive(Debug, Clone, Copy, PartialEq, Eq, Structural)]
pub enum ModeArg {
    Recycle,
    Move,
}

impl From<ModeArg> for ExecutionMode {
    fn from(value: ModeArg) -> (r: ExecutionMode) {
        match value {
            ModeArg::Recycle => ExecutionMode::Recycle,
            ModeArg::Move => ExecutionMode::Move,
        }
    }
}

impl vstd::std_specs::convert::FromSpecImpl<ModeArg> for ExecutionMode {
    open spec fn obeys_from_spec() -> bool {
        true
    }

    open spec fn from_spec(value: ModeArg) -> ExecutionMode {
        match value {
            ModeArg::Recycle => ExecutionMode::Recycle,
            ModeArg::Move => ExecutionMode::Move,
        }
    }
}

/// Which operation a path is diagnosed for.
#[derive(Debug, Clone, Copy, PartialEq, Eq, Structural)]
pub enum DiagnoseArg {
    Probe,
    Recycle,
    Move,
}

impl From<DiagnoseArg> for DiagnosticOperation {
    fn from(value: DiagnoseArg) -> (r: DiagnosticOperation) {
        match value {
            DiagnoseArg::Probe => DiagnosticOperation::Probe,
            DiagnoseArg::Recycle => DiagnosticOperation::Recycle,
            DiagnoseArg::Move => DiagnosticOperation::Move,
        }
    }
}

impl vstd::std_specs::convert::FromSpecImpl<DiagnoseArg> for DiagnosticOperation {
    open spec fn obeys_from_spec() -> bool {
        true
    }

    open spec fn from_spec(value: DiagnoseArg) -> DiagnosticOperation {
        match value {
            DiagnoseArg::Probe => DiagnosticOperation::Probe,
            DiagnoseArg::Recycle => DiagnosticOperation::Recycle,
            DiagnoseArg::Move => DiagnosticOperation::Move,
        }
    }
}

/// Whether `execute` changes anything: only with `--apply`; without it the
/// command rehearses.
pub fn dry_run_of(apply: bool) -> (r: bool)
    ensures
        r == !apply,
{
    !apply
}

} // verus!
