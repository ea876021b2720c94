//! The text summary of a scan report.

use vstd::prelude::*;
use crate::models::{DuplicateGroup, ScanReport};
use crate::text::{append_str, decimal, push_decimal, string_of};

verus! {

/// The text `humansize::format_size` gives for a byte count with the
/// `DECIMAL` options (SI units such as `kB` and `MB`).
pub uninterp spec fn decimal_size_text(bytes: u64) -> Seq<char>;

/// The text `humansize::format_size` gives for a byte count with the
/// `BINARY` options (IEC units such as `KiB` and `MiB`).
pub uninterp spec fn binary_size_text(bytes: u64) -> Seq<char>;

/// Calls `humansize::format_size(bytes, DECIMAL)`. Its result is taken to
/// be [`decimal_size_text`] of the count: the crate computes it in floating
/// point, so nothing more of it is stated.
#[verifier::external_body]
pub(crate) fn format_decimal_size(bytes: u64) -> (r: String)
    ensures
        r@ == decimal_size_text(bytes),
{
    humansize::format_size(bytes, humansize::DECIMAL)
}

/// Calls `humansize::format_size(bytes, BINARY)`. Its result is taken to
/// be [`binary_size_text`] of the count: the crate computes it in floating
/// point, so nothing more of it is stated.
#[verifier::external_body]
pub(crate) fn format_binary_size(bytes: u64) -> (r: String)
    ensures
        r@ == binary_size_text(bytes),
{
    humansize::format_size(bytes, humansize::BINARY)
}

/// The number of files in the duplicate groups.
pub open spec fn group_files_sum(groups: Seq<DuplicateGroup>) -> int
    decreases groups.len(),
{
    if groups.len() == 0 {
        0
    } else {
        group_files_sum(groups.drop_last()) + groups.last().files@.len()
    }
}

/// The summary of a report, its total size written as `size_text`.
pub open spec fn summary_text(report: ScanReport, size_text: Seq<char>) -> Seq<char> {
    "Root: "@ + report.root@ + "\nTotal files: "@ + decimal(report.analysis.total_files as nat)
        + "\nTotal size: "@ + size_text + "\nLarge files: "@ + decimal(report.analysis.large_files@.len())
        + "\nEmpty files: "@ + decimal(report.analysis.empty_files@.len()) + "\nEmpty directories: "@
        + decimal(report.analysis.empty_dirs@.len()) + "\nDuplicate groups: "@ + decimal(
        report.dedup.groups@.len(),
    ) + "\nDuplicate files involved: "@ + decimal(group_files_sum(report.dedup.groups@) as nat)
        + "\nAdvice source: "@ + report.advisor.source@ + "\nSummary: "@ + report.advisor.summary@
}

proof fn lemma_group_files_sum_prefix(groups: Seq<DuplicateGroup>, i: int)
    requires
        0 <= i <= groups.len(),
    ensures
        0 <= group_files_sum(groups.take(i)) <= group_files_sum(groups),
    decreases groups.len(),
{
    if groups.len() > 0 {
        if i == groups.len() {
            assert(groups.take(i) =~= groups);
            lemma_group_files_sum_prefix(groups.drop_last(), i - 1);
            assert(groups.drop_last().take(i - 1) =~= groups.drop_last());
        } else {
            lemma_group_files_sum_prefix(groups.drop_last(), i);
            assert(groups.drop_last().take(i) =~= groups.take(i));
        }
    }
}

fn count_group_files(groups: &Vec<DuplicateGroup>) -> (r: usize)
    requires
        group_files_sum(groups@) <= usize::MAX,
    ensures
        r == group_files_sum(groups@),
{
    let mut total: usize = 0;
    let mut i: usize = 0;
    while i < groups.len()
        invariant
            i <= groups@.len(),
            group_files_sum(groups@) <= usize::MAX,
            total == group_files_sum(groups@.take(i as int)),
        decreases groups@.len() - i,
    {
        proof {
            lemma_group_files_sum_prefix(groups@, i + 1);
            assert(groups@.take(i + 1).drop_last() =~= groups@.take(i as int));
        }
        total = total + groups[i].files.len();
        i += 1;
    }
    assert(groups@.take(groups@.len() as int) =~= groups@);
    total
}

fn append_count(out: &mut Vec<char>, label: &str, n: usize)
    ensures
        final(out)@ == old(out)@ + label@ + decimal(n as nat),
{
    append_str(out, label);
    push_decimal(out, n as u64);
}

/// The summary of a report with its total size already written out.
pub fn render_summary_with_size(report: &ScanReport, size_text: &str) -> (r: String)
    requires
        group_files_sum(report.dedup.groups@) <= usize::MAX,
    ensures
        r@ == summary_text(*report, size_text@),
{
    let duplicate_files = count_group_files(&report.dedup.groups);
    let mut out: Vec<char> = Vec::new();
    append_str(&mut out, "Root: ");
    append_str(&mut out, report.root.as_str());
    append_count(&mut out, "\nTotal files: ", report.analysis.total_files);
    append_str(&mut out, "\nTotal size: ");
    append_str(&mut out, size_text);
    append_count(&mut out, "\nLarge files: ", report.analysis.large_files.len());
    append_count(&mut out, "\nEmpty files: ", report.analysis.empty_files.len());
    append_count(&mut out, "\nEmpty directories: ", report.analysis.empty_dirs.len());
    append_count(&mut out, "\nDuplicate groups: ", report.dedup.groups.len());
    append_count(&mut out, "\nDuplicate files involved: ", duplicate_files);
    append_str(&mut out, "\nAdvice source: ");
    append_str(&mut out, report.advisor.source.as_str());
    append_str(&mut out, "\nSummary: ");
    append_str(&mut out, report.advisor.summary.as_str());
    assert(out@ =~= summary_text(*report, size_text@));
    string_of(out.as_slice())
}

/// `render_summary`: the text summary of a scan report, its total size in
/// SI units.
pub fn render_summary(report: &ScanReport) -> (r: String)
    requires
        group_files_sum(report.dedup.groups@) <= usize::MAX,
    ensures
        r@ == summary_text(*report, decimal_size_text(report.analysis.total_size)),
{
    let size = format_decimal_size(report.analysis.total_size);
    render_summary_with_size(report, size.as_str())
}

} // verus!
