//! The local rules that turn an analysis and a duplicate report into one
//! suggestion per path.

use vstd::prelude::*;
use crate::advisor::{
    auto_cleanup, needs_manual_review, should_auto_cleanup_duplicate,
    should_require_manual_review,
};
use crate::models::{AnalysisResult, DedupResult, DuplicateGroup, FileRecord, FileSuggestion, RiskLevel, SuggestedAction};
use crate::order::{comps_order_exec, lemma_comps_order_eq, lemma_comps_order_trans, same_path_exec};
use crate::paths::{components, components_of, comps_order, same_path};
use crate::rules::{
    archive_or_installer_file, document_like, in_transient_location, is_archive_or_installer_file,
    is_document_like, is_in_transient_location, path_extension_listed, record_extension_listed,
};
use crate::text::{owned, views};

verus! {

pub const EMPTY_FILE_REASON: &'static str = "空文件通常可以在快速确认后安全清理。";
pub const EMPTY_DIR_REASON: &'static str = "空目录不包含有效数据，适合作为优先清理目标。";
pub const TEMP_FILE_REASON: &'static str = "临时文件通常是下载中间态、调试残留或缓存副本，适合优先清理。";
pub const LARGE_DOCUMENT_REASON: &'static str = "文档类文件即使体积较大，也可能是唯一资料，默认仅建议人工复核。";
pub const LARGE_ARCHIVE_REASON: &'static str = "大型安装包和压缩包更适合移动到归档目录，而不是继续占用常用磁盘空间。";
pub const LARGE_FILE_REASON: &'static str = "该大文件占用了较多空间，建议在删除或移动前先人工确认。";
pub const DUP_CAUTIOUS_REASON: &'static str = "该重复文件属于源码、配置、文档或项目元数据，即使内容相同，也可能分别服务于不同项目，默认改为人工复核。";
pub const DUP_AUTO_KEEP_REASON: &'static str = "这一份是重复安装包或压缩包中的保留副本。";
pub const DUP_AUTO_TRANSIENT_REASON: &'static str = "该文件位于下载、临时或缓存目录，且属于重复安装包或压缩包，适合在保留一份后清理其余副本。";
pub const DUP_AUTO_REASON: &'static str = "该文件属于重复安装包或压缩包，通常只需保留一份，其余副本可清理。";
pub const DUP_KEEP_REASON: &'static str = "这一份更适合作为重复文件组中的保留副本，其余副本暂不自动清理。";
pub const DUP_REVIEW_REASON: &'static str = "该文件虽然与其他副本内容一致，但不属于可直接清理的安装包、压缩包或临时文件，建议人工复核。";

/// A candidate suggestion: path, action, risk, reason and priority.
pub type Cand = (Seq<char>, SuggestedAction, RiskLevel, Seq<char>, u8);

/// A suggestion with the priority of the rule that made it.
#[derive(Clone, Debug)]
pub struct RankedSuggestion {
    pub priority: u8,
    pub suggestion: FileSuggestion,
}

pub open spec fn cand_of(r: RankedSuggestion) -> Cand {
    (r.suggestion.path@, r.suggestion.action, r.suggestion.risk, r.suggestion.reason@, r.priority)
}

/// The candidate that holds a path after the candidates were offered in
/// order: a candidate replaces the holder unless the holder's priority is
/// higher.
pub open spec fn holder(cands: Seq<Cand>, p: Seq<char>) -> Option<Cand>
    decreases cands.len(),
{
    if cands.len() == 0 {
        None
    } else {
        let prev = holder(cands.drop_last(), p);
        let c = cands.last();
        if same_path(c.0, p) && (prev is None || prev.unwrap().4 <= c.4) {
            Some(c)
        } else {
            prev
        }
    }
}

pub open spec fn large_candidate(f: FileRecord) -> Cand {
    let action = if archive_or_installer_file(f) && !document_like(f) {
        SuggestedAction::Move
    } else {
        SuggestedAction::Review
    };
    let reason = if document_like(f) {
        LARGE_DOCUMENT_REASON@
    } else if action == SuggestedAction::Move {
        LARGE_ARCHIVE_REASON@
    } else {
        LARGE_FILE_REASON@
    };
    (f.path@, action, RiskLevel::Medium, reason, 10)
}

/// The file is the copy that the group keeps.
pub open spec fn is_kept_copy(g: DuplicateGroup, f: FileRecord) -> bool {
    match g.suggested_keep {
        Some(k) => same_path(f.path@, k@),
        None => false,
    }
}

pub open spec fn duplicate_candidate(g: DuplicateGroup, f: FileRecord) -> Cand {
    let cautious = needs_manual_review(g.files@);
    let auto = auto_cleanup(g.files@);
    let keep = is_kept_copy(g, f);
    let action = if cautious {
        SuggestedAction::Review
    } else if auto {
        if keep { SuggestedAction::Keep } else { SuggestedAction::Delete }
    } else if keep {
        SuggestedAction::Keep
    } else {
        SuggestedAction::Review
    };
    let risk = if cautious {
        RiskLevel::High
    } else if auto {
        if in_transient_location(f) { RiskLevel::Low } else { RiskLevel::Medium }
    } else if action == SuggestedAction::Keep {
        RiskLevel::Low
    } else {
        RiskLevel::Medium
    };
    let reason = if cautious {
        DUP_CAUTIOUS_REASON@
    } else if auto && action == SuggestedAction::Keep {
        DUP_AUTO_KEEP_REASON@
    } else if auto && in_transient_location(f) {
        DUP_AUTO_TRANSIENT_REASON@
    } else if auto {
        DUP_AUTO_REASON@
    } else if action == SuggestedAction::Keep {
        DUP_KEEP_REASON@
    } else {
        DUP_REVIEW_REASON@
    };
    (f.path@, action, risk, reason, 50)
}

pub open spec fn group_candidates(g: DuplicateGroup) -> Seq<Cand> {
    g.files@.map_values(|f: FileRecord| duplicate_candidate(g, f))
}

/// Every candidate the local rules offer, in the order they are offered:
/// empty files, empty directories, temporary files, the twenty largest
/// files, then each duplicate group's files.
pub open spec fn rule_candidates(a: AnalysisResult, d: DedupResult) -> Seq<Cand> {
    let n = if a.large_files@.len() < 20 { a.large_files@.len() } else { 20 };
    a.empty_files@.map_values(|f: FileRecord| (f.path@, SuggestedAction::Delete, RiskLevel::Low, EMPTY_FILE_REASON@, 30u8))
        + a.empty_dirs@.map_values(|p: String| (p@, SuggestedAction::Delete, RiskLevel::Low, EMPTY_DIR_REASON@, 30u8))
        + a.temporary_files@.map_values(|f: FileRecord| (f.path@, SuggestedAction::Delete, RiskLevel::Low, TEMP_FILE_REASON@, 40u8))
        + a.large_files@.take(n as int).map_values(|f: FileRecord| large_candidate(f))
        + d.groups@.map_values(|g: DuplicateGroup| group_candidates(g)).flatten()
}

/// `t` holds, for each path that a candidate names, the candidate holding
/// it, ordered by path.
pub open spec fn table_of(t: Seq<RankedSuggestion>, done: Seq<Cand>) -> bool {
    &&& forall|i: int, j: int|
        0 <= i < j < t.len() ==> comps_order(
            components(t[i].suggestion.path@),
            components(t[j].suggestion.path@),
        ) < 0
    &&& forall|i: int|
        #![trigger t[i]]
        0 <= i < t.len() ==> holder(done, t[i].suggestion.path@) == Some(cand_of(t[i]))
    &&& forall|k: int|
        #![trigger done[k]]
        0 <= k < done.len() ==> exists|i: int|
            #![trigger t[i]]
            0 <= i < t.len() && same_path(t[i].suggestion.path@, done[k].0)
}

pub proof fn lemma_holder_names(cands: Seq<Cand>, p: Seq<char>)
    ensures
        holder(cands, p) matches Some(c) ==> same_path(c.0, p) && exists|k: int|
            #![trigger cands[k]]
            0 <= k < cands.len() && cands[k] == c,
        (forall|k: int| 0 <= k < cands.len() ==> !same_path(#[trigger] cands[k].0, p)) ==> holder(cands, p) is None,
    decreases cands.len(),
{
    if cands.len() > 0 {
        lemma_holder_names(cands.drop_last(), p);
        let prev = holder(cands.drop_last(), p);
        if let Some(c) = prev {
            let k = choose|k: int| #![trigger cands.drop_last()[k]] 0 <= k < cands.drop_last().len() && cands.drop_last()[k] == c;
            assert(cands[k] == c);
        }
        assert(cands[cands.len() - 1] == cands.last());
        if forall|k: int| 0 <= k < cands.len() ==> !same_path(#[trigger] cands[k].0, p) {
            assert forall|k: int| 0 <= k < cands.drop_last().len() implies !same_path(#[trigger] cands.drop_last()[k].0, p) by {
                assert(cands.drop_last()[k] == cands[k]);
            }
        }
    }
}

pub proof fn lemma_holder_same_path(cands: Seq<Cand>, p: Seq<char>, q: Seq<char>)
    requires
        same_path(p, q),
    ensures
        holder(cands, p) == holder(cands, q),
    decreases cands.len(),
{
    if cands.len() > 0 {
        lemma_holder_same_path(cands.drop_last(), p, q);
    }
}

pub open spec fn cand_from(s: FileSuggestion, priority: u8) -> Cand {
    (s.path@, s.action, s.risk, s.reason@, priority)
}

proof fn lemma_holder_push(done: Seq<Cand>, c: Cand, p: Seq<char>)
    ensures
        holder(done.push(c), p) == (if same_path(c.0, p) && (holder(done, p) is None || holder(
            done,
            p,
        ).unwrap().4 <= c.4) {
            Some(c)
        } else {
            holder(done, p)
        }),
{
    assert(done.push(c).drop_last() =~= done);
    assert(done.push(c).last() == c);
}

/// Offers one candidate to the table (`upsert_suggestion`): it replaces the
/// suggestion held for its path unless that one has a higher priority.
fn upsert_suggestion(
    table: &mut Vec<RankedSuggestion>,
    suggestion: FileSuggestion,
    priority: u8,
    Ghost(done): Ghost<Seq<Cand>>,
)
    requires
        table_of(old(table)@, done),
    ensures
        table_of(final(table)@, done.push(cand_from(suggestion, priority))),
{
    let ghost c = cand_from(suggestion, priority);
    let ghost t0 = table@;
    let pc = components_of(suggestion.path.as_str());
    let mut i: usize = 0;
    while i < table.len() && comps_order_exec(&components_of(table[i].suggestion.path.as_str()), &pc) < 0
        invariant
            i <= table@.len(),
            table@ == t0,
            views(pc@) == components(c.0),
            forall|j: int| 0 <= j < i ==> comps_order(components(t0[j].suggestion.path@), components(c.0)) < 0,
        decreases table@.len() - i,
    {
        i += 1;
    }
    proof {
        lemma_holder_names(done, c.0);
    }
    if i < table.len() {
        let ci = components_of(table[i].suggestion.path.as_str());
        if crate::order::comps_eq(&ci, &pc) {
            let ghost pi = t0[i as int].suggestion.path@;
            assert(same_path(pi, c.0));
            proof {
                assert forall|j: int| 0 <= j < t0.len() && j != i implies !same_path(c.0, #[trigger] t0[j].suggestion.path@) by {
                    let pj = t0[j].suggestion.path@;
                    if j < i {
                        lemma_comps_order_eq(components(pj), components(pi));
                    } else {
                        lemma_comps_order_eq(components(pi), components(pj));
                    }
                }
                lemma_holder_same_path(done, pi, c.0);
            }
            if table[i].priority > priority {
                proof {
                    let d2 = done.push(c);
                    assert forall|j: int| #![trigger t0[j]] 0 <= j < t0.len() implies holder(d2, t0[j].suggestion.path@) == Some(cand_of(t0[j])) by {
                        lemma_holder_push(done, c, t0[j].suggestion.path@);
                    }
                    assert forall|k: int| #![trigger d2[k]] 0 <= k < d2.len() implies exists|m: int|
                        #![trigger t0[m]] 0 <= m < t0.len() && same_path(t0[m].suggestion.path@, d2[k].0) by {
                        if k < done.len() {
                            assert(d2[k] == done[k]);
                        } else {
                            assert(d2[k] == c);
                            assert(same_path(t0[i as int].suggestion.path@, d2[k].0));
                        }
                    }
                }
                return;
            }
            let ghost r_new = RankedSuggestion { priority, suggestion };
            table.remove(i);
            table.insert(i, RankedSuggestion { priority, suggestion });
            proof {
                let t1 = table@;
                let d2 = done.push(c);
                assert(t1 =~= t0.update(i as int, r_new));
                assert(cand_of(t1[i as int]) == c);
                assert(components(t1[i as int].suggestion.path@) == components(pi));
                assert forall|a: int, b: int| 0 <= a < b < t1.len() implies comps_order(
                    components(t1[a].suggestion.path@), components(t1[b].suggestion.path@)) < 0 by {
                    assert(components(t1[a].suggestion.path@) == components(t0[a].suggestion.path@));
                    assert(components(t1[b].suggestion.path@) == components(t0[b].suggestion.path@));
                }
                assert forall|j: int| #![trigger t1[j]] 0 <= j < t1.len() implies holder(d2, t1[j].suggestion.path@) == Some(cand_of(t1[j])) by {
                    lemma_holder_push(done, c, t1[j].suggestion.path@);
                    if j != i {
                        assert(t1[j] == t0[j]);
                    } else {
                        lemma_holder_same_path(done, t1[j].suggestion.path@, c.0);
                    }
                }
                assert forall|k: int| #![trigger d2[k]] 0 <= k < d2.len() implies exists|m: int|
                    #![trigger t1[m]] 0 <= m < t1.len() && same_path(t1[m].suggestion.path@, d2[k].0) by {
                    if k < done.len() {
                        assert(d2[k] == done[k]);
                        let m = choose|m: int| #![trigger t0[m]] 0 <= m < t0.len() && same_path(t0[m].suggestion.path@, done[k].0);
                        assert(components(t1[m].suggestion.path@) == components(t0[m].suggestion.path@));
                    } else {
                        assert(d2[k] == c);
                        assert(same_path(t1[i as int].suggestion.path@, d2[k].0));
                    }
                }
            }
            return;
        }
        proof {
            let pi = t0[i as int].suggestion.path@;
            lemma_comps_order_eq(components(pi), components(c.0));
            assert(comps_order(components(c.0), components(pi)) < 0);
        }
    }
    let ghost r_new = RankedSuggestion { priority, suggestion };
    table.insert(i, RankedSuggestion { priority, suggestion });
    proof {
        let t1 = table@;
        let d2 = done.push(c);
        assert(t1 =~= t0.insert(i as int, r_new));
        assert(cand_of(t1[i as int]) == c);
        assert(i < t0.len() ==> comps_order(components(c.0), components(t0[i as int].suggestion.path@)) < 0);
        assert forall|j: int| i <= j < t0.len() implies #[trigger] comps_order(components(c.0), components(t0[j].suggestion.path@)) < 0 by {
            if j > i {
                lemma_comps_order_trans(components(c.0), components(t0[i as int].suggestion.path@), components(t0[j].suggestion.path@));
            }
        }
        // every old entry orders strictly before or after the new path
        assert forall|j: int| 0 <= j < t0.len() implies #[trigger] comps_order(components(t0[j].suggestion.path@), components(c.0)) != 0 by {
            if j < i {
            } else {
                if j > i {
                    lemma_comps_order_trans(components(c.0), components(t0[i as int].suggestion.path@), components(t0[j].suggestion.path@));
                }
                lemma_comps_order_eq(components(c.0), components(t0[j].suggestion.path@));
            }
        }
        assert forall|j: int| 0 <= j < t0.len() implies !same_path(c.0, #[trigger] t0[j].suggestion.path@) by {
            lemma_comps_order_eq(components(t0[j].suggestion.path@), components(c.0));
            assert(comps_order(components(t0[j].suggestion.path@), components(c.0)) != 0);
        }
        assert(holder(done, c.0) is None) by {
            if holder(done, c.0) is Some {
                let h = holder(done, c.0).unwrap();
                let k = choose|k: int| #![trigger done[k]] 0 <= k < done.len() && done[k] == h;
                let m = choose|m: int| #![trigger t0[m]] 0 <= m < t0.len() && same_path(t0[m].suggestion.path@, done[k].0);
                assert(same_path(t0[m].suggestion.path@, c.0));
                assert(!same_path(c.0, t0[m].suggestion.path@));
            }
        }
        assert forall|a: int, b: int| 0 <= a < b < t1.len() implies comps_order(
            components(t1[a].suggestion.path@), components(t1[b].suggestion.path@)) < 0 by {
            if b < i {
                assert(t1[a] == t0[a] && t1[b] == t0[b]);
            } else if b == i {
                assert(t1[a] == t0[a]);
            } else if a < i {
                assert(t1[a] == t0[a] && t1[b] == t0[b - 1]);
                lemma_comps_order_trans(components(t0[a].suggestion.path@), components(c.0), components(t0[b - 1].suggestion.path@));
            } else if a == i {
                assert(t1[b] == t0[b - 1]);
                if b - 1 > i {
                    lemma_comps_order_trans(components(c.0), components(t0[i as int].suggestion.path@), components(t0[b - 1].suggestion.path@));
                }
            } else {
                assert(t1[a] == t0[a - 1] && t1[b] == t0[b - 1]);
            }
        }
        assert forall|j: int| #![trigger t1[j]] 0 <= j < t1.len() implies holder(d2, t1[j].suggestion.path@) == Some(cand_of(t1[j])) by {
            lemma_holder_push(done, c, t1[j].suggestion.path@);
            if j < i {
                assert(t1[j] == t0[j]);
            } else if j > i {
                assert(t1[j] == t0[j - 1]);
            }
        }
        assert forall|k: int| #![trigger d2[k]] 0 <= k < d2.len() implies exists|m: int|
            #![trigger t1[m]] 0 <= m < t1.len() && same_path(t1[m].suggestion.path@, d2[k].0) by {
            if k < done.len() {
                assert(d2[k] == done[k]);
                let m = choose|m: int| #![trigger t0[m]] 0 <= m < t0.len() && same_path(t0[m].suggestion.path@, done[k].0);
                if m < i {
                    assert(t1[m] == t0[m]);
                } else {
                    assert(t1[m + 1] == t0[m]);
                }
            } else {
                assert(d2[k] == c);
            }
        }
    }
}

/// The result of the local rules: one suggestion per named path, ordered by
/// path, each the candidate that holds its path.
pub open spec fn rule_suggestions(cands: Seq<Cand>, r: Seq<FileSuggestion>) -> bool {
    &&& forall|i: int, j: int|
        0 <= i < j < r.len() ==> comps_order(components(r[i].path@), components(r[j].path@)) < 0
    &&& forall|i: int|
        #![trigger r[i]]
        0 <= i < r.len() ==> (holder(cands, r[i].path@) matches Some(h) && h.0 == r[i].path@ && h.1
            == r[i].action && h.2 == r[i].risk && h.3 == r[i].reason@)
    &&& forall|k: int|
        #![trigger cands[k]]
        0 <= k < cands.len() ==> exists|i: int|
            #![trigger r[i]]
            0 <= i < r.len() && same_path(r[i].path@, cands[k].0)
}

fn offer(
    table: &mut Vec<RankedSuggestion>,
    path: &String,
    action: SuggestedAction,
    risk: RiskLevel,
    reason: &'static str,
    priority: u8,
    Ghost(done): Ghost<Seq<Cand>>,
)
    requires
        table_of(old(table)@, done),
    ensures
        table_of(final(table)@, done.push((path@, action, risk, reason@, priority))),
{
    let s = FileSuggestion { path: path.clone(), action, risk, reason: owned(reason) };
    upsert_suggestion(table, s, priority, Ghost(done));
}

fn duplicate_suggestion(
    group: &DuplicateGroup,
    file: &FileRecord,
    cautious: bool,
    auto: bool,
) -> (r: (SuggestedAction, RiskLevel, &'static str))
    requires
        cautious == needs_manual_review(group.files@),
        auto == auto_cleanup(group.files@),
    ensures
        duplicate_candidate(*group, *file) == (file.path@, r.0, r.1, r.2@, 50u8),
{
    let keep = match &group.suggested_keep {
        Some(k) => same_path_exec(file.path.as_str(), k.as_str()),
        None => false,
    };
    let transient = is_in_transient_location(file);
    let action = if cautious {
        SuggestedAction::Review
    } else if auto {
        if keep { SuggestedAction::Keep } else { SuggestedAction::Delete }
    } else if keep {
        SuggestedAction::Keep
    } else {
        SuggestedAction::Review
    };
    let risk = if cautious {
        RiskLevel::High
    } else if auto {
        if transient { RiskLevel::Low } else { RiskLevel::Medium }
    } else if action == SuggestedAction::Keep {
        RiskLevel::Low
    } else {
        RiskLevel::Medium
    };
    let reason = if cautious {
        DUP_CAUTIOUS_REASON
    } else if auto && action == SuggestedAction::Keep {
        DUP_AUTO_KEEP_REASON
    } else if auto && transient {
        DUP_AUTO_TRANSIENT_REASON
    } else if auto {
        DUP_AUTO_REASON
    } else if action == SuggestedAction::Keep {
        DUP_KEEP_REASON
    } else {
        DUP_REVIEW_REASON
    };
    (action, risk, reason)
}

/// `build_rule_based_suggestions`: one suggestion per path named by the
/// analysis or the duplicate groups, the rule with the highest priority
/// winning (duplicates 50, temporary files 40, empty entries 30, large
/// files 10; among equals the later one), ordered by path.
pub fn build_rule_based_suggestions(analysis: &AnalysisResult, dedup: &DedupResult) -> (r: Vec<FileSuggestion>)
    ensures
        rule_suggestions(rule_candidates(*analysis, *dedup), r@),
{
    let mut table: Vec<RankedSuggestion> = Vec::new();
    let ghost a_part = analysis.empty_files@.map_values(|f: FileRecord| (f.path@, SuggestedAction::Delete, RiskLevel::Low, EMPTY_FILE_REASON@, 30u8));
    let ghost b_part = analysis.empty_dirs@.map_values(|p: String| (p@, SuggestedAction::Delete, RiskLevel::Low, EMPTY_DIR_REASON@, 30u8));
    let ghost c_part = analysis.temporary_files@.map_values(|f: FileRecord| (f.path@, SuggestedAction::Delete, RiskLevel::Low, TEMP_FILE_REASON@, 40u8));
    let n_large: usize = if analysis.large_files.len() < 20 { analysis.large_files.len() } else { 20 };
    let ghost d_part = analysis.large_files@.take(n_large as int).map_values(|f: FileRecord| large_candidate(f));
    let ghost e_parts = dedup.groups@.map_values(|g: DuplicateGroup| group_candidates(g));
    assert(rule_candidates(*analysis, *dedup) == a_part + b_part + c_part + d_part + e_parts.flatten());

    let ghost mut done: Seq<Cand> = Seq::empty();
    let mut i: usize = 0;
    while i < analysis.empty_files.len()
        invariant
            i <= analysis.empty_files@.len(),
            a_part == analysis.empty_files@.map_values(|f: FileRecord| (f.path@, SuggestedAction::Delete, RiskLevel::Low, EMPTY_FILE_REASON@, 30u8)),
            done =~= a_part.take(i as int),
            table_of(table@, done),
        decreases analysis.empty_files@.len() - i,
    {
        offer(&mut table, &analysis.empty_files[i].path, SuggestedAction::Delete, RiskLevel::Low, EMPTY_FILE_REASON, 30, Ghost(done));
        proof { done = done.push(a_part[i as int]); }
        i += 1;
    }
    assert(done =~= a_part);
    let ghost base = done;
    i = 0;
    while i < analysis.empty_dirs.len()
        invariant
            i <= analysis.empty_dirs@.len(),
            b_part == analysis.empty_dirs@.map_values(|p: String| (p@, SuggestedAction::Delete, RiskLevel::Low, EMPTY_DIR_REASON@, 30u8)),
            done =~= base + b_part.take(i as int),
            table_of(table@, done),
        decreases analysis.empty_dirs@.len() - i,
    {
        offer(&mut table, &analysis.empty_dirs[i], SuggestedAction::Delete, RiskLevel::Low, EMPTY_DIR_REASON, 30, Ghost(done));
        proof { done = done.push(b_part[i as int]); }
        i += 1;
    }
    assert(done =~= a_part + b_part);
    let ghost base = done;
    i = 0;
    while i < analysis.temporary_files.len()
        invariant
            i <= analysis.temporary_files@.len(),
            c_part == analysis.temporary_files@.map_values(|f: FileRecord| (f.path@, SuggestedAction::Delete, RiskLevel::Low, TEMP_FILE_REASON@, 40u8)),
            done =~= base + c_part.take(i as int),
            table_of(table@, done),
        decreases analysis.temporary_files@.len() - i,
    {
        offer(&mut table, &analysis.temporary_files[i].path, SuggestedAction::Delete, RiskLevel::Low, TEMP_FILE_REASON, 40, Ghost(done));
        proof { done = done.push(c_part[i as int]); }
        i += 1;
    }
    assert(done =~= a_part + b_part + c_part);
    let ghost base = done;
    i = 0;
    while i < n_large
        invariant
            i <= n_large,
            n_large <= analysis.large_files@.len(),
            d_part == analysis.large_files@.take(n_large as int).map_values(|f: FileRecord| large_candidate(f)),
            done =~= base + d_part.take(i as int),
            table_of(table@, done),
        decreases n_large - i,
    {
        let file = &analysis.large_files[i];
        let document = is_document_like(file);
        let action = if is_archive_or_installer_file(file) && !document {
            SuggestedAction::Move
        } else {
            SuggestedAction::Review
        };
        let reason = if document {
            LARGE_DOCUMENT_REASON
        } else if action == SuggestedAction::Move {
            LARGE_ARCHIVE_REASON
        } else {
            LARGE_FILE_REASON
        };
        assert(d_part[i as int] == large_candidate(*file));
        offer(&mut table, &file.path, action, RiskLevel::Medium, reason, 10, Ghost(done));
        proof { done = done.push(d_part[i as int]); }
        i += 1;
    }
    assert(done =~= a_part + b_part + c_part + d_part);
    let ghost base = done;
    let mut g: usize = 0;
    while g < dedup.groups.len()
        invariant
            g <= dedup.groups@.len(),
            e_parts == dedup.groups@.map_values(|g: DuplicateGroup| group_candidates(g)),
            done =~= base + e_parts.take(g as int).flatten(),
            table_of(table@, done),
        decreases dedup.groups@.len() - g,
    {
        let group = &dedup.groups[g];
        let cautious = should_require_manual_review(group);
        let auto = should_auto_cleanup_duplicate(group);
        let ghost gbase = done;
        let ghost gc = group_candidates(*group);
        let mut f: usize = 0;
        while f < group.files.len()
            invariant
                f <= group.files@.len(),
                cautious == needs_manual_review(group.files@),
                auto == auto_cleanup(group.files@),
                gc == group_candidates(*group),
                done =~= gbase + gc.take(f as int),
                table_of(table@, done),
            decreases group.files@.len() - f,
        {
            let file = &group.files[f];
            let (action, risk, reason) = duplicate_suggestion(group, file, cautious, auto);
            offer(&mut table, &file.path, action, risk, reason, 50, Ghost(done));
            proof { done = done.push(gc[f as int]); }
            f += 1;
        }
        proof {
            assert(gc.take(gc.len() as int) =~= gc);
            assert(e_parts.take(g + 1) =~= e_parts.take(g as int).push(gc));
            Seq::lemma_flatten_push(e_parts.take(g as int), gc);
        }
        g += 1;
    }
    assert(e_parts.take(e_parts.len() as int) =~= e_parts);
    let ghost cands = rule_candidates(*analysis, *dedup);
    assert(done =~= cands);

    let mut out: Vec<FileSuggestion> = Vec::new();
    let mut k: usize = 0;
    while k < table.len()
        invariant
            k <= table@.len(),
            table_of(table@, cands),
            out@.len() == k,
            forall|j: int| #![trigger out@[j]] 0 <= j < k ==> out@[j].path@ == table@[j].suggestion.path@
                && out@[j].action == table@[j].suggestion.action && out@[j].risk == table@[j].suggestion.risk
                && out@[j].reason@ == table@[j].suggestion.reason@,
        decreases table@.len() - k,
    {
        out.push(crate::advisor::copy_suggestion(&table[k].suggestion));
        k += 1;
    }
    proof {
        let t = table@;
        assert forall|i: int| #![trigger out@[i]] 0 <= i < out@.len() implies (holder(cands, out@[i].path@) matches Some(h) && h.0 == out@[i].path@ && h.1
            == out@[i].action && h.2 == out@[i].risk && h.3 == out@[i].reason@) by {
            assert(holder(cands, t[i].suggestion.path@) == Some(cand_of(t[i])));
        }
        assert forall|a: int, b: int| 0 <= a < b < out@.len() implies comps_order(components(out@[a].path@), components(out@[b].path@)) < 0 by {
            assert(out@[a].path@ == t[a].suggestion.path@);
            assert(out@[b].path@ == t[b].suggestion.path@);
        }
        assert forall|k: int| #![trigger cands[k]] 0 <= k < cands.len() implies exists|i: int|
            #![trigger out@[i]] 0 <= i < out@.len() && same_path(out@[i].path@, cands[k].0) by {
            let m = choose|m: int| #![trigger t[m]] 0 <= m < t.len() && same_path(t[m].suggestion.path@, cands[k].0);
            assert(out@[m].path@ == t[m].suggestion.path@);
        }
    }
    out
}

proof fn lemma_flatten_index<T>(e: Seq<Seq<T>>, k: int)
    requires
        0 <= k < e.flatten().len(),
    ensures
        exists|m: int, x: int| 0 <= m < e.len() && 0 <= x < e[m].len() && #[trigger] e[m][x] == e.flatten()[k],
    decreases e.len(),
{
    if e.len() == 0 {
        assert(e.flatten().len() == 0);
    } else {
        let f = e.first() + e.drop_first().flatten();
        assert(e.flatten() == f);
        if k < e.first().len() {
            assert(f[k] == e[0][k]);
        } else {
            let k2 = k - e.first().len();
            lemma_flatten_index(e.drop_first(), k2);
            let (m, x) = choose|m: int, x: int| 0 <= m < e.drop_first().len() && 0 <= x < e.drop_first()[m].len()
                && #[trigger] e.drop_first()[m][x] == e.drop_first().flatten()[k2];
            assert(e.drop_first()[m] == e[m + 1]);
            assert(f[k] == e.drop_first().flatten()[k2]);
            assert(e[m + 1][x] == e.flatten()[k]);
        }
    }
}

/// Where a candidate of the local rules comes from: the part it was
/// offered in, and the entry of the analysis or duplicate report behind it.
proof fn lemma_candidate_source(a: AnalysisResult, d: DedupResult, j: int)
    requires
        0 <= j < rule_candidates(a, d).len(),
    ensures
        ({
            let c = rule_candidates(a, d)[j];
            let n = if a.large_files@.len() < 20 { a.large_files@.len() } else { 20 };
            ||| exists|t: int| 0 <= t < a.empty_files@.len() && #[trigger] a.empty_files@[t].path@ == c.0
                && c.1 == SuggestedAction::Delete && c.4 == 30
            ||| exists|t: int| 0 <= t < a.empty_dirs@.len() && #[trigger] a.empty_dirs@[t]@ == c.0
                && c.1 == SuggestedAction::Delete && c.4 == 30
            ||| exists|t: int| 0 <= t < a.temporary_files@.len() && #[trigger] a.temporary_files@[t].path@ == c.0
                && c.1 == SuggestedAction::Delete && c.4 == 40
            ||| exists|t: int| 0 <= t < n && c == large_candidate(#[trigger] a.large_files@[t])
                && j == a.empty_files@.len() + a.empty_dirs@.len() + a.temporary_files@.len() + t
            ||| exists|g: int, x: int| 0 <= g < d.groups@.len() && 0 <= x < d.groups@[g].files@.len()
                && c == duplicate_candidate(d.groups@[g], #[trigger] d.groups@[g].files@[x])
        }),
{
    let n = if a.large_files@.len() < 20 { a.large_files@.len() } else { 20 };
    let pa = a.empty_files@.map_values(|f: FileRecord| (f.path@, SuggestedAction::Delete, RiskLevel::Low, EMPTY_FILE_REASON@, 30u8));
    let pb = a.empty_dirs@.map_values(|p: String| (p@, SuggestedAction::Delete, RiskLevel::Low, EMPTY_DIR_REASON@, 30u8));
    let pc = a.temporary_files@.map_values(|f: FileRecord| (f.path@, SuggestedAction::Delete, RiskLevel::Low, TEMP_FILE_REASON@, 40u8));
    let pd = a.large_files@.take(n as int).map_values(|f: FileRecord| large_candidate(f));
    let pe = d.groups@.map_values(|g: DuplicateGroup| group_candidates(g));
    let cands = rule_candidates(a, d);
    assert(cands == pa + pb + pc + pd + pe.flatten());
    let la = pa.len() as int;
    let lb = pb.len() as int;
    let lc = pc.len() as int;
    let ld = pd.len() as int;
    if j < la {
        assert(cands[j] == pa[j]);
        assert(a.empty_files@[j].path@ == cands[j].0);
    } else if j < la + lb {
        assert(cands[j] == pb[j - la]);
        assert(a.empty_dirs@[j - la]@ == cands[j].0);
    } else if j < la + lb + lc {
        assert(cands[j] == pc[j - la - lb]);
        assert(a.temporary_files@[j - la - lb].path@ == cands[j].0);
    } else if j < la + lb + lc + ld {
        let t = j - la - lb - lc;
        assert(cands[j] == pd[t]);
        assert(pd[t] == large_candidate(a.large_files@[t]));
    } else {
        let t = j - la - lb - lc - ld;
        assert(cands[j] == pe.flatten()[t]);
        lemma_flatten_index(pe, t);
        let (g, x) = choose|g: int, x: int| 0 <= g < pe.len() && 0 <= x < pe[g].len() && #[trigger] pe[g][x] == pe.flatten()[t];
        assert(pe[g] == group_candidates(d.groups@[g]));
        assert(pe[g][x] == duplicate_candidate(d.groups@[g], d.groups@[g].files@[x]));
    }
}

/// Only a large archive or installer is suggested for a move: every move
/// among the suggestions names one of the twenty largest files, whose
/// extension is that of an archive or installer and not of a document,
/// at a medium risk and with the archive reason.
pub proof fn law_only_large_archives_are_moved(a: AnalysisResult, d: DedupResult, r: Seq<FileSuggestion>)
    requires
        rule_suggestions(rule_candidates(a, d), r),
    ensures
        forall|i: int| #![trigger r[i]] 0 <= i < r.len() && r[i].action == SuggestedAction::Move ==> {
            &&& r[i].risk == RiskLevel::Medium
            &&& r[i].reason@ == LARGE_ARCHIVE_REASON@
            &&& exists|k: int| 0 <= k < 20 && k < a.large_files@.len() && #[trigger] a.large_files@[k].path@ == r[i].path@
                && path_extension_listed(a.large_files@[k].path@, seq!["zip", "7z", "rar", "iso", "exe", "msi", "dmg"])
                && !record_extension_listed(a.large_files@[k], seq!["pdf", "ppt", "pptx", "doc", "docx", "xls", "xlsx", "wps", "md"])
        },
{
    let cands = rule_candidates(a, d);
    assert forall|i: int| #![trigger r[i]] 0 <= i < r.len() && r[i].action == SuggestedAction::Move implies {
        &&& r[i].risk == RiskLevel::Medium
        &&& r[i].reason@ == LARGE_ARCHIVE_REASON@
        &&& exists|k: int| 0 <= k < 20 && k < a.large_files@.len() && #[trigger] a.large_files@[k].path@ == r[i].path@
            && path_extension_listed(a.large_files@[k].path@, seq!["zip", "7z", "rar", "iso", "exe", "msi", "dmg"])
            && !record_extension_listed(a.large_files@[k], seq!["pdf", "ppt", "pptx", "doc", "docx", "xls", "xlsx", "wps", "md"])
    } by {
        lemma_holder_names(cands, r[i].path@);
        let h = holder(cands, r[i].path@).unwrap();
        let j = choose|j: int| #![trigger cands[j]] 0 <= j < cands.len() && cands[j] == h;
        lemma_candidate_source(a, d, j);
        if exists|g: int, x: int| 0 <= g < d.groups@.len() && 0 <= x < d.groups@[g].files@.len()
            && cands[j] == duplicate_candidate(d.groups@[g], #[trigger] d.groups@[g].files@[x]) {
            let (g, x) = choose|g: int, x: int| 0 <= g < d.groups@.len() && 0 <= x < d.groups@[g].files@.len()
                && cands[j] == duplicate_candidate(d.groups@[g], #[trigger] d.groups@[g].files@[x]);
            assert(duplicate_candidate(d.groups@[g], d.groups@[g].files@[x]).1 != SuggestedAction::Move);
        } else {
            let n = if a.large_files@.len() < 20 { a.large_files@.len() } else { 20 };
            let k = choose|k: int| 0 <= k < n && cands[j] == large_candidate(#[trigger] a.large_files@[k])
                && j == a.empty_files@.len() + a.empty_dirs@.len() + a.temporary_files@.len() + k;
            assert(a.large_files@[k].path@ == r[i].path@);
        }
    }
}

/// Only one candidate names `p`: it holds the path.
proof fn lemma_holder_unique(cands: Seq<Cand>, p: Seq<char>, idx: int)
    requires
        0 <= idx < cands.len(),
        same_path(cands[idx].0, p),
        forall|j: int| 0 <= j < cands.len() && j != idx ==> !same_path(#[trigger] cands[j].0, p),
    ensures
        holder(cands, p) == Some(cands[idx]),
    decreases cands.len(),
{
    let prev = cands.drop_last();
    if idx == cands.len() - 1 {
        assert forall|j: int| 0 <= j < prev.len() implies !same_path(#[trigger] prev[j].0, p) by {
            assert(prev[j] == cands[j]);
        }
        lemma_holder_names(prev, p);
    } else {
        assert forall|j: int| 0 <= j < prev.len() && j != idx implies !same_path(#[trigger] prev[j].0, p) by {
            assert(prev[j] == cands[j]);
        }
        assert(prev[idx] == cands[idx]);
        lemma_holder_unique(prev, p, idx);
        assert(!same_path(cands[cands.len() - 1].0, p));
    }
}

/// The candidate of the `k`-th large file, and where it stands.
proof fn lemma_large_candidate_at(a: AnalysisResult, d: DedupResult, k: int)
    requires
        0 <= k < 20,
        k < a.large_files@.len(),
    ensures
        a.empty_files@.len() + a.empty_dirs@.len() + a.temporary_files@.len() + k < rule_candidates(a, d).len(),
        rule_candidates(a, d)[a.empty_files@.len() + a.empty_dirs@.len() + a.temporary_files@.len() + k]
            == large_candidate(a.large_files@[k]),
{
    let n = if a.large_files@.len() < 20 { a.large_files@.len() } else { 20 };
    let pa = a.empty_files@.map_values(|f: FileRecord| (f.path@, SuggestedAction::Delete, RiskLevel::Low, EMPTY_FILE_REASON@, 30u8));
    let pb = a.empty_dirs@.map_values(|p: String| (p@, SuggestedAction::Delete, RiskLevel::Low, EMPTY_DIR_REASON@, 30u8));
    let pc = a.temporary_files@.map_values(|f: FileRecord| (f.path@, SuggestedAction::Delete, RiskLevel::Low, TEMP_FILE_REASON@, 40u8));
    let pd = a.large_files@.take(n as int).map_values(|f: FileRecord| large_candidate(f));
    let pe = d.groups@.map_values(|g: DuplicateGroup| group_candidates(g));
    let cands = rule_candidates(a, d);
    assert(cands == pa + pb + pc + pd + pe.flatten());
    let j = pa.len() + pb.len() + pc.len() + k;
    assert(cands[j] == pd[k]);
    assert(pd[k] == large_candidate(a.large_files@[k]));
}

/// A large file that no other rule names gets one suggestion, at a medium
/// risk: a document is left for review with the reason of documents; an
/// archive or installer that is no document is to be moved to an archive
/// with the reason of archives; any other large file is left for review
/// with the reason of large files.
pub proof fn law_large_file_suggestion(a: AnalysisResult, d: DedupResult, r: Seq<FileSuggestion>, k: int)
    requires
        rule_suggestions(rule_candidates(a, d), r),
        0 <= k < 20,
        k < a.large_files@.len(),
        forall|t: int| 0 <= t < a.empty_files@.len() ==> !same_path(#[trigger] a.empty_files@[t].path@, a.large_files@[k].path@),
        forall|t: int| 0 <= t < a.empty_dirs@.len() ==> !same_path(#[trigger] a.empty_dirs@[t]@, a.large_files@[k].path@),
        forall|t: int| 0 <= t < a.temporary_files@.len() ==> !same_path(#[trigger] a.temporary_files@[t].path@, a.large_files@[k].path@),
        forall|t: int| 0 <= t < 20 && t < a.large_files@.len() && t != k ==> !same_path(#[trigger] a.large_files@[t].path@, a.large_files@[k].path@),
        forall|g: int, x: int| 0 <= g < d.groups@.len() && 0 <= x < d.groups@[g].files@.len()
            ==> !same_path(#[trigger] d.groups@[g].files@[x].path@, a.large_files@[k].path@),
    ensures
        ({
            let f = a.large_files@[k];
            let document = record_extension_listed(f, seq!["pdf", "ppt", "pptx", "doc", "docx", "xls", "xlsx", "wps", "md"]);
            let archive = path_extension_listed(f.path@, seq!["zip", "7z", "rar", "iso", "exe", "msi", "dmg"]);
            exists|i: int| #![trigger r[i]] 0 <= i < r.len() && same_path(r[i].path@, f.path@)
                && r[i].risk == RiskLevel::Medium
                && if document {
                    r[i].action == SuggestedAction::Review && r[i].reason@ == LARGE_DOCUMENT_REASON@
                } else if archive {
                    r[i].action == SuggestedAction::Move && r[i].reason@ == LARGE_ARCHIVE_REASON@
                } else {
                    r[i].action == SuggestedAction::Review && r[i].reason@ == LARGE_FILE_REASON@
                }
        }),
{
    let cands = rule_candidates(a, d);
    let f = a.large_files@[k];
    let p = f.path@;
    let idx = a.empty_files@.len() + a.empty_dirs@.len() + a.temporary_files@.len() + k;
    let n = if a.large_files@.len() < 20 { a.large_files@.len() } else { 20 };
    lemma_large_candidate_at(a, d, k);
    assert forall|j: int| 0 <= j < cands.len() && j != idx implies !same_path(#[trigger] cands[j].0, p) by {
        lemma_candidate_source(a, d, j);
        if exists|t: int| 0 <= t < n && cands[j] == large_candidate(#[trigger] a.large_files@[t])
            && j == a.empty_files@.len() + a.empty_dirs@.len() + a.temporary_files@.len() + t {
            let t = choose|t: int| 0 <= t < n && cands[j] == large_candidate(#[trigger] a.large_files@[t])
                && j == a.empty_files@.len() + a.empty_dirs@.len() + a.temporary_files@.len() + t;
            assert(t != k);
            assert(!same_path(a.large_files@[t].path@, p));
        } else if exists|g: int, x: int| 0 <= g < d.groups@.len() && 0 <= x < d.groups@[g].files@.len()
            && cands[j] == duplicate_candidate(d.groups@[g], #[trigger] d.groups@[g].files@[x]) {
            let (g, x) = choose|g: int, x: int| 0 <= g < d.groups@.len() && 0 <= x < d.groups@[g].files@.len()
                && cands[j] == duplicate_candidate(d.groups@[g], #[trigger] d.groups@[g].files@[x]);
            assert(!same_path(d.groups@[g].files@[x].path@, p));
        } else if exists|t: int| 0 <= t < a.empty_files@.len() && #[trigger] a.empty_files@[t].path@ == cands[j].0
            && cands[j].1 == SuggestedAction::Delete && cands[j].4 == 30 {
            let t = choose|t: int| 0 <= t < a.empty_files@.len() && #[trigger] a.empty_files@[t].path@ == cands[j].0
                && cands[j].1 == SuggestedAction::Delete && cands[j].4 == 30;
            assert(!same_path(a.empty_files@[t].path@, p));
        } else if exists|t: int| 0 <= t < a.empty_dirs@.len() && #[trigger] a.empty_dirs@[t]@ == cands[j].0
            && cands[j].1 == SuggestedAction::Delete && cands[j].4 == 30 {
            let t = choose|t: int| 0 <= t < a.empty_dirs@.len() && #[trigger] a.empty_dirs@[t]@ == cands[j].0
                && cands[j].1 == SuggestedAction::Delete && cands[j].4 == 30;
            assert(!same_path(a.empty_dirs@[t]@, p));
        } else {
            let t = choose|t: int| 0 <= t < a.temporary_files@.len() && #[trigger] a.temporary_files@[t].path@ == cands[j].0
                && cands[j].1 == SuggestedAction::Delete && cands[j].4 == 40;
            assert(!same_path(a.temporary_files@[t].path@, p));
        }
    }
    lemma_holder_unique(cands, p, idx);
    let c = large_candidate(f);
    assert(cands[idx] == c);
    let i = choose|i: int| #![trigger r[i]] 0 <= i < r.len() && same_path(r[i].path@, cands[idx].0);
    lemma_holder_same_path(cands, r[i].path@, p);
}

/// The rule that every local candidate obeys: a high risk always comes
/// with a review, and a delete is never high risk.
pub open spec fn cautious_candidate(c: Cand) -> bool {
    &&& c.2 == RiskLevel::High ==> c.1 == SuggestedAction::Review
    &&& c.1 == SuggestedAction::Delete ==> c.2 != RiskLevel::High
}

proof fn lemma_candidates_cautious(a: AnalysisResult, d: DedupResult)
    ensures
        forall|k: int| 0 <= k < rule_candidates(a, d).len() ==> cautious_candidate(#[trigger] rule_candidates(a, d)[k]),
{
    let n = if a.large_files@.len() < 20 { a.large_files@.len() } else { 20 };
    let e = d.groups@.map_values(|g: DuplicateGroup| group_candidates(g));
    assert forall|m: int, x: int| 0 <= m < e.len() && 0 <= x < e[m].len() implies cautious_candidate(#[trigger] e[m][x]) by {
        assert(e[m] == group_candidates(d.groups@[m]));
    }
    lemma_flatten_all(e);
}

proof fn lemma_flatten_all(e: Seq<Seq<Cand>>)
    requires
        forall|m: int, x: int| 0 <= m < e.len() && 0 <= x < e[m].len() ==> cautious_candidate(#[trigger] e[m][x]),
    ensures
        forall|k: int| 0 <= k < e.flatten().len() ==> cautious_candidate(#[trigger] e.flatten()[k]),
    decreases e.len(),
{
    if e.len() > 0 {
        lemma_flatten_all(e.drop_first());
        assert forall|k: int| 0 <= k < e.flatten().len() implies cautious_candidate(#[trigger] e.flatten()[k]) by {
            let f = e.first() + e.drop_first().flatten();
            assert(e.flatten() == f);
            if k < e.first().len() {
                assert(f[k] == e[0][k]);
            } else {
                assert(f[k] == e.drop_first().flatten()[k - e.first().len()]);
                assert forall|m: int, x: int| 0 <= m < e.drop_first().len() && 0 <= x < e.drop_first()[m].len() implies cautious_candidate(#[trigger] e.drop_first()[m][x]) by {
                    assert(e.drop_first()[m] == e[m + 1]);
                }
            }
        }
    }
}

/// Local rules never pair a delete with a high risk, and every high-risk
/// suggestion is a review: project files, documents and copies spread over
/// workspaces are left to a person.
pub proof fn law_high_risk_suggestions_are_reviews(a: AnalysisResult, d: DedupResult, r: Seq<FileSuggestion>)
    requires
        rule_suggestions(rule_candidates(a, d), r),
    ensures
        forall|i: int| #![trigger r[i]] 0 <= i < r.len() ==> (r[i].risk == RiskLevel::High ==> r[i].action == SuggestedAction::Review),
        forall|i: int| #![trigger r[i]] 0 <= i < r.len() ==> (r[i].action == SuggestedAction::Delete ==> r[i].risk != RiskLevel::High),
{
    let cands = rule_candidates(a, d);
    lemma_candidates_cautious(a, d);
    assert forall|i: int| #![trigger r[i]] 0 <= i < r.len() implies cautious_candidate(holder(cands, r[i].path@).unwrap()) && holder(cands, r[i].path@) is Some by {
        lemma_holder_names(cands, r[i].path@);
        let h = holder(cands, r[i].path@).unwrap();
        let k = choose|k: int| #![trigger cands[k]] 0 <= k < cands.len() && cands[k] == h;
        assert(cautious_candidate(cands[k]));
    }
}

} // verus!
