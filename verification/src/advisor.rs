//! Cleanup advice: the local rules that turn an analysis into file
//! suggestions, and the safety checks that bound what remote advice may
//! change in them.

use vstd::prelude::*;
use crate::models::{DuplicateGroup, FileRecord, FileSuggestion, RiskLevel, SuggestedAction};
use crate::paths::components;
use crate::rules::{
    archive_or_installer_file, document_like, is_archive_or_installer_file, is_document_like,
    is_project_sensitive_duplicate, project_sensitive,
};
use crate::text::{join, lower, to_lower, views};
use crate::order::same_path_exec;
use crate::paths::same_path;
use crate::text::{is_blank, is_blank_str};

verus! {

/// The rank of a risk level: low 1, medium 2, high 3.
pub open spec fn rank(r: RiskLevel) -> u8 {
    match r {
        RiskLevel::Low => 1,
        RiskLevel::Medium => 2,
        RiskLevel::High => 3,
    }
}

/// The higher of two risk levels (the left one when they are equal).
pub open spec fn higher_risk(left: RiskLevel, right: RiskLevel) -> RiskLevel {
    if rank(left) >= rank(right) {
        left
    } else {
        right
    }
}

/// What a remote suggestion may turn a local action into: a kept copy stays
/// kept, a high-risk review stays a review, a review may only become a move,
/// and a delete or move may become a delete, a move or a review.
pub open spec fn sanitized_action(
    local_action: SuggestedAction,
    local_risk: RiskLevel,
    ai_action: SuggestedAction,
) -> SuggestedAction {
    if local_action == SuggestedAction::Keep {
        SuggestedAction::Keep
    } else if local_action == SuggestedAction::Review && local_risk == RiskLevel::High {
        SuggestedAction::Review
    } else {
        match local_action {
            SuggestedAction::Delete => if ai_action == SuggestedAction::Keep {
                SuggestedAction::Delete
            } else {
                ai_action
            },
            SuggestedAction::Move => if ai_action == SuggestedAction::Keep {
                SuggestedAction::Move
            } else {
                ai_action
            },
            SuggestedAction::Review => if ai_action == SuggestedAction::Move
                || ai_action == SuggestedAction::Review {
                ai_action
            } else {
                SuggestedAction::Review
            },
            SuggestedAction::Keep => SuggestedAction::Keep,
        }
    }
}

pub fn risk_rank(value: RiskLevel) -> (r: u8)
    ensures
        r == rank(value),
{
    match value {
        RiskLevel::Low => 1,
        RiskLevel::Medium => 2,
        RiskLevel::High => 3,
    }
}

pub fn max_risk(left: RiskLevel, right: RiskLevel) -> (r: RiskLevel)
    ensures
        r == higher_risk(left, right),
{
    if risk_rank(left) >= risk_rank(right) {
        left
    } else {
        right
    }
}

pub fn sanitize_ai_action(local: &FileSuggestion, ai_item: &FileSuggestion) -> (r: SuggestedAction)
    ensures
        r == sanitized_action(local.action, local.risk, ai_item.action),
{
    if local.action == SuggestedAction::Keep {
        return SuggestedAction::Keep;
    }
    if local.action == SuggestedAction::Review && local.risk == RiskLevel::High {
        return SuggestedAction::Review;
    }
    match local.action {
        SuggestedAction::Delete => match ai_item.action {
            SuggestedAction::Keep => SuggestedAction::Delete,
            other => other,
        },
        SuggestedAction::Move => match ai_item.action {
            SuggestedAction::Keep => SuggestedAction::Move,
            other => other,
        },
        SuggestedAction::Review => match ai_item.action {
            SuggestedAction::Move => SuggestedAction::Move,
            SuggestedAction::Review => SuggestedAction::Review,
            _ => SuggestedAction::Review,
        },
        SuggestedAction::Keep => SuggestedAction::Keep,
    }
}

/// Safety of remote advice: whatever a remote suggestion says, a kept copy
/// stays kept, a high-risk review stays a review, a review never becomes a
/// delete or a keep, a delete only comes out of a local delete or move, and
/// a keep only out of a local keep.
pub proof fn law_remote_advice_cannot_override_safety(
    local_action: SuggestedAction,
    local_risk: RiskLevel,
    ai_action: SuggestedAction,
)
    ensures
        local_action == SuggestedAction::Keep ==> sanitized_action(
            local_action,
            local_risk,
            ai_action,
        ) == SuggestedAction::Keep,
        local_action == SuggestedAction::Review && local_risk == RiskLevel::High
            ==> sanitized_action(local_action, local_risk, ai_action) == SuggestedAction::Review,
        local_action == SuggestedAction::Review ==> (sanitized_action(
            local_action,
            local_risk,
            ai_action,
        ) == SuggestedAction::Review || sanitized_action(local_action, local_risk, ai_action)
            == SuggestedAction::Move),
        sanitized_action(local_action, local_risk, ai_action) == SuggestedAction::Delete
            ==> (local_action == SuggestedAction::Delete || local_action == SuggestedAction::Move),
        sanitized_action(local_action, local_risk, ai_action) == SuggestedAction::Keep
            ==> local_action == SuggestedAction::Keep,
{
}

/// Remote advice is heard within the safety rules: a remote review turns
/// any local action but a keep into a review; for a local delete or move
/// the remote action is taken unless it is a keep, which leaves the local
/// action; and a remote move turns an ordinary local review into a move.
pub proof fn law_remote_advice_is_heard(
    local_action: SuggestedAction,
    local_risk: RiskLevel,
    ai_action: SuggestedAction,
)
    ensures
        ai_action == SuggestedAction::Review && local_action != SuggestedAction::Keep
            ==> sanitized_action(local_action, local_risk, ai_action) == SuggestedAction::Review,
        (local_action == SuggestedAction::Delete || local_action == SuggestedAction::Move)
            ==> sanitized_action(local_action, local_risk, ai_action) == (if ai_action == SuggestedAction::Keep {
                local_action
            } else {
                ai_action
            }),
        local_action == SuggestedAction::Review && local_risk != RiskLevel::High && ai_action == SuggestedAction::Move
            ==> sanitized_action(local_action, local_risk, ai_action) == SuggestedAction::Move,
{
}

/// The merged risk is never below either the local or the remote risk.
pub proof fn law_merged_risk_never_lowers(left: RiskLevel, right: RiskLevel)
    ensures
        rank(higher_risk(left, right)) >= rank(left),
        rank(higher_risk(left, right)) >= rank(right),
        higher_risk(left, right) == left || higher_risk(left, right) == right,
{
}

/// The remote suggestion that applies to `path`: the last one naming it.
pub open spec fn remote_for(ai: Seq<FileSuggestion>, path: Seq<char>) -> Option<FileSuggestion>
    decreases ai.len(),
{
    if ai.len() == 0 {
        None
    } else if same_path(ai.last().path@, path) {
        Some(ai.last())
    } else {
        remote_for(ai.drop_last(), path)
    }
}

/// A local suggestion after remote advice: the path stays; the action is
/// sanitized, the risk is the higher one, and a non-blank remote reason
/// replaces the local one.
pub open spec fn merged_with(local: FileSuggestion, ai: Seq<FileSuggestion>, out: FileSuggestion) -> bool {
    &&& out.path@ == local.path@
    &&& match remote_for(ai, local.path@) {
        None => out.action == local.action && out.risk == local.risk && out.reason@
            == local.reason@,
        Some(a) => {
            &&& out.action == sanitized_action(local.action, local.risk, a.action)
            &&& out.risk == higher_risk(local.risk, a.risk)
            &&& out.reason@ == (if is_blank(a.reason@) {
                local.reason@
            } else {
                a.reason@
            })
        },
    }
}

/// A copy of a suggestion.
pub fn copy_suggestion(s: &FileSuggestion) -> (r: FileSuggestion)
    ensures
        r == *s,
{
    FileSuggestion { path: s.path.clone(), action: s.action, risk: s.risk, reason: s.reason.clone() }
}

fn find_remote(ai: &Vec<FileSuggestion>, path: &String) -> (r: Option<usize>)
    ensures
        match r {
            Some(i) => i < ai@.len() && remote_for(ai@, path@) == Some(ai@[i as int]),
            None => remote_for(ai@, path@) is None,
        },
{
    let mut i: usize = ai.len();
    assert(ai@.take(i as int) =~= ai@);
    while i > 0
        invariant
            i <= ai@.len(),
            remote_for(ai@, path@) == remote_for(ai@.take(i as int), path@),
        decreases i,
    {
        let ghost t = ai@.take(i as int);
        assert(t.drop_last() =~= ai@.take(i - 1));
        assert(t.last() == ai@[i - 1]);
        if same_path_exec(ai[i - 1].path.as_str(), path.as_str()) {
            return Some(i - 1);
        }
        i -= 1;
    }
    None
}

/// Applies remote suggestions to the local ones; every local suggestion
/// stays, in order, and only the bounded changes of [`merged_with`] apply.
pub fn merge_ai_suggestions(
    local_suggestions: &Vec<FileSuggestion>,
    ai_suggestions: &Vec<FileSuggestion>,
) -> (r: Vec<FileSuggestion>)
    ensures
        r@.len() == local_suggestions@.len(),
        forall|i: int|
            0 <= i < r@.len() ==> merged_with(
                #[trigger] local_suggestions@[i],
                ai_suggestions@,
                r@[i],
            ),
{
    let mut out: Vec<FileSuggestion> = Vec::new();
    let mut i: usize = 0;
    while i < local_suggestions.len()
        invariant
            i <= local_suggestions@.len(),
            out@.len() == i,
            forall|k: int|
                0 <= k < i ==> merged_with(
                    #[trigger] local_suggestions@[k],
                    ai_suggestions@,
                    out@[k],
                ),
        decreases local_suggestions@.len() - i,
    {
        let local = &local_suggestions[i];
        match find_remote(ai_suggestions, &local.path) {
            None => {
                out.push(copy_suggestion(local));
            },
            Some(j) => {
                let ai_item = &ai_suggestions[j];
                let action = sanitize_ai_action(local, ai_item);
                let risk = max_risk(local.risk, ai_item.risk);
                let reason = if is_blank_str(ai_item.reason.as_str()) {
                    local.reason.clone()
                } else {
                    ai_item.reason.clone()
                };
                out.push(FileSuggestion { path: local.path.clone(), action, risk, reason });
            },
        }
        i += 1;
    }
    out
}

/// The workspace key of a path: its first three components, lower-cased,
/// joined with `/`.
pub open spec fn workspace_key(p: Seq<char>) -> Seq<char> {
    let c = components(p);
    let n = if c.len() < 3 { c.len() } else { 3 };
    join(c.take(n as int).map_values(|x: Seq<char>| lower(x)), seq!['/'])
}

/// The files of a group span two or more workspaces, and one of them is a
/// project file.
pub open spec fn cross_workspace(files: Seq<FileRecord>) -> bool {
    &&& exists|i: int, j: int|
        0 <= i < files.len() && 0 <= j < files.len() && components(files[i].path@).len() > 0
            && components(files[j].path@).len() > 0 && workspace_key(files[i].path@)
            != workspace_key(files[j].path@)
    &&& exists|k: int| 0 <= k < files.len() && project_sensitive(files[k])
}

/// A duplicate group that only a person should sort out: a project file,
/// a document, or copies spread over workspaces.
pub open spec fn needs_manual_review(files: Seq<FileRecord>) -> bool {
    exists|i: int|
        0 <= i < files.len() && (project_sensitive(files[i]) || document_like(files[i])
            || cross_workspace(files))
}

/// A duplicate group of archives and installers only.
pub open spec fn auto_cleanup(files: Seq<FileRecord>) -> bool {
    forall|i: int| 0 <= i < files.len() ==> archive_or_installer_file(files[i])
}

fn workspace_key_of(p: &str) -> (r: (bool, Vec<char>))
    ensures
        r.0 == (components(p@).len() > 0),
        r.1@ == workspace_key(p@),
{
    let c = crate::paths::components_of(p);
    let n: usize = if c.len() < 3 { c.len() } else { 3 };
    let mut parts: Vec<Vec<char>> = Vec::new();
    let mut i: usize = 0;
    while i < n
        invariant
            n <= c@.len(),
            i <= n,
            views(c@) == components(p@),
            views(parts@) =~= views(c@).take(i as int).map_values(|x: Seq<char>| lower(x)),
        decreases n - i,
    {
        let l = to_lower(c[i].as_slice());
        let ghost old_parts = parts@;
        parts.push(l);
        assert(views(parts@) =~= views(old_parts).push(lower(views(c@)[i as int])));
        i += 1;
    }
    let sep: Vec<char> = vec!['/'];
    assert(sep@ =~= seq!['/']);
    let key = crate::text::join_exec(&parts, sep.as_slice());
    (c.len() > 0, key)
}

pub fn has_cross_workspace_footprint(group: &DuplicateGroup) -> (r: bool)
    ensures
        r == cross_workspace(group.files@),
{
    let mut first: Option<(usize, Vec<char>)> = None;
    let mut spread = false;
    let mut i: usize = 0;
    while i < group.files.len()
        invariant
            i <= group.files@.len(),
            match first {
                Some((f, key)) => f < i && components(group.files@[f as int].path@).len() > 0
                    && key@ == workspace_key(group.files@[f as int].path@)
                    && forall|j: int| 0 <= j < f ==> components(group.files@[j].path@).len() == 0,
                None => forall|j: int| 0 <= j < i ==> components(group.files@[j].path@).len() == 0,
            },
            spread == exists|a: int, b: int|
                0 <= a < i && 0 <= b < i && components(group.files@[a].path@).len() > 0
                    && components(group.files@[b].path@).len() > 0 && workspace_key(group.files@[a].path@)
                    != workspace_key(group.files@[b].path@),
        decreases group.files@.len() - i,
    {
        let (nonempty, key) = workspace_key_of(group.files[i].path.as_str());
        if nonempty {
            match &first {
                None => {
                    first = Some((i, key));
                },
                Some((f, k0)) => {
                    if !crate::text::eq_chars(k0.as_slice(), key.as_slice()) {
                        spread = true;
                    }
                    proof {
                        let fi = *f as int;
                        if !spread {
                            assert forall|a: int, b: int|
                                0 <= a < i + 1 && 0 <= b < i + 1 && components(group.files@[a].path@).len() > 0
                                    && components(group.files@[b].path@).len() > 0 implies workspace_key(group.files@[a].path@)
                                == workspace_key(group.files@[b].path@) by {
                                if a < i && b < i {
                                    assert(workspace_key(group.files@[a].path@) == workspace_key(group.files@[fi].path@));
                                    assert(workspace_key(group.files@[b].path@) == workspace_key(group.files@[fi].path@));
                                }
                                if a < i {
                                    assert(workspace_key(group.files@[a].path@) == workspace_key(group.files@[fi].path@));
                                }
                                if b < i {
                                    assert(workspace_key(group.files@[b].path@) == workspace_key(group.files@[fi].path@));
                                }
                            }
                        } else {
                            if k0@ != key@ {
                                assert(workspace_key(group.files@[fi].path@) != workspace_key(group.files@[i as int].path@));
                            }
                        }
                    }
                },
            }
        }
        i += 1;
    }
    if !spread {
        return false;
    }
    let mut k: usize = 0;
    while k < group.files.len()
        invariant
            k <= group.files@.len(),
            forall|j: int| 0 <= j < k ==> !project_sensitive(group.files@[j]),
            exists|a: int, b: int|
                0 <= a < group.files@.len() && 0 <= b < group.files@.len() && components(
                    group.files@[a].path@,
                ).len() > 0 && components(group.files@[b].path@).len() > 0 && workspace_key(
                    group.files@[a].path@,
                ) != workspace_key(group.files@[b].path@),
        decreases group.files@.len() - k,
    {
        if is_project_sensitive_duplicate(&group.files[k]) {
            assert(0 <= k < group.files@.len() && project_sensitive(group.files@[k as int]));
            return true;
        }
        k += 1;
    }
    false
}

pub fn should_require_manual_review(group: &DuplicateGroup) -> (r: bool)
    ensures
        r == needs_manual_review(group.files@),
{
    let mut i: usize = 0;
    while i < group.files.len()
        invariant
            i <= group.files@.len(),
            forall|j: int|
                0 <= j < i ==> !(project_sensitive(group.files@[j]) || document_like(group.files@[j])
                    || cross_workspace(group.files@)),
        decreases group.files@.len() - i,
    {
        let hit = is_project_sensitive_duplicate(&group.files[i]) || is_document_like(&group.files[i])
            || has_cross_workspace_footprint(group);
        if hit {
            assert(project_sensitive(group.files@[i as int]) || document_like(group.files@[i as int])
                || cross_workspace(group.files@));
            return true;
        }
        assert(!(project_sensitive(group.files@[i as int]) || document_like(group.files@[i as int])
            || cross_workspace(group.files@)));
        i += 1;
    }
    false
}

pub fn should_auto_cleanup_duplicate(group: &DuplicateGroup) -> (r: bool)
    ensures
        r == auto_cleanup(group.files@),
{
    let mut i: usize = 0;
    while i < group.files.len()
        invariant
            i <= group.files@.len(),
            forall|j: int| 0 <= j < i ==> archive_or_installer_file(group.files@[j]),
        decreases group.files@.len() - i,
    {
        if !is_archive_or_installer_file(&group.files[i]) {
            assert(!archive_or_installer_file(group.files@[i as int]));
            assert(!auto_cleanup(group.files@));
            return false;
        }
        i += 1;
    }
    true
}

} // verus!
