//! Migration plan review: the text of fetched documentation, the cases of
//! earlier runs that are shown next to a plan, and the refinement of a plan
//! by remote advice, which may rename and switch optional actions but never
//! adds, removes or alters what an action does.

use vstd::prelude::*;
use crate::models::{
    ActionParam, ActionView, MigrationAction, MigrationActionStep, MigrationDocExcerpt,
    MigrationDocSource, MigrationExecutionRecord, MigrationHistoricalCase, MigrationPlan,
    MigrationPlanReview, OperationLogEntry, ParamValue,
};
use crate::sorting::at_most;
use crate::text::{
    append_str, chars_of, collapse_spaces, collapse_spaces_exec, copy_strings, is_blank,
    is_blank_str, string_of,
};

verus! {

/// Whether the text ends inside an HTML tag (after a `<` not yet closed).
pub open spec fn inside_tag(s: Seq<char>) -> bool
    decreases s.len(),
{
    if s.len() == 0 {
        false
    } else if s.last() == '<' {
        true
    } else if s.last() == '>' {
        false
    } else {
        inside_tag(s.drop_last())
    }
}

/// The text with its tags taken out: `<` opens a tag, `>` closes it and
/// stands for a space, and characters inside a tag are dropped.
pub open spec fn untagged(s: Seq<char>) -> Seq<char>
    decreases s.len(),
{
    if s.len() == 0 {
        Seq::empty()
    } else {
        let prev = untagged(s.drop_last());
        let c = s.last();
        if c == '<' {
            prev
        } else if c == '>' {
            prev.push(' ')
        } else if !inside_tag(s.drop_last()) {
            prev.push(c)
        } else {
            prev
        }
    }
}

/// `strip_html_tags`: the text of an HTML page, tags removed and runs of
/// white space collapsed to one space.
pub fn strip_html_tags(input: &str) -> (r: String)
    ensures
        r@ == collapse_spaces(untagged(input@)),
{
    let cs = chars_of(input);
    let mut out: Vec<char> = Vec::new();
    let mut inside: bool = false;
    let mut i: usize = 0;
    while i < cs.len()
        invariant
            i <= cs@.len(),
            cs@ == input@,
            out@ == untagged(cs@.take(i as int)),
            inside == inside_tag(cs@.take(i as int)),
        decreases cs@.len() - i,
    {
        let c = cs[i];
        assert(cs@.take(i + 1).drop_last() =~= cs@.take(i as int));
        assert(cs@.take(i + 1).last() == c);
        if c == '<' {
            inside = true;
        } else if c == '>' {
            inside = false;
            out.push(' ');
        } else if !inside {
            out.push(c);
        }
        i += 1;
    }
    assert(cs@.take(cs@.len() as int) =~= cs@);
    let collapsed = collapse_spaces_exec(out.as_slice());
    string_of(collapsed.as_slice())
}

/// The number of bytes of a character in UTF-8.
pub open spec fn char_width(c: char) -> int {
    if (c as u32) < 0x80 {
        1
    } else if (c as u32) < 0x800 {
        2
    } else if (c as u32) < 0x10000 {
        3
    } else {
        4
    }
}

/// The number of bytes of a text in UTF-8.
pub open spec fn byte_len(s: Seq<char>) -> int
    decreases s.len(),
{
    if s.len() == 0 {
        0
    } else {
        byte_len(s.drop_last()) + char_width(s.last())
    }
}

/// The number of leading characters that fit in `limit` bytes.
pub open spec fn fit_count(s: Seq<char>, limit: int) -> int
    decreases s.len(),
{
    if s.len() == 0 || byte_len(s) <= limit {
        s.len() as int
    } else {
        fit_count(s.drop_last(), limit)
    }
}

/// Whether `compact_excerpt` can cut the text at `limit` bytes: the text
/// is no longer, or a character ends there.
pub open spec fn cuttable(s: Seq<char>, limit: int) -> bool {
    byte_len(s) <= limit || byte_len(s.take(fit_count(s, limit))) == limit
}

/// The excerpt of a text: white space collapsed, and cut after `limit`
/// bytes, with `...` added, where it is longer.
pub open spec fn excerpt(s: Seq<char>, limit: int) -> Seq<char> {
    let n = collapse_spaces(s);
    if byte_len(n) <= limit {
        n
    } else {
        n.take(fit_count(n, limit)) + "..."@
    }
}

proof fn lemma_byte_len_grows(s: Seq<char>, j: int, k: int)
    requires
        0 <= j <= k <= s.len(),
    ensures
        byte_len(s.take(j)) + (k - j) <= byte_len(s.take(k)),
    decreases k,
{
    if j < k {
        lemma_byte_len_grows(s, j, k - 1);
        assert(s.take(k).drop_last() =~= s.take(k - 1));
    }
}

proof fn lemma_fit_count(s: Seq<char>, limit: int, k: int)
    requires
        0 <= k <= s.len(),
        byte_len(s.take(k)) <= limit,
        k < s.len() ==> byte_len(s.take(k + 1)) > limit,
    ensures
        fit_count(s, limit) == k,
    decreases s.len(),
{
    if s.len() > 0 {
        assert(s.take(s.len() as int) =~= s);
        if byte_len(s) <= limit {
            if k < s.len() {
                lemma_byte_len_grows(s, k + 1, s.len() as int);
            }
        } else {
            let d = s.drop_last();
            assert(k < s.len());
            assert(d.take(k) =~= s.take(k));
            if k + 1 < s.len() {
                assert(d.take(k + 1) =~= s.take(k + 1));
            } else {
                assert(d.take(k) =~= d);
            }
            lemma_fit_count(d, limit, k);
        }
    }
}

fn char_width_exec(c: char) -> (r: u8)
    ensures
        r == char_width(c),
{
    let v = c as u32;
    if v < 0x80 {
        1
    } else if v < 0x800 {
        2
    } else if v < 0x10000 {
        3
    } else {
        4
    }
}

/// `compact_excerpt`: white space collapsed, then cut after `limit` bytes
/// with `...` added where the text is longer. The cut must fall where a
/// character ends.
pub fn compact_excerpt(input: &str, limit: usize) -> (r: String)
    requires
        cuttable(collapse_spaces(input@), limit as int),
    ensures
        r@ == excerpt(input@, limit as int),
{
    let cs = chars_of(input);
    let n = collapse_spaces_exec(cs.as_slice());
    let mut used: u128 = 0;
    let mut k: usize = 0;
    while k < n.len() && used + char_width_exec(n[k]) as u128 <= limit as u128
        invariant
            k <= n@.len(),
            used == byte_len(n@.take(k as int)),
            used <= limit,
        decreases n@.len() - k,
    {
        assert(n@.take(k + 1).drop_last() =~= n@.take(k as int));
        used = used + char_width_exec(n[k]) as u128;
        k += 1;
    }
    proof {
        if k < n@.len() {
            assert(n@.take(k + 1).drop_last() =~= n@.take(k as int));
        }
        lemma_fit_count(n@, limit as int, k as int);
        assert(n@.take(n@.len() as int) =~= n@);
        if k < n@.len() {
            lemma_byte_len_grows(n@, k as int, n@.len() as int);
        }
    }
    if k == n.len() {
        return string_of(n.as_slice());
    }
    let mut out: Vec<char> = Vec::new();
    let mut i: usize = 0;
    while i < k
        invariant
            i <= k <= n@.len(),
            out@ == n@.take(i as int),
        decreases k - i,
    {
        out.push(n[i]);
        assert(n@.take(i + 1) =~= n@.take(i as int).push(n@[i as int]));
        i += 1;
    }
    append_str(&mut out, "...");
    string_of(out.as_slice())
}

/// Whether a run belongs to the plan: the same plan id or the same title.
pub open spec fn run_of_plan(plan: MigrationPlan) -> spec_fn(MigrationExecutionRecord) -> bool {
    |r: MigrationExecutionRecord| r.plan_id@ == plan.id@ || r.title@ == plan.title@
}

/// The runs shown as cases beside a plan: the first five runs of the plan,
/// or, where it has none, the last five runs, latest first.
pub open spec fn case_runs(plan: MigrationPlan, history: Seq<MigrationExecutionRecord>) -> Seq<MigrationExecutionRecord> {
    let own = history.filter(run_of_plan(plan));
    if own.len() > 0 {
        at_most(own, 5)
    } else {
        at_most(history.reverse(), 5)
    }
}

/// The case shown for a run: its identity, outcome, failure and the
/// details of its first eight log entries.
pub open spec fn case_of_run(c: MigrationHistoricalCase, r: MigrationExecutionRecord) -> bool {
    &&& c.run_id == r.run_id
    &&& c.title == r.title
    &&& c.status == r.status
    &&& c.dry_run == r.dry_run
    &&& c.action_titles@ == at_most(r.logs@, 8).map_values(|l: OperationLogEntry| l.detail)
    &&& c.failure_reason == r.failure_reason
}

fn copy_opt_string(v: &Option<String>) -> (r: Option<String>)
    ensures
        r == *v,
{
    match v {
        Some(s) => Some(s.clone()),
        None => None,
    }
}

fn case_for_run(r: &MigrationExecutionRecord) -> (c: MigrationHistoricalCase)
    ensures
        case_of_run(c, *r),
{
    let mut titles: Vec<String> = Vec::new();
    let mut i: usize = 0;
    while i < r.logs.len() && i < 8
        invariant
            i <= r.logs@.len(),
            i <= 8,
            titles@ == r.logs@.take(i as int).map_values(|l: OperationLogEntry| l.detail),
        decreases r.logs@.len() - i,
    {
        titles.push(r.logs[i].detail.clone());
        assert(titles@ =~= r.logs@.take(i + 1).map_values(|l: OperationLogEntry| l.detail));
        i += 1;
    }
    assert(r.logs@.take(r.logs@.len() as int) =~= r.logs@);
    MigrationHistoricalCase {
        run_id: r.run_id.clone(),
        title: r.title.clone(),
        status: r.status,
        dry_run: r.dry_run,
        action_titles: titles,
        failure_reason: copy_opt_string(&r.failure_reason),
    }
}

/// `collect_historical_cases`: the earlier runs shown beside a plan.
pub fn collect_historical_cases(plan: &MigrationPlan, history: &[MigrationExecutionRecord]) -> (r: Vec<MigrationHistoricalCase>)
    ensures
        r@.len() == case_runs(*plan, history@).len(),
        forall|i: int| 0 <= i < r@.len() ==> case_of_run(#[trigger] r@[i], case_runs(*plan, history@)[i]),
{
    let ghost own_all = history@.filter(run_of_plan(*plan));
    let mut cases: Vec<MigrationHistoricalCase> = Vec::new();
    let mut found: usize = 0;
    let mut i: usize = 0;
    while i < history.len()
        invariant
            i <= history@.len(),
            own_all == history@.filter(run_of_plan(*plan)),
            found == history@.take(i as int).filter(run_of_plan(*plan)).len(),
            cases@.len() == if found <= 5 { found as int } else { 5 },
            forall|k: int| 0 <= k < cases@.len() ==> case_of_run(#[trigger] cases@[k], history@.take(i as int).filter(run_of_plan(*plan))[k]),
        decreases history@.len() - i,
    {
        let ghost before = history@.take(i as int).filter(run_of_plan(*plan));
        proof {
            reveal(Seq::filter);
            assert(history@.take(i + 1).drop_last() =~= history@.take(i as int));
        }
        let item = &history[i];
        if item.plan_id == plan.id || item.title == plan.title {
            if found < 5 {
                cases.push(case_for_run(item));
            }
            found = found + 1;
        }
        i += 1;
    }
    assert(history@.take(history@.len() as int) =~= history@);
    if found == 0 {
        let mut j: usize = 0;
        while j < history.len() && j < 5
            invariant
                j <= history@.len(),
                j <= 5,
                cases@.len() == j,
                forall|k: int| 0 <= k < j ==> case_of_run(#[trigger] cases@[k], history@.reverse()[k]),
            decreases history@.len() - j,
        {
            cases.push(case_for_run(&history[history.len() - 1 - j]));
            j += 1;
        }
    }
    cases
}

/// Changes to one action proposed by remote advice.
#[derive(Clone, Debug)]
pub struct ActionOverride {
    pub id: String,
    pub title: Option<String>,
    pub detail: Option<String>,
    pub enabled_by_default: Option<bool>,
}

/// The refinement of a plan proposed by remote advice.
#[derive(Clone, Debug)]
pub struct PlanRefinementResponse {
    pub summary: String,
    pub rationale: String,
    pub action_overrides: Vec<ActionOverride>,
    pub recommended_action_ids: Vec<String>,
    pub verification_steps: Vec<MigrationActionStep>,
}

pub open spec fn action_views(s: Seq<MigrationAction>) -> Seq<ActionView> {
    s.map_values(|a: MigrationAction| a@)
}

/// The first action with the given id, or -1.
pub open spec fn first_with_id(s: Seq<ActionView>, id: Seq<char>) -> int
    decreases s.len(),
{
    if s.len() == 0 {
        -1
    } else {
        let f = first_with_id(s.drop_last(), id);
        if f >= 0 {
            f
        } else if s.last().id == id {
            s.len() - 1
        } else {
            -1
        }
    }
}

/// An action after an override: a new title or detail where one is given,
/// and a new default where one is given and the action is optional.
pub open spec fn overridden(a: ActionView, o: ActionOverride) -> ActionView {
    ActionView {
        title: if o.title is Some { o.title.unwrap()@ } else { a.title },
        detail: if o.detail is Some { o.detail.unwrap()@ } else { a.detail },
        enabled_by_default: if o.enabled_by_default is Some && !a.required {
            o.enabled_by_default.unwrap()
        } else {
            a.enabled_by_default
        },
        ..a
    }
}

/// One override applied to the first action with its id, if any.
pub open spec fn apply_override(s: Seq<ActionView>, o: ActionOverride) -> Seq<ActionView> {
    let k = first_with_id(s, o.id@);
    if k < 0 {
        s
    } else {
        s.update(k, overridden(s[k], o))
    }
}

/// The overrides applied in turn.
pub open spec fn apply_overrides(s: Seq<ActionView>, ovs: Seq<ActionOverride>) -> Seq<ActionView>
    decreases ovs.len(),
{
    if ovs.len() == 0 {
        s
    } else {
        apply_override(apply_overrides(s, ovs.drop_last()), ovs.last())
    }
}

pub open spec fn id_listed(ids: Seq<String>, id: Seq<char>) -> bool {
    exists|i: int| 0 <= i < ids.len() && #[trigger] ids[i]@ == id
}

/// With a list of recommended ids, exactly the optional actions on the
/// list are enabled by default.
pub open spec fn apply_recommended(s: Seq<ActionView>, ids: Seq<String>) -> Seq<ActionView> {
    if ids.len() == 0 {
        s
    } else {
        s.map_values(
            |a: ActionView|
                if a.required {
                    a
                } else {
                    ActionView { enabled_by_default: id_listed(ids, a.id), ..a }
                },
        )
    }
}

/// The actions of a refined plan.
pub open spec fn refined_actions(base: Seq<ActionView>, r: PlanRefinementResponse) -> Seq<ActionView> {
    apply_recommended(apply_overrides(base, r.action_overrides@), r.recommended_action_ids@)
}

proof fn lemma_first_with_id_bounds(s: Seq<ActionView>, id: Seq<char>)
    ensures
        -1 <= first_with_id(s, id) < s.len(),
        first_with_id(s, id) >= 0 ==> s[first_with_id(s, id)].id == id,
    decreases s.len(),
{
    if s.len() > 0 {
        lemma_first_with_id_bounds(s.drop_last(), id);
    }
}

proof fn lemma_first_with_id_prefix(s: Seq<ActionView>, id: Seq<char>, m: int)
    requires
        0 <= m <= s.len(),
        first_with_id(s.take(m), id) >= 0,
    ensures
        first_with_id(s, id) == first_with_id(s.take(m), id),
    decreases s.len(),
{
    if m == s.len() {
        assert(s.take(m) =~= s);
    } else {
        assert(s.drop_last().take(m) =~= s.take(m));
        lemma_first_with_id_prefix(s.drop_last(), id, m);
    }
}

fn copy_param(p: &ActionParam) -> (r: ActionParam)
    ensures
        r == *p,
{
    let value = match &p.value {
        ParamValue::Text(t) => ParamValue::Text(t.clone()),
        ParamValue::Flag(b) => ParamValue::Flag(*b),
        ParamValue::Null => ParamValue::Null,
    };
    ActionParam { key: p.key.clone(), value }
}

fn copy_params(v: &Vec<ActionParam>) -> (r: Vec<ActionParam>)
    ensures
        r@ == v@,
{
    let mut out: Vec<ActionParam> = Vec::new();
    let mut i: usize = 0;
    while i < v.len()
        invariant
            i <= v@.len(),
            out@ == v@.take(i as int),
        decreases v@.len() - i,
    {
        out.push(copy_param(&v[i]));
        assert(v@.take(i + 1) =~= v@.take(i as int).push(v@[i as int]));
        i += 1;
    }
    assert(v@.take(v@.len() as int) =~= v@);
    out
}

fn copy_actions(v: &Vec<MigrationAction>) -> (r: Vec<MigrationAction>)
    ensures
        action_views(r@) == action_views(v@),
{
    let mut out: Vec<MigrationAction> = Vec::new();
    let mut i: usize = 0;
    while i < v.len()
        invariant
            i <= v@.len(),
            action_views(out@) == action_views(v@.take(i as int)),
        decreases v@.len() - i,
    {
        let a = &v[i];
        let copy = MigrationAction {
            id: a.id.clone(),
            kind: a.kind,
            title: a.title.clone(),
            detail: a.detail.clone(),
            required: a.required,
            enabled_by_default: a.enabled_by_default,
            params: copy_params(&a.params),
        };
        assert(copy@ == a@);
        let ghost before = out@;
        out.push(copy);
        assert(v@.take(i + 1) =~= v@.take(i as int).push(*a));
        assert(action_views(out@) =~= action_views(before).push(a@));
        assert(action_views(v@.take(i + 1)) =~= action_views(v@.take(i as int)).push(a@));
        i += 1;
    }
    assert(v@.take(v@.len() as int) =~= v@);
    out
}

pub(crate) fn copy_steps(v: &Vec<MigrationActionStep>) -> (r: Vec<MigrationActionStep>)
    ensures
        r@ == v@,
{
    let mut out: Vec<MigrationActionStep> = Vec::new();
    let mut i: usize = 0;
    while i < v.len()
        invariant
            i <= v@.len(),
            out@ == v@.take(i as int),
        decreases v@.len() - i,
    {
        let s = &v[i];
        out.push(MigrationActionStep { title: s.title.clone(), detail: s.detail.clone(), required: s.required });
        assert(v@.take(i + 1) =~= v@.take(i as int).push(v@[i as int]));
        i += 1;
    }
    assert(v@.take(v@.len() as int) =~= v@);
    out
}

pub(crate) fn copy_doc_sources(v: &Vec<MigrationDocSource>) -> (r: Vec<MigrationDocSource>)
    ensures
        r@ == v@,
{
    let mut out: Vec<MigrationDocSource> = Vec::new();
    let mut i: usize = 0;
    while i < v.len()
        invariant
            i <= v@.len(),
            out@ == v@.take(i as int),
        decreases v@.len() - i,
    {
        let d = &v[i];
        out.push(MigrationDocSource {
            title: d.title.clone(),
            kind: d.kind,
            uri: copy_opt_string(&d.uri),
            note: d.note.clone(),
        });
        assert(v@.take(i + 1) =~= v@.take(i as int).push(v@[i as int]));
        i += 1;
    }
    assert(v@.take(v@.len() as int) =~= v@);
    out
}

/// The first action with the given id.
fn find_action(actions: &Vec<MigrationAction>, id: &String) -> (r: Option<usize>)
    ensures
        match r {
            Some(k) => k == first_with_id(action_views(actions@), id@),
            None => first_with_id(action_views(actions@), id@) < 0,
        },
{
    let ghost s = action_views(actions@);
    let mut j: usize = 0;
    while j < actions.len()
        invariant
            j <= actions@.len(),
            s == action_views(actions@),
            first_with_id(s.take(j as int), id@) == -1,
        decreases actions@.len() - j,
    {
        assert(s.take(j + 1).drop_last() =~= s.take(j as int));
        if actions[j].id == *id {
            proof {
                lemma_first_with_id_prefix(s, id@, j + 1);
            }
            return Some(j);
        }
        j += 1;
    }
    assert(s.take(s.len() as int) =~= s);
    None
}

fn id_in(ids: &Vec<String>, id: &String) -> (r: bool)
    ensures
        r == id_listed(ids@, id@),
{
    let mut i: usize = 0;
    while i < ids.len()
        invariant
            i <= ids@.len(),
            forall|k: int| 0 <= k < i ==> #[trigger] ids@[k]@ != id@,
        decreases ids@.len() - i,
    {
        if ids[i] == *id {
            return true;
        }
        i += 1;
    }
    false
}

/// `apply_refinement`: the plan with the changes that remote advice
/// proposed, within what the plan allows. Titles, details and the
/// defaults of optional actions may change; the actions themselves, their
/// order and everything else of the plan stay. A blank summary or
/// rationale, or an empty list of verification steps, keeps the plan's own.
pub fn apply_refinement(base_plan: &MigrationPlan, refinement: PlanRefinementResponse) -> (r: MigrationPlan)
    ensures
        r.id == base_plan.id,
        r.title == base_plan.title,
        r.category == base_plan.category,
        r.object_kind == base_plan.object_kind,
        r.support_level == base_plan.support_level,
        r.risk == base_plan.risk,
        r.estimated_size == base_plan.estimated_size,
        r.source_path == base_plan.source_path,
        r.recommended_target_dir == base_plan.recommended_target_dir,
        r.recommended_target_path == base_plan.recommended_target_path,
        r.tags@ == base_plan.tags@,
        r.doc_sources@ == base_plan.doc_sources@,
        r.summary@ == if is_blank(refinement.summary@) { base_plan.summary@ } else { refinement.summary@ },
        r.rationale@ == if is_blank(refinement.rationale@) { base_plan.rationale@ } else { refinement.rationale@ },
        r.verification_steps@ == if refinement.verification_steps@.len() == 0 {
            base_plan.verification_steps@
        } else {
            refinement.verification_steps@
        },
        action_views(r.actions@) == refined_actions(action_views(base_plan.actions@), refinement),
{
    let ghost base = action_views(base_plan.actions@);
    let ghost ovs = refinement.action_overrides@;
    let mut actions = copy_actions(&base_plan.actions);
    let mut j: usize = 0;
    while j < refinement.action_overrides.len()
        invariant
            j <= ovs.len(),
            ovs == refinement.action_overrides@,
            action_views(actions@) == apply_overrides(base, ovs.take(j as int)),
        decreases ovs.len() - j,
    {
        let o = &refinement.action_overrides[j];
        let ghost cur = action_views(actions@);
        assert(ovs.take(j + 1).drop_last() =~= ovs.take(j as int));
        assert(ovs.take(j + 1).last() == *o);
        match find_action(&actions, &o.id) {
            Some(k) => {
                proof {
                    lemma_first_with_id_bounds(cur, o.id@);
                }
                let a = &actions[k];
                let title = match &o.title {
                    Some(t) => t.clone(),
                    None => a.title.clone(),
                };
                let detail = match &o.detail {
                    Some(d) => d.clone(),
                    None => a.detail.clone(),
                };
                let enabled = match o.enabled_by_default {
                    Some(e) => if !a.required { e } else { a.enabled_by_default },
                    None => a.enabled_by_default,
                };
                let updated = MigrationAction {
                    id: a.id.clone(),
                    kind: a.kind,
                    title,
                    detail,
                    required: a.required,
                    enabled_by_default: enabled,
                    params: copy_params(&a.params),
                };
                assert(updated@ == overridden(cur[k as int], *o));
                actions.set(k, updated);
                assert(action_views(actions@) =~= cur.update(k as int, overridden(cur[k as int], *o)));
            },
            None => {},
        }
        j += 1;
    }
    assert(ovs.take(ovs.len() as int) =~= ovs);
    let ghost mid = action_views(actions@);
    if refinement.recommended_action_ids.len() > 0 {
        let mut k: usize = 0;
        while k < actions.len()
            invariant
                k <= actions@.len(),
                mid.len() == actions@.len(),
                refinement.recommended_action_ids@.len() > 0,
                forall|m: int| 0 <= m < k ==> #[trigger] actions@[m]@ == apply_recommended(mid, refinement.recommended_action_ids@)[m],
                forall|m: int| k <= m < actions@.len() ==> #[trigger] actions@[m]@ == mid[m],
            decreases actions@.len() - k,
        {
            assert(actions@[k as int]@ == mid[k as int]);
            let ghost want = apply_recommended(mid, refinement.recommended_action_ids@)[k as int];
            assert(want == if mid[k as int].required {
                mid[k as int]
            } else {
                ActionView { enabled_by_default: id_listed(refinement.recommended_action_ids@, mid[k as int].id), ..mid[k as int] }
            });
            if !actions[k].required {
                let listed = id_in(&refinement.recommended_action_ids, &actions[k].id);
                let a = &actions[k];
                let updated = MigrationAction {
                    id: a.id.clone(),
                    kind: a.kind,
                    title: a.title.clone(),
                    detail: a.detail.clone(),
                    required: a.required,
                    enabled_by_default: listed,
                    params: copy_params(&a.params),
                };
                assert(updated@ == want);
                actions.set(k, updated);
            }
            k += 1;
        }
        assert(action_views(actions@) =~= apply_recommended(mid, refinement.recommended_action_ids@));
    }
    let summary = if is_blank_str(refinement.summary.as_str()) {
        base_plan.summary.clone()
    } else {
        refinement.summary
    };
    let rationale = if is_blank_str(refinement.rationale.as_str()) {
        base_plan.rationale.clone()
    } else {
        refinement.rationale
    };
    let verification_steps = if refinement.verification_steps.len() == 0 {
        copy_steps(&base_plan.verification_steps)
    } else {
        refinement.verification_steps
    };
    MigrationPlan {
        id: base_plan.id.clone(),
        title: base_plan.title.clone(),
        category: base_plan.category,
        object_kind: base_plan.object_kind,
        support_level: base_plan.support_level,
        risk: base_plan.risk,
        estimated_size: base_plan.estimated_size,
        source_path: base_plan.source_path.clone(),
        recommended_target_dir: base_plan.recommended_target_dir.clone(),
        recommended_target_path: base_plan.recommended_target_path.clone(),
        summary,
        rationale,
        tags: copy_strings(&base_plan.tags),
        doc_sources: copy_doc_sources(&base_plan.doc_sources),
        actions,
        verification_steps,
    }
}

/// `after` has the actions of `before`, in the same order, each with the
/// same id, kind, parameters and requiredness; required actions keep their
/// default.
pub open spec fn same_actions(before: Seq<ActionView>, after: Seq<ActionView>) -> bool {
    &&& after.len() == before.len()
    &&& forall|k: int|
        0 <= k < before.len() ==> {
            &&& (#[trigger] after[k]).id == before[k].id
            &&& after[k].kind == before[k].kind
            &&& after[k].params == before[k].params
            &&& after[k].required == before[k].required
            &&& before[k].required ==> after[k].enabled_by_default == before[k].enabled_by_default
        }
}

proof fn lemma_overrides_keep(base: Seq<ActionView>, ovs: Seq<ActionOverride>)
    ensures
        same_actions(base, apply_overrides(base, ovs)),
    decreases ovs.len(),
{
    if ovs.len() > 0 {
        let prev = apply_overrides(base, ovs.drop_last());
        lemma_overrides_keep(base, ovs.drop_last());
        lemma_first_with_id_bounds(prev, ovs.last().id@);
        let cur = apply_overrides(base, ovs);
        assert forall|k: int| 0 <= k < base.len() implies {
            &&& (#[trigger] cur[k]).id == base[k].id
            &&& cur[k].kind == base[k].kind
            &&& cur[k].params == base[k].params
            &&& cur[k].required == base[k].required
            &&& base[k].required ==> cur[k].enabled_by_default == base[k].enabled_by_default
        } by {
            assert(prev[k].id == base[k].id);
        }
    }
}

/// Remote advice cannot add, drop, reorder or alter what an action does:
/// the refined plan has the same actions, in the same order, with the same
/// ids, kinds, parameters and requiredness, and every required action
/// keeps its default.
pub proof fn law_refinement_keeps_actions(base: Seq<ActionView>, r: PlanRefinementResponse)
    ensures
        same_actions(base, refined_actions(base, r)),
{
    lemma_overrides_keep(base, r.action_overrides@);
    let mid = apply_overrides(base, r.action_overrides@);
    let fin = refined_actions(base, r);
    assert forall|k: int| 0 <= k < base.len() implies {
        &&& (#[trigger] fin[k]).id == base[k].id
        &&& fin[k].kind == base[k].kind
        &&& fin[k].params == base[k].params
        &&& fin[k].required == base[k].required
        &&& base[k].required ==> fin[k].enabled_by_default == base[k].enabled_by_default
    } by {
        assert(mid[k].id == base[k].id);
    }
}

/// A non-empty list of recommended actions decides which optional actions
/// a refined plan turns on: exactly those whose id is on the list, what
/// their defaults were and whatever the overrides said.
pub proof fn law_recommended_ids_decide_optional_defaults(base: Seq<ActionView>, r: PlanRefinementResponse)
    requires
        r.recommended_action_ids@.len() > 0,
    ensures
        refined_actions(base, r).len() == base.len(),
        forall|k: int| #![trigger refined_actions(base, r)[k]]
            0 <= k < base.len() && !base[k].required ==> (refined_actions(base, r)[k].enabled_by_default
                <==> exists|i: int| 0 <= i < r.recommended_action_ids@.len()
                    && r.recommended_action_ids@[i]@ == base[k].id),
{
    lemma_overrides_keep(base, r.action_overrides@);
    let mid = apply_overrides(base, r.action_overrides@);
    let fin = refined_actions(base, r);
    assert forall|k: int| #![trigger fin[k]]
        0 <= k < base.len() && !base[k].required implies (fin[k].enabled_by_default
            <==> exists|i: int| 0 <= i < r.recommended_action_ids@.len()
                && r.recommended_action_ids@[i]@ == base[k].id) by {
        assert(mid[k].id == base[k].id);
        assert(mid[k].required == base[k].required);
        assert(fin[k].enabled_by_default == id_listed(r.recommended_action_ids@, mid[k].id));
    }
}

/// Whether two plans are the same plan (their actions taken by value).
pub open spec fn same_plan(a: MigrationPlan, b: MigrationPlan) -> bool {
    &&& a.id == b.id
    &&& a.title == b.title
    &&& a.category == b.category
    &&& a.object_kind == b.object_kind
    &&& a.support_level == b.support_level
    &&& a.risk == b.risk
    &&& a.estimated_size == b.estimated_size
    &&& a.source_path == b.source_path
    &&& a.recommended_target_dir == b.recommended_target_dir
    &&& a.recommended_target_path == b.recommended_target_path
    &&& a.summary == b.summary
    &&& a.rationale == b.rationale
    &&& a.tags@ == b.tags@
    &&& a.doc_sources@ == b.doc_sources@
    &&& action_views(a.actions@) == action_views(b.actions@)
    &&& a.verification_steps@ == b.verification_steps@
}

/// A copy of a plan.
pub fn copy_plan(p: &MigrationPlan) -> (r: MigrationPlan)
    ensures
        same_plan(r, *p),
{
    MigrationPlan {
        id: p.id.clone(),
        title: p.title.clone(),
        category: p.category,
        object_kind: p.object_kind,
        support_level: p.support_level,
        risk: p.risk,
        estimated_size: p.estimated_size,
        source_path: p.source_path.clone(),
        recommended_target_dir: p.recommended_target_dir.clone(),
        recommended_target_path: p.recommended_target_path.clone(),
        summary: p.summary.clone(),
        rationale: p.rationale.clone(),
        tags: copy_strings(&p.tags),
        doc_sources: copy_doc_sources(&p.doc_sources),
        actions: copy_actions(&p.actions),
        verification_steps: copy_steps(&p.verification_steps),
    }
}

/// What came of asking remote advice to refine a plan.
pub enum RefinementOutcome {
    /// No API key is configured: nothing was asked.
    NotAttempted,
    /// The refined plan.
    Refined(MigrationPlan),
    /// The request or its reply failed, for the given reason.
    Failed(String),
}

/// The review of a plan once the remote refinement is done: the review of a
/// plan, with the refined plan where there is one and the plan itself
/// otherwise, and the documentation and cases shown beside it.
pub fn plan_review(
    base_plan: &MigrationPlan,
    outcome: RefinementOutcome,
    model: &str,
    doc_excerpts: Vec<MigrationDocExcerpt>,
    historical_cases: Vec<MigrationHistoricalCase>,
) -> (r: MigrationPlanReview)
    ensures
        r.doc_excerpts == doc_excerpts,
        r.historical_cases == historical_cases,
        match outcome {
            RefinementOutcome::NotAttempted => {
                &&& same_plan(r.plan, *base_plan)
                &&& r.source@ == "local_rules"@
                &&& !r.remote_attempted
                &&& !r.used_fallback
                &&& r.fallback_reason is None
            },
            RefinementOutcome::Refined(p) => {
                &&& r.plan == p
                &&& r.source@ == "remote:"@ + model@
                &&& r.remote_attempted
                &&& !r.used_fallback
                &&& r.fallback_reason is None
            },
            RefinementOutcome::Failed(e) => {
                &&& same_plan(r.plan, *base_plan)
                &&& r.source@ == "local_rules"@
                &&& r.remote_attempted
                &&& r.used_fallback
                &&& r.fallback_reason == Some(e)
            },
        },
{
    match outcome {
        RefinementOutcome::NotAttempted => MigrationPlanReview {
            plan: copy_plan(base_plan),
            source: crate::text::owned("local_rules"),
            remote_attempted: false,
            used_fallback: false,
            fallback_reason: None,
            doc_excerpts,
            historical_cases,
        },
        RefinementOutcome::Refined(plan) => {
            let mut source: Vec<char> = Vec::new();
            append_str(&mut source, "remote:");
            append_str(&mut source, model);
            MigrationPlanReview {
                plan,
                source: string_of(source.as_slice()),
                remote_attempted: true,
                used_fallback: false,
                fallback_reason: None,
                doc_excerpts,
                historical_cases,
            }
        },
        RefinementOutcome::Failed(reason) => MigrationPlanReview {
            plan: copy_plan(base_plan),
            source: crate::text::owned("local_rules"),
            remote_attempted: true,
            used_fallback: true,
            fallback_reason: Some(reason),
            doc_excerpts,
            historical_cases,
        },
    }
}

} // verus!
