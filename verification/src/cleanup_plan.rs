//! The cleanup plan offered with remote advice: the file suggestions, and
//! the installed applications that take so much room under the scan that
//! uninstalling them is worth considering. Also the requests of the
//! cleanup page, read into the library's terms.

use vstd::prelude::*;
use crate::analyzer::{lemma_sizes_sum_prefix, sizes_sum};
use crate::diagnostics::DiagnosticOperation;
use crate::frontend::first_copies;
use crate::models::{ExecutionMode, FileRecord, FileSuggestion};
use crate::order::text_order_exec;
use crate::paths::text_order;
use crate::platform::{normalized, normalized_chars};
use crate::sizes::{format_bytes_human, size_text};
use crate::sorting::{at_most, slot, stable_sort};
use crate::text::{append_str, chars_of, decimal, eq_lit, is_blank, is_blank_str, push_decimal, starts_with, starts_with_chars, string_of};

verus! {

/// An installed application, as the system lists it.
#[derive(Clone, Debug)]
pub struct InstalledAppCleanupEntry {
    pub identity_key: String,
    pub display_name: String,
    pub publisher: Option<String>,
    pub install_location: Option<String>,
    pub uninstall_string: Option<String>,
}

/// An application worth uninstalling.
#[derive(Clone, Debug)]
pub struct AiCleanupAppCandidate {
    pub key: String,
    pub app_name: String,
    pub publisher: Option<String>,
    pub install_location: Option<String>,
    pub estimated_size: u64,
    pub reason: String,
    pub uninstall_available: bool,
}

/// The cleanup plan: the advice's source and summary, its first file
/// suggestions, and the applications worth uninstalling.
#[derive(Clone, Debug)]
pub struct AiCleanupPlan {
    pub source: String,
    pub summary: String,
    pub file_suggestions: Vec<FileSuggestion>,
    pub uninstall_candidates: Vec<AiCleanupAppCandidate>,
}

/// A process that holds a path open.
#[derive(Clone, Debug)]
pub struct BlockingProcessInfo {
    pub pid: u32,
    pub app_name: String,
    pub service_name: Option<String>,
    pub restartable: bool,
    pub process_start_time: u64,
}

/// A 64-bit file time from its two 32-bit halves.
pub fn filetime_ticks(high: u32, low: u32) -> (r: u64)
    ensures
        r == high * 0x1_0000_0000 + low,
{
    let r = ((high as u64) << 32u64) | (low as u64);
    assert(((high as u64) << 32u64) | (low as u64) == (high as u64) * 0x1_0000_0000 + (low as u64)) by (bit_vector)
        requires
            high <= u32::MAX,
            low <= u32::MAX;
    r
}

/// What the restart manager says of a process holding a path: its
/// application name (where it gives none, `PID` and the number), its
/// service, whether it can be restarted, and when it started.
pub fn blocking_process_info(
    pid: u32,
    app_name: Option<String>,
    service_name: Option<String>,
    restartable: u32,
    start_high: u32,
    start_low: u32,
) -> (r: BlockingProcessInfo)
    ensures
        r.pid == pid,
        r.app_name@ == (match app_name {
            Some(n) => n@,
            None => "PID "@ + decimal(pid as nat),
        }),
        r.service_name == service_name,
        r.restartable == (restartable != 0),
        r.process_start_time == start_high * 0x1_0000_0000 + start_low,
{
    let name = match app_name {
        Some(n) => n,
        None => {
            let mut v = chars_of("PID ");
            push_decimal(&mut v, pid as u64);
            string_of(v.as_slice())
        },
    };
    BlockingProcessInfo {
        pid,
        app_name: name,
        service_name,
        restartable: restartable != 0,
        process_start_time: filetime_ticks(start_high, start_low),
    }
}

/// The size from which an application is worth uninstalling.
pub const UNINSTALL_THRESHOLD_BYTES: u64 = 268435456;

/// How many applications are offered.
pub const UNINSTALL_LIMIT: usize = 20;

/// How many file suggestions the plan carries.
pub const PLAN_SUGGESTIONS_LIMIT: usize = 200;

/// The size of the scanned files under an install location: those whose
/// normalized path starts with the normalized location.
pub open spec fn size_under(files: Seq<FileRecord>, location: Seq<char>) -> int
    decreases files.len(),
{
    if files.len() == 0 {
        0
    } else {
        size_under(files.drop_last(), location) + if starts_with(normalized(files.last().path@), normalized(location)) {
            files.last().size as int
        } else {
            0
        }
    }
}

proof fn lemma_size_under(files: Seq<FileRecord>, location: Seq<char>)
    ensures
        0 <= size_under(files, location) <= sizes_sum(files),
    decreases files.len(),
{
    if files.len() > 0 {
        lemma_size_under(files.drop_last(), location);
    }
}

/// The reason given for uninstalling an application of this size.
pub open spec fn uninstall_reason(size: u64) -> Seq<char> {
    "这个软件在当前扫描目录下大约占用 "@ + size_text(size as nat) + "。如果你基本不用它，可以考虑卸载而不是只删零散文件。"@
}

/// The candidate made of an application with an install location, where
/// it holds enough of the scan.
pub open spec fn candidate_ok(c: AiCleanupAppCandidate, app: InstalledAppCleanupEntry, files: Seq<FileRecord>) -> bool {
    &&& app.install_location is Some
    &&& c.estimated_size == size_under(files, app.install_location.unwrap()@)
    &&& c.estimated_size >= UNINSTALL_THRESHOLD_BYTES
    &&& c.key == app.identity_key
    &&& c.app_name == app.display_name
    &&& c.publisher == app.publisher
    &&& c.install_location == app.install_location
    &&& c.reason@ == uninstall_reason(c.estimated_size)
    &&& c.uninstall_available == (match app.uninstall_string {
        Some(u) => !is_blank(u@),
        None => false,
    })
}

/// Whether an application holds enough of the scan to be offered.
pub open spec fn offered(app: InstalledAppCleanupEntry, files: Seq<FileRecord>) -> bool {
    match app.install_location {
        Some(l) => size_under(files, l@) >= UNINSTALL_THRESHOLD_BYTES,
        None => false,
    }
}

/// The applications offered, in the order listed.
pub open spec fn offered_apps(apps: Seq<InstalledAppCleanupEntry>, files: Seq<FileRecord>) -> Seq<InstalledAppCleanupEntry>
    decreases apps.len(),
{
    if apps.len() == 0 {
        Seq::empty()
    } else if offered(apps.last(), files) {
        offered_apps(apps.drop_last(), files).push(apps.last())
    } else {
        offered_apps(apps.drop_last(), files)
    }
}

/// Larger applications first, then by name.
pub open spec fn candidate_first() -> spec_fn(AiCleanupAppCandidate, AiCleanupAppCandidate) -> bool {
    |a: AiCleanupAppCandidate, b: AiCleanupAppCandidate|
        a.estimated_size > b.estimated_size || (a.estimated_size == b.estimated_size && text_order(a.app_name@, b.app_name@) <= 0)
}

fn size_under_exec(files: &Vec<FileRecord>, location: &str) -> (r: u64)
    requires
        sizes_sum(files@) <= u64::MAX,
    ensures
        r == size_under(files@, location@),
{
    let root = normalized_chars(location);
    let mut total: u64 = 0;
    let mut i: usize = 0;
    while i < files.len()
        invariant
            i <= files@.len(),
            root@ == normalized(location@),
            sizes_sum(files@) <= u64::MAX,
            total == size_under(files@.take(i as int), location@),
        decreases files@.len() - i,
    {
        assert(files@.take(i + 1).drop_last() =~= files@.take(i as int));
        assert(files@.take(i + 1).last() == files@[i as int]);
        proof {
            lemma_size_under(files@.take(i + 1), location@);
            lemma_sizes_sum_prefix(files@, i + 1);
        }
        let p = normalized_chars(files[i].path.as_str());
        if starts_with_chars(p.as_slice(), root.as_slice()) {
            total = total + files[i].size;
        }
        i += 1;
    }
    assert(files@.take(files@.len() as int) =~= files@);
    total
}

fn copy_opt(o: &Option<String>) -> (r: Option<String>)
    ensures
        r == *o,
{
    match o {
        Some(s) => Some(s.clone()),
        None => None,
    }
}

fn candidate_of(app: &InstalledAppCleanupEntry, files: &Vec<FileRecord>) -> (r: Option<AiCleanupAppCandidate>)
    requires
        sizes_sum(files@) <= u64::MAX,
    ensures
        match r {
            Some(c) => offered(*app, files@) && candidate_ok(c, *app, files@),
            None => !offered(*app, files@),
        },
{
    let location = match &app.install_location {
        Some(l) => l,
        None => {
            return None;
        },
    };
    let size = size_under_exec(files, location.as_str());
    if size < UNINSTALL_THRESHOLD_BYTES {
        return None;
    }
    let mut reason = chars_of("这个软件在当前扫描目录下大约占用 ");
    let size_text_exec = format_bytes_human(size);
    append_str(&mut reason, size_text_exec.as_str());
    append_str(&mut reason, "。如果你基本不用它，可以考虑卸载而不是只删零散文件。");
    let uninstall_available = match &app.uninstall_string {
        Some(u) => !is_blank_str(u.as_str()),
        None => false,
    };
    Some(AiCleanupAppCandidate {
        key: app.identity_key.clone(),
        app_name: app.display_name.clone(),
        publisher: copy_opt(&app.publisher),
        install_location: copy_opt(&app.install_location),
        estimated_size: size,
        reason: string_of(reason.as_slice()),
        uninstall_available,
    })
}

fn sort_candidates(v: Vec<AiCleanupAppCandidate>) -> (r: Vec<AiCleanupAppCandidate>)
    ensures
        r@ == stable_sort(v@, candidate_first()),
{
    let ghost ov = v@;
    let n = v.len();
    let mut rest = v;
    let mut out: Vec<AiCleanupAppCandidate> = Vec::new();
    let mut i: usize = 0;
    while i < n
        invariant
            i <= n,
            n == ov.len(),
            rest@.len() == n,
            forall|k: int| i <= k < n ==> #[trigger] rest@[k] == ov[k],
            out@ == stable_sort(ov.take(i as int), candidate_first()),
        decreases n - i,
    {
        let mut x = AiCleanupAppCandidate {
            key: String::new(),
            app_name: String::new(),
            publisher: None,
            install_location: None,
            estimated_size: 0,
            reason: String::new(),
            uninstall_available: false,
        };
        rest.set_and_swap(i, &mut x);
        assert(x == ov[i as int]);
        let mut j: usize = out.len();
        assert(out@.take(j as int) =~= out@);
        while j > 0 && !(out[j - 1].estimated_size > x.estimated_size
            || (out[j - 1].estimated_size == x.estimated_size
                && text_order_exec(chars_of(out[j - 1].app_name.as_str()).as_slice(), chars_of(x.app_name.as_str()).as_slice()) <= 0))
            invariant
                j <= out@.len(),
                slot(out@, x, candidate_first()) == slot(out@.take(j as int), x, candidate_first()),
            decreases j,
        {
            assert(out@.take(j as int).drop_last() =~= out@.take(j - 1));
            j -= 1;
        }
        assert(out@.take(j as int).len() == j);
        assert(ov.take(i + 1).drop_last() =~= ov.take(i as int));
        assert(ov.take(i + 1).last() == x);
        out.insert(j, x);
        i += 1;
    }
    assert(ov.take(n as int) =~= ov);
    out
}

/// The applications worth uninstalling: those whose install location holds
/// 256 MiB of the scan or more, largest first (then by name), at most
/// twenty.
pub fn build_uninstall_candidates(apps: &Vec<InstalledAppCleanupEntry>, files: &Vec<FileRecord>) -> (r: Vec<AiCleanupAppCandidate>)
    requires
        sizes_sum(files@) <= u64::MAX,
    ensures
        exists|raw: Seq<AiCleanupAppCandidate>|
            #![trigger stable_sort(raw, candidate_first())]
            raw.len() == offered_apps(apps@, files@).len()
            && (forall|k: int| 0 <= k < raw.len() ==> candidate_ok(#[trigger] raw[k], offered_apps(apps@, files@)[k], files@))
            && r@ == at_most(stable_sort(raw, candidate_first()), UNINSTALL_LIMIT as int),
{
    let ghost chosen = offered_apps(apps@, files@);
    let mut raw: Vec<AiCleanupAppCandidate> = Vec::new();
    let ghost mut picked: Seq<InstalledAppCleanupEntry> = Seq::empty();
    let mut i: usize = 0;
    while i < apps.len()
        invariant
            i <= apps@.len(),
            sizes_sum(files@) <= u64::MAX,
            picked == offered_apps(apps@.take(i as int), files@),
            raw@.len() == picked.len(),
            forall|k: int| 0 <= k < raw@.len() ==> candidate_ok(#[trigger] raw@[k], picked[k], files@),
        decreases apps@.len() - i,
    {
        assert(apps@.take(i + 1).drop_last() =~= apps@.take(i as int));
        assert(apps@.take(i + 1).last() == apps@[i as int]);
        match candidate_of(&apps[i], files) {
            Some(c) => {
                raw.push(c);
                proof {
                    picked = picked.push(apps@[i as int]);
                }
            },
            None => {},
        }
        i += 1;
    }
    assert(apps@.take(apps@.len() as int) =~= apps@);
    let ghost graw = raw@;
    let mut sorted = sort_candidates(raw);
    if sorted.len() > UNINSTALL_LIMIT {
        sorted.truncate(UNINSTALL_LIMIT);
    }
    assert(sorted@ =~= at_most(stable_sort(graw, candidate_first()), UNINSTALL_LIMIT as int));
    sorted
}

/// The cleanup plan of the advice given: its source and summary, its first
/// two hundred suggestions, and the applications offered.
pub fn ai_cleanup_plan(source: String, summary: String, suggestions: &Vec<FileSuggestion>, uninstall_candidates: Vec<AiCleanupAppCandidate>) -> (p: AiCleanupPlan)
    ensures
        p.source == source,
        p.summary == summary,
        p.file_suggestions@ == at_most(suggestions@, PLAN_SUGGESTIONS_LIMIT as int),
        p.uninstall_candidates == uninstall_candidates,
{
    AiCleanupPlan { source, summary, file_suggestions: first_copies(suggestions, PLAN_SUGGESTIONS_LIMIT), uninstall_candidates }
}

/// The cleanup mode asked for: `move`, or recycling for anything else.
pub fn execution_mode_of(mode: &str) -> (m: ExecutionMode)
    ensures
        m == (if mode@ == "move"@ { ExecutionMode::Move } else { ExecutionMode::Recycle }),
{
    if eq_lit(chars_of(mode).as_slice(), "move") {
        ExecutionMode::Move
    } else {
        ExecutionMode::Recycle
    }
}

/// The diagnostic operation asked for: `recycle`, `move`, or a probe for
/// anything else.
pub fn diagnostic_operation_of(operation: &str) -> (o: DiagnosticOperation)
    ensures
        o == (if operation@ == "recycle"@ {
            DiagnosticOperation::Recycle
        } else if operation@ == "move"@ {
            DiagnosticOperation::Move
        } else {
            DiagnosticOperation::Probe
        }),
{
    let c = chars_of(operation);
    if eq_lit(c.as_slice(), "recycle") {
        DiagnosticOperation::Recycle
    } else if eq_lit(c.as_slice(), "move") {
        DiagnosticOperation::Move
    } else {
        DiagnosticOperation::Probe
    }
}

} // verus!
