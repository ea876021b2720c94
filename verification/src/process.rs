//! Local judgement of running processes: what kind of process each is, how
//! risky ending it would be, and the explanations shown for it. Remote
//! advice may add its own judgement but never clears a critical process
//! for ending.

use vstd::prelude::*;
use crate::models::{
    ProcessAiFollowUpAnswer, ProcessAiFollowUpTurn, ProcessAiInsight, ProcessSuggestedAction, RiskLevel,
};
use crate::reporter::{binary_size_text, format_binary_size};
use crate::rules::{in_list, listed};
use crate::text::{
    append_chars, append_str, char_vecs, chars_of, contains, contains_lit, decimal, eq_lit, is_blank,
    is_blank_str, join, join_exec, lower, owned, push_decimal, starts_with, starts_with_lit, string_of,
    string_views, to_lower, trim, trim_str, trim_chars, split_on, split_on_exec, parse_u64, parse_u64_exec, views,
};
use crate::remote::{first_index, first_index_exec, lemma_index_bounds};

verus! {

pub open spec fn critical_names() -> Seq<&'static str> {
    seq![
        "system", "registry", "smss.exe", "csrss.exe", "wininit.exe", "services.exe", "lsass.exe",
        "winlogon.exe", "svchost.exe", "fontdrvhost.exe", "memory compression", "secure system",
    ]
}

pub open spec fn security_names() -> Seq<&'static str> {
    seq!["msmpeng.exe", "securityhealthservice.exe", "avp.exe", "avgsvc.exe", "360tray.exe", "360safe.exe"]
}

pub open spec fn browser_names() -> Seq<&'static str> {
    seq!["chrome.exe", "msedge.exe", "firefox.exe", "brave.exe", "opera.exe", "qqbrowser.exe", "360se.exe"]
}

pub open spec fn development_names() -> Seq<&'static str> {
    seq![
        "code.exe", "cursor.exe", "windsurf.exe", "devenv.exe", "idea64.exe", "pycharm64.exe",
        "webstorm64.exe", "clion64.exe", "rider64.exe", "goland64.exe", "androidstudio64.exe",
        "rustrover64.exe", "powershell.exe", "pwsh.exe", "cmd.exe", "node.exe", "npm.exe", "pnpm.exe",
        "yarn.exe", "cargo.exe", "rustc.exe", "python.exe", "java.exe",
    ]
}

pub open spec fn virtualization_names() -> Seq<&'static str> {
    seq![
        "docker desktop.exe", "com.docker.backend.exe", "vmmem", "vmmemwsl", "vmware.exe",
        "vmware-vmx.exe", "virtualboxvm.exe", "qemu-system-x86_64.exe",
    ]
}

pub open spec fn sync_names() -> Seq<&'static str> {
    seq!["onedrive.exe", "dropbox.exe", "baidunetdisk.exe", "baidunetdiskhost.exe"]
}

pub open spec fn helper_keywords() -> Seq<&'static str> {
    seq!["helper", "crashpad", "updater", "update", "installer", "setup"]
}

/// Some keyword of the list occurs in the text.
pub open spec fn any_keyword(t: Seq<char>, list: Seq<&str>) -> bool {
    exists|i: int| 0 <= i < list.len() && contains(t, #[trigger] list[i]@)
}

/// The category of a process and whether it is critical to the system,
/// from its name, executable path, command line and id.
pub open spec fn process_category(
    name: Seq<char>,
    exe: Option<Seq<char>>,
    command: Seq<Seq<char>>,
    pid: u32,
) -> (Seq<char>, bool) {
    let n = lower(trim(name));
    let e = match exe {
        Some(p) => lower(p),
        None => Seq::empty(),
    };
    let c = lower(join(command, seq![' ']));
    let in_windows = starts_with(e, "c:\\windows\\"@);
    let in_system = starts_with(e, "c:\\windows\\system32"@) || starts_with(e, "c:\\windows\\syswow64"@)
        || starts_with(e, "c:\\windows\\winsxs"@);
    if pid <= 4 || listed(n, critical_names()) {
        ("system_critical"@, true)
    } else if listed(n, security_names()) {
        ("security"@, false)
    } else if listed(n, browser_names()) {
        ("browser"@, false)
    } else if listed(n, development_names()) {
        ("development"@, false)
    } else if listed(n, virtualization_names()) || contains(c, "docker"@) || contains(c, "wsl"@) {
        ("virtualization"@, false)
    } else if listed(n, sync_names()) {
        ("sync"@, false)
    } else if any_keyword(n, helper_keywords()) || any_keyword(c, helper_keywords()) {
        ("background_helper"@, false)
    } else if in_system {
        ("system_service"@, false)
    } else if in_windows {
        ("windows_component"@, false)
    } else {
        ("user_app"@, false)
    }
}

fn any_keyword_exec(t: &[char], list: &[&str]) -> (r: bool)
    ensures
        r == any_keyword(t@, list@),
{
    let mut i: usize = 0;
    while i < list.len()
        invariant
            i <= list@.len(),
            forall|j: int| 0 <= j < i ==> !contains(t@, #[trigger] list@[j]@),
        decreases list@.len() - i,
    {
        if contains_lit(t, list[i]) {
            return true;
        }
        i += 1;
    }
    false
}

/// `classify_process_metadata`: the category of a process and whether it
/// is critical to the system.
pub fn classify_process_metadata(name: &str, exe_path: Option<&str>, command: &[String], pid: u32) -> (r: (String, bool))
    ensures
        (r.0@, r.1) == process_category(
            name@,
            match exe_path {
                Some(p) => Some(p@),
                None => None,
            },
            string_views(command@),
            pid,
        ),
{
    let n = to_lower(trim_str(name).as_slice());
    let e: Vec<char> = match exe_path {
        Some(p) => to_lower(chars_of(p).as_slice()),
        None => Vec::new(),
    };
    let space: [char; 1] = [' '];
    assert(space@ =~= seq![' ']);
    let parts = char_vecs(command);
    let c = to_lower(join_exec(&parts, &space).as_slice());
    let ns = n.as_slice();
    let es = e.as_slice();
    let cs = c.as_slice();
    let in_windows = starts_with_lit(es, "c:\\windows\\");
    let in_system = starts_with_lit(es, "c:\\windows\\system32") || starts_with_lit(es, "c:\\windows\\syswow64")
        || starts_with_lit(es, "c:\\windows\\winsxs");
    let critical: [&str; 12] = [
        "system", "registry", "smss.exe", "csrss.exe", "wininit.exe", "services.exe", "lsass.exe",
        "winlogon.exe", "svchost.exe", "fontdrvhost.exe", "memory compression", "secure system",
    ];
    let security: [&str; 6] = ["msmpeng.exe", "securityhealthservice.exe", "avp.exe", "avgsvc.exe", "360tray.exe", "360safe.exe"];
    let browsers: [&str; 7] = ["chrome.exe", "msedge.exe", "firefox.exe", "brave.exe", "opera.exe", "qqbrowser.exe", "360se.exe"];
    let development: [&str; 23] = [
        "code.exe", "cursor.exe", "windsurf.exe", "devenv.exe", "idea64.exe", "pycharm64.exe",
        "webstorm64.exe", "clion64.exe", "rider64.exe", "goland64.exe", "androidstudio64.exe",
        "rustrover64.exe", "powershell.exe", "pwsh.exe", "cmd.exe", "node.exe", "npm.exe", "pnpm.exe",
        "yarn.exe", "cargo.exe", "rustc.exe", "python.exe", "java.exe",
    ];
    let virtualization: [&str; 8] = [
        "docker desktop.exe", "com.docker.backend.exe", "vmmem", "vmmemwsl", "vmware.exe",
        "vmware-vmx.exe", "virtualboxvm.exe", "qemu-system-x86_64.exe",
    ];
    let sync: [&str; 4] = ["onedrive.exe", "dropbox.exe", "baidunetdisk.exe", "baidunetdiskhost.exe"];
    let helpers: [&str; 6] = ["helper", "crashpad", "updater", "update", "installer", "setup"];
    assert(critical@ =~= critical_names());
    assert(security@ =~= security_names());
    assert(browsers@ =~= browser_names());
    assert(development@ =~= development_names());
    assert(virtualization@ =~= virtualization_names());
    assert(sync@ =~= sync_names());
    assert(helpers@ =~= helper_keywords());
    let (category, is_critical): (&str, bool) = if pid <= 4 || in_list(ns, &critical) {
        ("system_critical", true)
    } else if in_list(ns, &security) {
        ("security", false)
    } else if in_list(ns, &browsers) {
        ("browser", false)
    } else if in_list(ns, &development) {
        ("development", false)
    } else if in_list(ns, &virtualization) || contains_lit(cs, "docker") || contains_lit(cs, "wsl") {
        ("virtualization", false)
    } else if in_list(ns, &sync) {
        ("sync", false)
    } else if any_keyword_exec(ns, &helpers) || any_keyword_exec(cs, &helpers) {
        ("background_helper", false)
    } else if in_system {
        ("system_service", false)
    } else if in_windows {
        ("windows_component", false)
    } else {
        ("user_app", false)
    };
    (owned(category), is_critical)
}

/// What the local rules read of a running process. CPU usage and the
/// resource score are fractional: they come written out with one decimal
/// and already held against their thresholds.
#[derive(Clone, Debug)]
pub struct ProcessFacts {
    pub pid: u32,
    pub name: String,
    pub exe_path: Option<String>,
    pub command: Vec<String>,
    pub category: String,
    pub is_critical: bool,
    pub memory_bytes: u64,
    pub disk_read_bytes: u64,
    pub disk_written_bytes: u64,
    pub run_time_seconds: u64,
    /// CPU usage in percent, with one decimal.
    pub cpu_text: String,
    /// The resource score, with one decimal.
    pub score_text: String,
    /// CPU usage of at least 20%.
    pub cpu_high: bool,
    /// CPU usage of at least 20%, or a resource score of at least 80.
    pub helper_busy: bool,
    /// CPU usage of at least 35%, or a resource score of at least 90.
    pub unknown_busy: bool,
}

/// The local risk of ending a process, and the advice.
pub open spec fn risk_and_action(f: ProcessFacts) -> (RiskLevel, ProcessSuggestedAction) {
    let c = f.category@;
    if f.is_critical || c == "system_critical"@ {
        (RiskLevel::High, ProcessSuggestedAction::AvoidEnd)
    } else if c == "security"@ {
        (RiskLevel::High, ProcessSuggestedAction::AvoidEnd)
    } else if c == "system_service"@ || c == "windows_component"@ {
        (RiskLevel::Medium, ProcessSuggestedAction::Review)
    } else if c == "browser"@ || c == "development"@ || c == "virtualization"@ || c == "user_app"@ {
        (RiskLevel::Medium, ProcessSuggestedAction::EndAfterSave)
    } else if c == "sync"@ {
        (RiskLevel::Medium, ProcessSuggestedAction::Review)
    } else if c == "background_helper"@ {
        if f.helper_busy {
            (RiskLevel::Low, ProcessSuggestedAction::SafeToEnd)
        } else {
            (RiskLevel::Medium, ProcessSuggestedAction::Review)
        }
    } else if f.unknown_busy {
        (RiskLevel::Medium, ProcessSuggestedAction::Review)
    } else {
        (RiskLevel::Low, ProcessSuggestedAction::SafeToEnd)
    }
}

pub open spec fn category_label(c: Seq<char>) -> Seq<char> {
    if c == "system_critical"@ {
        "系统关键进程"@
    } else if c == "system_service"@ {
        "系统服务"@
    } else if c == "windows_component"@ {
        "Windows 组件"@
    } else if c == "security"@ {
        "安全防护进程"@
    } else if c == "browser"@ {
        "浏览器/网页进程"@
    } else if c == "development"@ {
        "开发工具或命令行进程"@
    } else if c == "virtualization"@ {
        "容器/虚拟化进程"@
    } else if c == "sync"@ {
        "同步或网盘进程"@
    } else if c == "background_helper"@ {
        "后台辅助进程"@
    } else if c == "user_app"@ {
        "用户应用进程"@
    } else {
        "未知类型进程"@
    }
}

pub open spec fn action_label(a: ProcessSuggestedAction) -> Seq<char> {
    match a {
        ProcessSuggestedAction::SafeToEnd => "可以尝试结束"@,
        ProcessSuggestedAction::EndAfterSave => "先保存工作再结束"@,
        ProcessSuggestedAction::Review => "先查看用途再决定"@,
        ProcessSuggestedAction::AvoidEnd => "不建议结束"@,
    }
}

pub open spec fn risk_label_text(r: RiskLevel) -> Seq<char> {
    match r {
        RiskLevel::Low => "较低"@,
        RiskLevel::Medium => "中等"@,
        RiskLevel::High => "较高"@,
    }
}

/// `category_label`: the name shown for a process category.
pub fn category_label_of(category: &str) -> (r: &'static str)
    ensures
        r@ == category_label(category@),
{
    let c = chars_of(category);
    let cs = c.as_slice();
    if eq_lit(cs, "system_critical") {
        "系统关键进程"
    } else if eq_lit(cs, "system_service") {
        "系统服务"
    } else if eq_lit(cs, "windows_component") {
        "Windows 组件"
    } else if eq_lit(cs, "security") {
        "安全防护进程"
    } else if eq_lit(cs, "browser") {
        "浏览器/网页进程"
    } else if eq_lit(cs, "development") {
        "开发工具或命令行进程"
    } else if eq_lit(cs, "virtualization") {
        "容器/虚拟化进程"
    } else if eq_lit(cs, "sync") {
        "同步或网盘进程"
    } else if eq_lit(cs, "background_helper") {
        "后台辅助进程"
    } else if eq_lit(cs, "user_app") {
        "用户应用进程"
    } else {
        "未知类型进程"
    }
}

/// `process_action_label`: the advice in words.
pub fn process_action_label(a: ProcessSuggestedAction) -> (r: &'static str)
    ensures
        r@ == action_label(a),
{
    match a {
        ProcessSuggestedAction::SafeToEnd => "可以尝试结束",
        ProcessSuggestedAction::EndAfterSave => "先保存工作再结束",
        ProcessSuggestedAction::Review => "先查看用途再决定",
        ProcessSuggestedAction::AvoidEnd => "不建议结束",
    }
}

/// `risk_label`: the risk in words.
pub fn risk_label(r: RiskLevel) -> (t: &'static str)
    ensures
        t@ == risk_label_text(r),
{
    match r {
        RiskLevel::Low => "较低",
        RiskLevel::Medium => "中等",
        RiskLevel::High => "较高",
    }
}

/// `local_risk_and_action`.
pub fn local_risk_and_action(f: &ProcessFacts) -> (r: (RiskLevel, ProcessSuggestedAction))
    ensures
        r == risk_and_action(*f),
{
    let c = chars_of(f.category.as_str());
    let cs = c.as_slice();
    if f.is_critical || eq_lit(cs, "system_critical") {
        (RiskLevel::High, ProcessSuggestedAction::AvoidEnd)
    } else if eq_lit(cs, "security") {
        (RiskLevel::High, ProcessSuggestedAction::AvoidEnd)
    } else if eq_lit(cs, "system_service") || eq_lit(cs, "windows_component") {
        (RiskLevel::Medium, ProcessSuggestedAction::Review)
    } else if eq_lit(cs, "browser") || eq_lit(cs, "development") || eq_lit(cs, "virtualization")
        || eq_lit(cs, "user_app") {
        (RiskLevel::Medium, ProcessSuggestedAction::EndAfterSave)
    } else if eq_lit(cs, "sync") {
        (RiskLevel::Medium, ProcessSuggestedAction::Review)
    } else if eq_lit(cs, "background_helper") {
        if f.helper_busy {
            (RiskLevel::Low, ProcessSuggestedAction::SafeToEnd)
        } else {
            (RiskLevel::Medium, ProcessSuggestedAction::Review)
        }
    } else if f.unknown_busy {
        (RiskLevel::Medium, ProcessSuggestedAction::Review)
    } else {
        (RiskLevel::Low, ProcessSuggestedAction::SafeToEnd)
    }
}

/// How long a process has run, in seconds, minutes and hours.
pub open spec fn runtime_text(s: u64) -> Seq<char> {
    if s < 60 {
        decimal(s as nat) + " 秒"@
    } else {
        let m = s / 60;
        let rs = s % 60;
        if m < 60 {
            if rs == 0 {
                decimal(m as nat) + " 分钟"@
            } else {
                decimal(m as nat) + " 分 "@ + decimal(rs as nat) + " 秒"@
            }
        } else {
            let h = m / 60;
            let rm = m % 60;
            if rm == 0 {
                decimal(h as nat) + " 小时"@
            } else {
                decimal(h as nat) + " 小时 "@ + decimal(rm as nat) + " 分"@
            }
        }
    }
}

/// `format_runtime`.
pub fn format_runtime(seconds: u64) -> (r: String)
    ensures
        r@ == runtime_text(seconds),
{
    let mut out: Vec<char> = Vec::new();
    if seconds < 60 {
        push_decimal(&mut out, seconds);
        append_str(&mut out, " 秒");
    } else {
        let minutes = seconds / 60;
        let remain_seconds = seconds % 60;
        if minutes < 60 {
            push_decimal(&mut out, minutes);
            if remain_seconds == 0 {
                append_str(&mut out, " 分钟");
            } else {
                append_str(&mut out, " 分 ");
                push_decimal(&mut out, remain_seconds);
                append_str(&mut out, " 秒");
            }
        } else {
            let hours = minutes / 60;
            let remain_minutes = minutes % 60;
            push_decimal(&mut out, hours);
            if remain_minutes == 0 {
                append_str(&mut out, " 小时");
            } else {
                append_str(&mut out, " 小时 ");
                push_decimal(&mut out, remain_minutes);
                append_str(&mut out, " 分");
            }
        }
    }
    assert(out@ =~= runtime_text(seconds));
    string_of(out.as_slice())
}

/// The bytes read and written in the sample.
pub open spec fn disk_total(f: ProcessFacts) -> int {
    f.disk_read_bytes + f.disk_written_bytes
}

/// The notes on a process's load: high CPU, high memory (512 MiB and
/// more) and high disk activity (20 MiB and more).
pub open spec fn pressure_parts(f: ProcessFacts) -> Seq<Seq<char>> {
    (if f.cpu_high {
        seq!["CPU 占用偏高（"@ + f.cpu_text@ + "%）"@]
    } else {
        Seq::empty()
    }) + (if f.memory_bytes >= 512 * 1024 * 1024 {
        seq!["内存占用偏高（"@ + binary_size_text(f.memory_bytes) + "）"@]
    } else {
        Seq::empty()
    }) + (if disk_total(f) >= 20 * 1024 * 1024 {
        seq!["磁盘活动较高（"@ + binary_size_text(disk_total(f) as u64) + "）"@]
    } else {
        Seq::empty()
    })
}

/// `resource_pressure_text`: the notes on a process's load, or that it is
/// not extreme.
pub open spec fn pressure_text(f: ProcessFacts) -> Seq<char> {
    let parts = pressure_parts(f);
    if parts.len() == 0 {
        "当前资源占用不算极端，但仍在监控列表中"@
    } else {
        join(parts, "，"@)
    }
}

fn push_part(parts: &mut Vec<Vec<char>>, pre: &str, mid: &[char], post: &str)
    ensures
        crate::text::views(final(parts)@) == crate::text::views(old(parts)@).push(pre@ + mid@ + post@),
{
    let mut p: Vec<char> = Vec::new();
    append_str(&mut p, pre);
    append_chars(&mut p, mid);
    append_str(&mut p, post);
    parts.push(p);
    assert(crate::text::views(parts@) =~= crate::text::views(old(parts)@).push(pre@ + mid@ + post@));
}

/// `resource_pressure_text`.
pub fn resource_pressure_text(f: &ProcessFacts) -> (r: String)
    requires
        disk_total(*f) <= u64::MAX,
    ensures
        r@ == pressure_text(*f),
{
    let mut parts: Vec<Vec<char>> = Vec::new();
    if f.cpu_high {
        push_part(&mut parts, "CPU 占用偏高（", chars_of(f.cpu_text.as_str()).as_slice(), "%）");
    }
    if f.memory_bytes >= 512 * 1024 * 1024 {
        let m = format_binary_size(f.memory_bytes);
        push_part(&mut parts, "内存占用偏高（", chars_of(m.as_str()).as_slice(), "）");
    }
    let disk = f.disk_read_bytes + f.disk_written_bytes;
    if disk >= 20 * 1024 * 1024 {
        let d = format_binary_size(disk);
        push_part(&mut parts, "磁盘活动较高（", chars_of(d.as_str()).as_slice(), "）");
    }
    assert(crate::text::views(parts@) =~= pressure_parts(*f));
    if parts.len() == 0 {
        owned("当前资源占用不算极端，但仍在监控列表中")
    } else {
        let sep = chars_of("，");
        let j = join_exec(&parts, sep.as_slice());
        string_of(j.as_slice())
    }
}

/// The one-line judgement of a process.
pub open spec fn summary_line(f: ProcessFacts, risk: RiskLevel, action: ProcessSuggestedAction) -> Seq<char> {
    f.name@ + "（PID "@ + decimal(f.pid as nat) + "）当前属于"@ + category_label(f.category@) + "，"@
        + pressure_text(f) + "。本地规则判断风险"@ + risk_label_text(risk) + "，建议"@ + action_label(action)
        + "。"@
}

pub open spec fn advice_note(a: ProcessSuggestedAction) -> Seq<char> {
    match a {
        ProcessSuggestedAction::AvoidEnd => "这类进程通常与系统稳定性、安全防护或关键后台服务有关，不建议在本工具里直接结束。"@,
        ProcessSuggestedAction::EndAfterSave => "这更像是用户正在使用或可能正在写入数据的应用，结束前应先保存工作，避免丢失未保存内容。"@,
        ProcessSuggestedAction::Review => "它不一定不能结束，但在关闭前应确认是否正在同步文件、更新程序、运行容器或提供后台能力。"@,
        ProcessSuggestedAction::SafeToEnd => "从当前名称、路径和资源模式看，更像是辅助进程、更新器或短时后台任务，通常可以在确认无依赖后临时结束。"@,
    }
}

pub open spec fn risk_note(r: RiskLevel) -> Seq<char> {
    match r {
        RiskLevel::High => "高风险的意思是结束后可能影响系统稳定性、登录状态或安全防护。"@,
        RiskLevel::Medium => "中风险表示更适合人工确认后再操作。"@,
        RiskLevel::Low => "低风险表示通常只会中断临时后台任务，影响相对可控。"@,
    }
}

/// The reasons behind the judgement of a process.
pub open spec fn reason_text(f: ProcessFacts, risk: RiskLevel, action: ProcessSuggestedAction) -> Seq<char> {
    "进程分类："@ + category_label(f.category@) + "；CPU："@ + f.cpu_text@ + "%"@ + "；内存："@
        + binary_size_text(f.memory_bytes) + "；本次采样磁盘读写："@ + binary_size_text(disk_total(f) as u64)
        + "；已运行约"@ + runtime_text(f.run_time_seconds) + "。"@ + advice_note(action) + risk_note(risk)
}

fn advice_note_of(a: ProcessSuggestedAction) -> (r: &'static str)
    ensures
        r@ == advice_note(a),
{
    match a {
        ProcessSuggestedAction::AvoidEnd => "这类进程通常与系统稳定性、安全防护或关键后台服务有关，不建议在本工具里直接结束。",
        ProcessSuggestedAction::EndAfterSave => "这更像是用户正在使用或可能正在写入数据的应用，结束前应先保存工作，避免丢失未保存内容。",
        ProcessSuggestedAction::Review => "它不一定不能结束，但在关闭前应确认是否正在同步文件、更新程序、运行容器或提供后台能力。",
        ProcessSuggestedAction::SafeToEnd => "从当前名称、路径和资源模式看，更像是辅助进程、更新器或短时后台任务，通常可以在确认无依赖后临时结束。",
    }
}

fn risk_note_of(r: RiskLevel) -> (t: &'static str)
    ensures
        t@ == risk_note(r),
{
    match r {
        RiskLevel::High => "高风险的意思是结束后可能影响系统稳定性、登录状态或安全防护。",
        RiskLevel::Medium => "中风险表示更适合人工确认后再操作。",
        RiskLevel::Low => "低风险表示通常只会中断临时后台任务，影响相对可控。",
    }
}

/// `local_summary`.
pub fn local_summary(f: &ProcessFacts, risk: RiskLevel, action: ProcessSuggestedAction) -> (r: String)
    requires
        disk_total(*f) <= u64::MAX,
    ensures
        r@ == summary_line(*f, risk, action),
{
    let pressure = resource_pressure_text(f);
    let mut out: Vec<char> = Vec::new();
    append_str(&mut out, f.name.as_str());
    append_str(&mut out, "（PID ");
    push_decimal(&mut out, f.pid as u64);
    append_str(&mut out, "）当前属于");
    append_str(&mut out, category_label_of(f.category.as_str()));
    append_str(&mut out, "，");
    append_str(&mut out, pressure.as_str());
    append_str(&mut out, "。本地规则判断风险");
    append_str(&mut out, risk_label(risk));
    append_str(&mut out, "，建议");
    append_str(&mut out, process_action_label(action));
    append_str(&mut out, "。");
    assert(out@ =~= summary_line(*f, risk, action));
    string_of(out.as_slice())
}

/// `local_reason`.
pub fn local_reason(f: &ProcessFacts, risk: RiskLevel, action: ProcessSuggestedAction) -> (r: String)
    requires
        disk_total(*f) <= u64::MAX,
    ensures
        r@ == reason_text(*f, risk, action),
{
    let memory = format_binary_size(f.memory_bytes);
    let disk = format_binary_size(f.disk_read_bytes + f.disk_written_bytes);
    let runtime = format_runtime(f.run_time_seconds);
    let mut out: Vec<char> = Vec::new();
    append_str(&mut out, "进程分类：");
    append_str(&mut out, category_label_of(f.category.as_str()));
    append_str(&mut out, "；CPU：");
    append_str(&mut out, f.cpu_text.as_str());
    append_str(&mut out, "%");
    append_str(&mut out, "；内存：");
    append_str(&mut out, memory.as_str());
    append_str(&mut out, "；本次采样磁盘读写：");
    append_str(&mut out, disk.as_str());
    append_str(&mut out, "；已运行约");
    append_str(&mut out, runtime.as_str());
    append_str(&mut out, "。");
    append_str(&mut out, advice_note_of(action));
    append_str(&mut out, risk_note_of(risk));
    assert(out@ =~= reason_text(*f, risk, action));
    string_of(out.as_slice())
}

/// The judgement of a process by the local rules alone.
pub open spec fn local_insight_of(i: ProcessAiInsight, f: ProcessFacts) -> bool {
    let (risk, action) = risk_and_action(f);
    &&& i.pid == f.pid
    &&& i.name == f.name
    &&& i.source@ == "local_rules"@
    &&& i.summary@ == summary_line(f, risk, action)
    &&& i.suggested_action == action
    &&& i.risk == risk
    &&& i.reason@ == reason_text(f, risk, action)
    &&& !i.remote_attempted
    &&& !i.used_fallback
    &&& i.fallback_reason is None
}

/// `build_local_process_insight`: the judgement of the local rules.
pub fn build_local_process_insight(f: &ProcessFacts) -> (r: ProcessAiInsight)
    requires
        disk_total(*f) <= u64::MAX,
    ensures
        local_insight_of(r, *f),
{
    let (risk, action) = local_risk_and_action(f);
    ProcessAiInsight {
        pid: f.pid,
        name: f.name.clone(),
        source: owned("local_rules"),
        summary: local_summary(f, risk, action),
        suggested_action: action,
        risk,
        reason: local_reason(f, risk, action),
        remote_attempted: false,
        used_fallback: false,
        fallback_reason: None,
    }
}

/// `non_empty_or`: the value trimmed, or the fallback where it is blank.
pub open spec fn non_empty_or_text(value: Seq<char>, fallback: Seq<char>) -> Seq<char> {
    if is_blank(value) {
        fallback
    } else {
        trim(value)
    }
}

pub fn non_empty_or(value: String, fallback: String) -> (r: String)
    ensures
        r@ == non_empty_or_text(value@, fallback@),
{
    if is_blank_str(value.as_str()) {
        fallback
    } else {
        let t = trim_str(value.as_str());
        string_of(t.as_slice())
    }
}

/// The judgement remote advice gives of a process.
#[derive(Clone, Debug)]
pub struct ProcessInsightResponse {
    pub summary: String,
    pub suggested_action: ProcessSuggestedAction,
    pub risk: RiskLevel,
    pub reason: String,
}

/// The advice that stands after remote advice: for a critical process
/// anything but "avoid ending" is set aside.
pub open spec fn remote_action(
    f: ProcessFacts,
    local: ProcessSuggestedAction,
    remote: ProcessSuggestedAction,
) -> ProcessSuggestedAction {
    if f.is_critical && remote != ProcessSuggestedAction::AvoidEnd {
        local
    } else {
        remote
    }
}

fn copy_insight(i: &ProcessAiInsight) -> (r: ProcessAiInsight)
    ensures
        r == *i,
{
    ProcessAiInsight {
        pid: i.pid,
        name: i.name.clone(),
        source: i.source.clone(),
        summary: i.summary.clone(),
        suggested_action: i.suggested_action,
        risk: i.risk,
        reason: i.reason.clone(),
        remote_attempted: i.remote_attempted,
        used_fallback: i.used_fallback,
        fallback_reason: match &i.fallback_reason {
            Some(s) => Some(s.clone()),
            None => None,
        },
    }
}

/// The judgement of a process once remote advice has answered: the local
/// judgement where the process is critical and the advice would allow
/// ending it, and the remote judgement otherwise, with blank texts filled
/// from the local one.
pub fn remote_process_insight(
    f: &ProcessFacts,
    local: &ProcessAiInsight,
    response: ProcessInsightResponse,
    model: &str,
) -> (r: ProcessAiInsight)
    ensures
        r.suggested_action == remote_action(*f, local.suggested_action, response.suggested_action),
        if f.is_critical && response.suggested_action != ProcessSuggestedAction::AvoidEnd {
            r == *local
        } else {
            &&& r.pid == f.pid
            &&& r.name == f.name
            &&& r.source@ == "remote:"@ + model@
            &&& r.summary@ == non_empty_or_text(response.summary@, local.summary@)
            &&& r.risk == response.risk
            &&& r.reason@ == non_empty_or_text(response.reason@, local.reason@)
            &&& r.remote_attempted
            &&& !r.used_fallback
            &&& r.fallback_reason is None
        },
{
    if f.is_critical && response.suggested_action != ProcessSuggestedAction::AvoidEnd {
        return copy_insight(local);
    }
    let mut source: Vec<char> = Vec::new();
    append_str(&mut source, "remote:");
    append_str(&mut source, model);
    ProcessAiInsight {
        pid: f.pid,
        name: f.name.clone(),
        source: string_of(source.as_slice()),
        summary: non_empty_or(response.summary, local.summary.clone()),
        suggested_action: response.suggested_action,
        risk: response.risk,
        reason: non_empty_or(response.reason, local.reason.clone()),
        remote_attempted: true,
        used_fallback: false,
        fallback_reason: None,
    }
}

/// The local judgement, marked as standing in for remote advice that failed.
pub fn process_insight_fallback(local: ProcessAiInsight, reason: String) -> (r: ProcessAiInsight)
    ensures
        r == (ProcessAiInsight {
            remote_attempted: true,
            used_fallback: true,
            fallback_reason: Some(reason),
            ..local
        }),
{
    let mut r = local;
    r.remote_attempted = true;
    r.used_fallback = true;
    r.fallback_reason = Some(reason);
    r
}

/// A process critical to the system is never cleared for ending: the local
/// rules advise against ending it, and remote advice that says otherwise is
/// set aside.
pub proof fn law_critical_process_is_never_cleared(f: ProcessFacts, remote: ProcessSuggestedAction)
    requires
        f.is_critical,
    ensures
        risk_and_action(f).1 == ProcessSuggestedAction::AvoidEnd,
        remote_action(f, risk_and_action(f).1, remote) == ProcessSuggestedAction::AvoidEnd,
{
}

/// A critical process, a critical system process and a security process
/// are never advised to be ended: the local advice is to leave them
/// running, at a high risk, and a request to end one is refused.
pub proof fn law_protected_processes_are_left_running(f: ProcessFacts, own_pid: u32)
    requires
        f.is_critical || f.category@ == "system_critical"@ || f.category@ == "security"@,
    ensures
        risk_and_action(f) == (RiskLevel::High, ProcessSuggestedAction::AvoidEnd),
        termination_block(f.pid, own_pid, f.name@, f.is_critical, f.category@) is Some,
{
}

/// The local rules advise leaving a process running only where it is
/// critical, a critical system process or a security process, and a
/// high risk comes only with that advice.
pub proof fn law_only_protected_processes_are_left_running(f: ProcessFacts)
    ensures
        risk_and_action(f).1 == ProcessSuggestedAction::AvoidEnd
            ==> (f.is_critical || f.category@ == "system_critical"@ || f.category@ == "security"@),
        risk_and_action(f).0 == RiskLevel::High <==> risk_and_action(f).1 == ProcessSuggestedAction::AvoidEnd,
{
}

pub open spec fn end_words() -> Seq<&'static str> {
    seq!["结束", "关闭", "kill", "terminate", "删", "删除"]
}

pub open spec fn purpose_words() -> Seq<&'static str> {
    seq!["做什么", "用途", "是什么", "干嘛"]
}

pub open spec fn load_words() -> Seq<&'static str> {
    seq!["卡", "占用", "cpu", "内存", "磁盘", "慢", "高", "资源"]
}

pub open spec fn leave_words() -> Seq<&'static str> {
    seq!["不处理", "放着", "影响", "后果"]
}

/// Which kind of question a follow-up is: 1 about ending the process,
/// 2 about what it does, 3 about its load, 4 about leaving it alone,
/// 5 anything else.
pub open spec fn question_kind(question: Seq<char>) -> int {
    let q = lower(question);
    if any_keyword(q, end_words()) {
        1
    } else if any_keyword(q, purpose_words()) {
        2
    } else if any_keyword(q, load_words()) {
        3
    } else if any_keyword(q, leave_words()) {
        4
    } else {
        5
    }
}

pub open spec fn end_note(a: ProcessSuggestedAction) -> Seq<char> {
    match a {
        ProcessSuggestedAction::AvoidEnd => "从当前分类和路径看，它更接近系统关键、安全防护或重要后台进程，不建议直接结束。"@,
        ProcessSuggestedAction::EndAfterSave => "它更像用户正在使用或可能正在写入数据的应用，建议先保存工作，再考虑结束。"@,
        ProcessSuggestedAction::Review => "它不一定不能结束，但最好先确认是否承担同步、更新、容器或后台服务职责。"@,
        ProcessSuggestedAction::SafeToEnd => "从当前元数据看更像辅助进程或短时后台任务，确认无依赖后通常可以尝试结束。"@,
    }
}

pub open spec fn exe_shown(f: ProcessFacts) -> Seq<char> {
    match f.exe_path {
        Some(p) => p@,
        None => "未知路径"@,
    }
}

pub open spec fn command_shown(f: ProcessFacts) -> Seq<char> {
    if f.command@.len() == 0 {
        "没有采集到命令行参数"@
    } else {
        join(string_views(f.command@), seq![' '])
    }
}

/// The local answer to a follow-up question, before the note on the
/// previous turn.
pub open spec fn answer_body(f: ProcessFacts, insight: ProcessAiInsight, question: Seq<char>) -> Seq<char> {
    let k = question_kind(question);
    if k == 1 {
        f.name@ + " 当前建议是“"@ + action_label(insight.suggested_action) + "”，风险等级为“"@
            + risk_label_text(insight.risk) + "”。"@ + end_note(insight.suggested_action)
    } else if k == 2 {
        f.name@ + " 大概率属于“"@ + category_label(f.category@) + "”。可执行路径："@ + exe_shown(f)
            + "。命令行："@ + command_shown(f) + "。"@ + insight.summary@
    } else if k == 3 {
        "这次采样里它的 CPU 为 "@ + f.cpu_text@ + "%，内存约 "@ + binary_size_text(f.memory_bytes)
            + "，磁盘读写约 "@ + binary_size_text(disk_total(f) as u64) + "/s，综合压力分 "@ + f.score_text@
            + "。"@ + pressure_text(f)
    } else if k == 4 {
        insight.reason@ + "。如果暂时不处理，通常意味着它会继续保持当前的资源占用模式；如果这正是导致卡顿的元凶，卡顿现象可能持续或再次出现。"@
    } else {
        "基于当前进程名、路径、命令行和资源占用，我的保守判断是："@ + insight.summary@
            + "。如果你想更具体一些，可以继续问“结束它会有什么影响？”、“它为什么占用这么高？”或“这个进程主要是做什么的？”。"@
    }
}

/// At most `max` characters of a text, with `...` where it was cut.
pub open spec fn truncated(t: Seq<char>, max: nat) -> Seq<char> {
    if t.len() <= max {
        t
    } else {
        t.take(max as int) + "..."@
    }
}

/// The note on the previous turn of a conversation, if there was one.
pub open spec fn history_suffix(history: Seq<ProcessAiFollowUpTurn>) -> Seq<char> {
    if history.len() == 0 {
        Seq::empty()
    } else {
        " 上一轮你问的是“"@ + trim(history.last().question@) + "”，当时的回答重点是："@
            + truncated(trim(history.last().answer@), 120) + "。"@
    }
}

/// `contains_any`: some keyword occurs in the question.
pub fn contains_any(question: &str, keywords: &[&str]) -> (r: bool)
    ensures
        r == any_keyword(question@, keywords@),
{
    let q = chars_of(question);
    any_keyword_exec(q.as_slice(), keywords)
}

/// `truncate_text`: at most `max_chars` characters, with `...` where the
/// text was cut.
pub fn truncate_text(text: &str, max_chars: usize) -> (r: String)
    ensures
        r@ == truncated(text@, max_chars as nat),
{
    let cs = chars_of(text);
    if cs.len() <= max_chars {
        return string_of(cs.as_slice());
    }
    let mut out: Vec<char> = Vec::new();
    let mut i: usize = 0;
    while i < max_chars
        invariant
            i <= max_chars < cs@.len(),
            out@ == cs@.take(i as int),
        decreases max_chars - i,
    {
        out.push(cs[i]);
        assert(cs@.take(i + 1) =~= cs@.take(i as int).push(cs@[i as int]));
        i += 1;
    }
    append_str(&mut out, "...");
    string_of(out.as_slice())
}

/// `build_history_suffix`.
pub fn build_history_suffix(history: &[ProcessAiFollowUpTurn]) -> (r: String)
    ensures
        r@ == history_suffix(history@),
{
    if history.len() == 0 {
        return String::new();
    }
    let last = &history[history.len() - 1];
    let q = trim_str(last.question.as_str());
    let a = trim_str(last.answer.as_str());
    let short = truncate_text(string_of(a.as_slice()).as_str(), 120);
    let mut out: Vec<char> = Vec::new();
    append_str(&mut out, " 上一轮你问的是“");
    append_chars(&mut out, q.as_slice());
    append_str(&mut out, "”，当时的回答重点是：");
    append_str(&mut out, short.as_str());
    append_str(&mut out, "。");
    assert(out@ =~= history_suffix(history@));
    string_of(out.as_slice())
}

fn end_note_of(a: ProcessSuggestedAction) -> (r: &'static str)
    ensures
        r@ == end_note(a),
{
    match a {
        ProcessSuggestedAction::AvoidEnd => "从当前分类和路径看，它更接近系统关键、安全防护或重要后台进程，不建议直接结束。",
        ProcessSuggestedAction::EndAfterSave => "它更像用户正在使用或可能正在写入数据的应用，建议先保存工作，再考虑结束。",
        ProcessSuggestedAction::Review => "它不一定不能结束，但最好先确认是否承担同步、更新、容器或后台服务职责。",
        ProcessSuggestedAction::SafeToEnd => "从当前元数据看更像辅助进程或短时后台任务，确认无依赖后通常可以尝试结束。",
    }
}

fn answer_body_of(f: &ProcessFacts, insight: &ProcessAiInsight, question: &str) -> (r: Vec<char>)
    requires
        question_kind(question@) == 3 ==> disk_total(*f) <= u64::MAX,
    ensures
        r@ == answer_body(*f, *insight, question@),
{
    let q = to_lower(chars_of(question).as_slice());
    let qs = q.as_slice();
    let w1: [&str; 6] = ["结束", "关闭", "kill", "terminate", "删", "删除"];
    let w2: [&str; 4] = ["做什么", "用途", "是什么", "干嘛"];
    let w3: [&str; 8] = ["卡", "占用", "cpu", "内存", "磁盘", "慢", "高", "资源"];
    let w4: [&str; 4] = ["不处理", "放着", "影响", "后果"];
    assert(w1@ =~= end_words());
    assert(w2@ =~= purpose_words());
    assert(w3@ =~= load_words());
    assert(w4@ =~= leave_words());
    let mut out: Vec<char> = Vec::new();
    if any_keyword_exec(qs, &w1) {
        append_str(&mut out, f.name.as_str());
        append_str(&mut out, " 当前建议是“");
        append_str(&mut out, process_action_label(insight.suggested_action));
        append_str(&mut out, "”，风险等级为“");
        append_str(&mut out, risk_label(insight.risk));
        append_str(&mut out, "”。");
        append_str(&mut out, end_note_of(insight.suggested_action));
    } else if any_keyword_exec(qs, &w2) {
        append_str(&mut out, f.name.as_str());
        append_str(&mut out, " 大概率属于“");
        append_str(&mut out, category_label_of(f.category.as_str()));
        append_str(&mut out, "”。可执行路径：");
        match &f.exe_path {
            Some(p) => append_str(&mut out, p.as_str()),
            None => append_str(&mut out, "未知路径"),
        }
        append_str(&mut out, "。命令行：");
        if f.command.len() == 0 {
            append_str(&mut out, "没有采集到命令行参数");
        } else {
            let parts = char_vecs(f.command.as_slice());
            let space: [char; 1] = [' '];
            assert(space@ =~= seq![' ']);
            let joined = join_exec(&parts, &space);
            append_chars(&mut out, joined.as_slice());
        }
        append_str(&mut out, "。");
        append_str(&mut out, insight.summary.as_str());
    } else if any_keyword_exec(qs, &w3) {
        let memory = format_binary_size(f.memory_bytes);
        let disk = format_binary_size(f.disk_read_bytes + f.disk_written_bytes);
        let pressure = resource_pressure_text(f);
        append_str(&mut out, "这次采样里它的 CPU 为 ");
        append_str(&mut out, f.cpu_text.as_str());
        append_str(&mut out, "%，内存约 ");
        append_str(&mut out, memory.as_str());
        append_str(&mut out, "，磁盘读写约 ");
        append_str(&mut out, disk.as_str());
        append_str(&mut out, "/s，综合压力分 ");
        append_str(&mut out, f.score_text.as_str());
        append_str(&mut out, "。");
        append_str(&mut out, pressure.as_str());
    } else if any_keyword_exec(qs, &w4) {
        append_str(&mut out, insight.reason.as_str());
        append_str(&mut out, "。如果暂时不处理，通常意味着它会继续保持当前的资源占用模式；如果这正是导致卡顿的元凶，卡顿现象可能持续或再次出现。");
    } else {
        append_str(&mut out, "基于当前进程名、路径、命令行和资源占用，我的保守判断是：");
        append_str(&mut out, insight.summary.as_str());
        append_str(&mut out, "。如果你想更具体一些，可以继续问“结束它会有什么影响？”、“它为什么占用这么高？”或“这个进程主要是做什么的？”。");
    }
    assert(out@ =~= answer_body(*f, *insight, question@));
    out
}

/// The local answer to a follow-up question.
pub open spec fn local_answer_of(
    a: ProcessAiFollowUpAnswer,
    f: ProcessFacts,
    insight: ProcessAiInsight,
    question: Seq<char>,
    history: Seq<ProcessAiFollowUpTurn>,
) -> bool {
    &&& a.pid == f.pid
    &&& a.name == f.name
    &&& a.question@ == question
    &&& a.answer@ == answer_body(f, insight, question) + history_suffix(history)
    &&& a.source@ == "local_rules"@
    &&& !a.remote_attempted
    &&& !a.used_fallback
    &&& a.fallback_reason is None
}

/// `build_local_follow_up_answer`: the answer of the local rules to a
/// follow-up question about a process.
pub fn build_local_follow_up_answer(
    f: &ProcessFacts,
    insight: &ProcessAiInsight,
    question: &str,
    history: &[ProcessAiFollowUpTurn],
) -> (r: ProcessAiFollowUpAnswer)
    requires
        question_kind(question@) == 3 ==> disk_total(*f) <= u64::MAX,
    ensures
        local_answer_of(r, *f, *insight, question@, history@),
{
    let mut body = answer_body_of(f, insight, question);
    let suffix = build_history_suffix(history);
    append_str(&mut body, suffix.as_str());
    ProcessAiFollowUpAnswer {
        pid: f.pid,
        name: f.name.clone(),
        question: owned(question),
        answer: string_of(body.as_slice()),
        source: owned("local_rules"),
        remote_attempted: false,
        used_fallback: false,
        fallback_reason: None,
    }
}

/// The answer when a follow-up question is blank.
pub const EMPTY_QUESTION: &'static str = "追问内容不能为空";

/// The follow-up question as asked, trimmed; a blank question is refused.
pub fn follow_up_question(question: &str) -> (r: Result<String, String>)
    ensures
        match r {
            Ok(q) => trim(question@).len() > 0 && q@ == trim(question@),
            Err(e) => trim(question@).len() == 0 && e@ == EMPTY_QUESTION@,
        },
{
    let t = trim_str(question);
    if t.len() == 0 {
        Err(owned(EMPTY_QUESTION))
    } else {
        Ok(string_of(t.as_slice()))
    }
}

/// The answer once remote advice has replied: its answer trimmed, or the
/// local answer where it is blank.
pub fn remote_follow_up_answer(
    f: &ProcessFacts,
    insight: &ProcessAiInsight,
    question: &str,
    history: &[ProcessAiFollowUpTurn],
    reply: String,
    model: &str,
) -> (r: ProcessAiFollowUpAnswer)
    requires
        question_kind(question@) == 3 ==> disk_total(*f) <= u64::MAX,
    ensures
        r.pid == f.pid,
        r.name == f.name,
        r.question@ == question@,
        r.answer@ == non_empty_or_text(reply@, answer_body(*f, *insight, question@) + history_suffix(history@)),
        r.source@ == "remote:"@ + model@,
        r.remote_attempted,
        !r.used_fallback,
        r.fallback_reason is None,
{
    let local = build_local_follow_up_answer(f, insight, question, history);
    let mut source: Vec<char> = Vec::new();
    append_str(&mut source, "remote:");
    append_str(&mut source, model);
    ProcessAiFollowUpAnswer {
        pid: f.pid,
        name: f.name.clone(),
        question: owned(question),
        answer: non_empty_or(reply, local.answer),
        source: string_of(source.as_slice()),
        remote_attempted: true,
        used_fallback: false,
        fallback_reason: None,
    }
}

/// The local answer, marked as standing in for remote advice that failed.
pub fn follow_up_fallback(local: ProcessAiFollowUpAnswer, reason: String) -> (r: ProcessAiFollowUpAnswer)
    ensures
        r == (ProcessAiFollowUpAnswer {
            remote_attempted: true,
            used_fallback: true,
            fallback_reason: Some(reason),
            ..local
        }),
{
    let mut r = local;
    r.remote_attempted = true;
    r.used_fallback = true;
    r.fallback_reason = Some(reason);
    r
}

/// Why a process may not be ended, if it may not: it is this application
/// itself, a critical system process, or a security process.
pub open spec fn termination_block(pid: u32, own_pid: u32, name: Seq<char>, is_critical: bool, category: Seq<char>) -> Option<Seq<char>> {
    if pid == own_pid {
        Some("不能结束当前 smart-disk-cleaner 应用自身进程。"@)
    } else if is_critical || category == "system_critical"@ {
        Some("已阻止结束 "@ + name + " (PID "@ + crate::text::decimal(pid as nat) + ")：这是关键系统进程，强制结束可能导致系统不稳定。"@)
    } else if category == "security"@ {
        Some("已阻止结束 "@ + name + " (PID "@ + crate::text::decimal(pid as nat) + ")：这是安全防护相关进程，结束后可能影响保护能力。"@)
    } else {
        None
    }
}

fn name_pid_text(lead: &str, name: &str, pid: u32, tail: &str) -> (r: String)
    ensures
        r@ == lead@ + name@ + " (PID "@ + crate::text::decimal(pid as nat) + tail@,
{
    let mut v = crate::text::chars_of(lead);
    crate::text::append_str(&mut v, name);
    crate::text::append_str(&mut v, " (PID ");
    crate::text::push_decimal(&mut v, pid as u64);
    crate::text::append_str(&mut v, tail);
    crate::text::string_of(v.as_slice())
}

/// Why the process may not be ended, or `None` where it may.
pub fn termination_block_reason(pid: u32, own_pid: u32, name: &str, is_critical: bool, category: &str) -> (r: Option<String>)
    ensures
        match r {
            Some(t) => termination_block(pid, own_pid, name@, is_critical, category@) == Some(t@),
            None => termination_block(pid, own_pid, name@, is_critical, category@) is None,
        },
{
    if pid == own_pid {
        return Some(crate::text::owned("不能结束当前 smart-disk-cleaner 应用自身进程。"));
    }
    let c = crate::text::chars_of(category);
    if is_critical || crate::text::eq_lit(c.as_slice(), "system_critical") {
        return Some(name_pid_text("已阻止结束 ", name, pid, ")：这是关键系统进程，强制结束可能导致系统不稳定。"));
    }
    if crate::text::eq_lit(c.as_slice(), "security") {
        return Some(name_pid_text("已阻止结束 ", name, pid, ")：这是安全防护相关进程，结束后可能影响保护能力。"));
    }
    None
}

/// The reply to a request to end a process: requested, or failed.
pub fn termination_message(name: &str, pid: u32, succeeded: bool) -> (r: String)
    ensures
        r@ == (if succeeded {
            "已请求结束进程："@ + name@ + " (PID "@ + crate::text::decimal(pid as nat) + ")"@
        } else {
            "结束进程失败："@ + name@ + " (PID "@ + crate::text::decimal(pid as nat) + ")，可能是权限不足或该进程已经退出。"@
        }),
{
    if succeeded {
        name_pid_text("已请求结束进程：", name, pid, ")")
    } else {
        name_pid_text("结束进程失败：", name, pid, ")，可能是权限不足或该进程已经退出。")
    }
}

/// The error of a process that is no longer there.
pub fn process_not_found(pid: u32) -> (r: String)
    ensures
        r@ == "未找到 PID 为 "@ + crate::text::decimal(pid as nat) + " 的进程，可能已经退出。"@,
{
    let mut v = crate::text::chars_of("未找到 PID 为 ");
    crate::text::push_decimal(&mut v, pid as u64);
    crate::text::append_str(&mut v, " 的进程，可能已经退出。");
    crate::text::string_of(v.as_slice())
}

/// How many processes are listed: the number asked for (or the default),
/// at least one and at most a hundred.
pub fn process_limit(limit: Option<usize>, default: usize) -> (r: usize)
    ensures
        r == ({
            let n = match limit {
                Some(n) => n,
                None => default,
            };
            if n < 1 { 1 } else if n > 100 { 100 } else { n }
        }),
{
    let n = match limit {
        Some(n) => n,
        None => default,
    };
    if n < 1 {
        1
    } else if n > 100 {
        100
    } else {
        n
    }
}

/// The numbers among the parts, the parts that are not numbers left out.
pub open spec fn parsed_numbers(parts: Seq<Seq<char>>) -> Seq<nat>
    decreases parts.len(),
{
    if parts.len() == 0 {
        Seq::empty()
    } else {
        match parse_u64(parts.last()) {
            Some(v) => parsed_numbers(parts.drop_last()).push(v),
            None => parsed_numbers(parts.drop_last()),
        }
    }
}

/// The seconds a clock reading `[[hh:]mm:]ss` stands for, from the numbers
/// read off it; any other count of numbers stands for none.
pub open spec fn clock_seconds(n: Seq<nat>) -> nat {
    if n.len() == 3 {
        n[0] * 3600 + n[1] * 60 + n[2]
    } else if n.len() == 2 {
        n[0] * 60 + n[1]
    } else if n.len() == 1 {
        n[0]
    } else {
        0
    }
}

/// The seconds an elapsed time as `ps` writes it, `[dd-][[hh:]mm:]ss`,
/// stands for: days (zero where they do not read as a number) and the
/// clock reading after the first `-`, or the whole text where there is none.
pub open spec fn elapsed_total(value: Seq<char>) -> nat {
    let t = trim(value);
    if t.len() == 0 {
        0
    } else {
        let dash = first_index(t, '-');
        let days: nat = if dash >= 0 {
            match parse_u64(t.take(dash)) {
                Some(d) => d,
                None => 0,
            }
        } else {
            0
        };
        let clock = if dash >= 0 { t.skip(dash + 1) } else { t };
        days * 86400 + clock_seconds(parsed_numbers(split_on(clock, ':')))
    }
}

/// The 64-bit arithmetic the elapsed time is computed in wraps around.
pub open spec fn wrap64(x: nat) -> nat {
    x % 0x1_0000_0000_0000_0000
}

proof fn lemma_wrapping_add(x: u64, y: u64)
    ensures
        x.wrapping_add(y) as nat == wrap64((x + y) as nat),
{
    assert(vstd::wrapping::u64_specs::wrapping_add(x, y) as nat == wrap64((x + y) as nat)) by {
        if x + y > u64::MAX {
            assert((x + y) as nat % 0x1_0000_0000_0000_0000 == (x + y - 0x1_0000_0000_0000_0000) as nat) by (nonlinear_arith)
                requires x + y > u64::MAX, x <= u64::MAX, y <= u64::MAX;
        } else {
            assert((x + y) as nat % 0x1_0000_0000_0000_0000 == (x + y) as nat) by (nonlinear_arith)
                requires x + y <= u64::MAX, x >= 0, y >= 0;
        }
    }
}

/// Reads an elapsed time as `ps` writes it into seconds, wrapping around
/// in 64 bits as the arithmetic it is computed in does.
pub fn parse_elapsed_seconds(value: &str) -> (r: u64)
    ensures
        r as nat == wrap64(elapsed_total(value@)),
{
    let ghost m: int = 0x1_0000_0000_0000_0000int;
    let t = trim_chars(chars_of(value).as_slice());
    if t.len() == 0 {
        return 0;
    }
    proof {
        lemma_index_bounds(t@, '-');
    }
    let (days, clock): (u64, Vec<char>) = match first_index_exec(&t, '-') {
        Some(k) => {
            let mut head: Vec<char> = Vec::new();
            let mut j: usize = 0;
            while j < k
                invariant
                    j <= k,
                    k < t@.len(),
                    head@ == t@.take(j as int),
                decreases k - j,
            {
                head.push(t[j]);
                assert(t@.take(j + 1) =~= t@.take(j as int).push(t@[j as int]));
                j += 1;
            }
            let mut rest: Vec<char> = Vec::new();
            let mut j2: usize = k + 1;
            while j2 < t.len()
                invariant
                    k + 1 <= j2 <= t@.len(),
                    rest@ == t@.subrange(k + 1, j2 as int),
                decreases t@.len() - j2,
            {
                rest.push(t[j2]);
                assert(t@.subrange(k + 1, j2 + 1) =~= t@.subrange(k + 1, j2 as int).push(t@[j2 as int]));
                j2 += 1;
            }
            assert(rest@ =~= t@.skip(k + 1));
            let d: u64 = match parse_u64_exec(head.as_slice()) {
                Some(v) => v,
                None => 0,
            };
            (d, rest)
        },
        None => (0, t),
    };
    let ghost dash = first_index(t@, '-');
    assert(clock@ == (if dash >= 0 { t@.skip(dash + 1) } else { t@ }));
    let parts = split_on_exec(clock.as_slice(), ':');
    let ghost pv = views(parts@);
    let mut numbers: Vec<u64> = Vec::new();
    let mut i: usize = 0;
    while i < parts.len()
        invariant
            i <= parts@.len(),
            pv == views(parts@),
            numbers@.map_values(|x: u64| x as nat) == parsed_numbers(pv.take(i as int)),
        decreases parts@.len() - i,
    {
        assert(pv.take(i + 1).drop_last() =~= pv.take(i as int));
        assert(pv.take(i + 1).last() == parts@[i as int]@);
        let ghost before = numbers@;
        match parse_u64_exec(parts[i].as_slice()) {
            Some(v) => {
                numbers.push(v);
                assert(numbers@.map_values(|x: u64| x as nat) =~= before.map_values(|x: u64| x as nat).push(v as nat));
            },
            None => {},
        }
        i += 1;
    }
    assert(pv.take(pv.len() as int) =~= pv);
    let ghost n = numbers@.map_values(|x: u64| x as nat);
    assert(n == parsed_numbers(split_on(clock@, ':')));
    let secs: u64 = if numbers.len() == 3 {
        let a = numbers[0].wrapping_mul(3600);
        let b = numbers[1].wrapping_mul(60);
        let ab = a.wrapping_add(b);
        proof {
            lemma_wrapping_add(a, b);
            lemma_wrapping_add(ab, numbers[2]);
            vstd::arithmetic::div_mod::lemma_add_mod_noop((n[0] * 3600) as int, (n[1] * 60) as int, m);
            vstd::arithmetic::div_mod::lemma_add_mod_noop((n[0] * 3600 + n[1] * 60) as int, n[2] as int, m);
            vstd::arithmetic::div_mod::lemma_small_mod(n[2], m as nat);
        }
        ab.wrapping_add(numbers[2])
    } else if numbers.len() == 2 {
        let a = numbers[0].wrapping_mul(60);
        proof {
            lemma_wrapping_add(a, numbers[1]);
            vstd::arithmetic::div_mod::lemma_add_mod_noop((n[0] * 60) as int, n[1] as int, m);
            vstd::arithmetic::div_mod::lemma_small_mod(n[1], m as nat);
        }
        a.wrapping_add(numbers[1])
    } else if numbers.len() == 1 {
        proof {
            vstd::arithmetic::div_mod::lemma_small_mod(n[0], m as nat);
        }
        numbers[0]
    } else {
        0
    };
    assert(secs as nat == wrap64(clock_seconds(n)));
    let day_secs = days.wrapping_mul(24).wrapping_mul(3600);
    proof {
        vstd::arithmetic::div_mod::lemma_mul_mod_noop_left((days * 24) as int, 3600, m);
        lemma_wrapping_add(day_secs, secs);
        vstd::arithmetic::div_mod::lemma_add_mod_noop((days * 86400) as int, clock_seconds(n) as int, m);
    }
    day_secs.wrapping_add(secs)
}

} // verus!
