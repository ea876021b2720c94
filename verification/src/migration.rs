//! Migration advice: which large files and application data directories
//! could move off the system drive, and the step-by-step plan for each.

use vstd::prelude::*;
use crate::models::{
    ActionParam, MigrationAction, MigrationActionKind, MigrationActionStep, MigrationCategory,
    MigrationDocSource, MigrationDocSourceKind, MigrationObjectKind, MigrationOpportunity, MigrationPlan,
    MigrationSupportLevel, ParamValue,
};
use crate::planner::copy_steps;
use crate::sizes::{format_bytes_human, size_text};
use crate::text::{append_str, copy_strings, decimal, owned, push_decimal, string_of};

verus! {

/// The order of support levels: one-click first, manual last.
pub open spec fn support_order(level: MigrationSupportLevel) -> u8 {
    match level {
        MigrationSupportLevel::OneClick => 0,
        MigrationSupportLevel::Guided => 1,
        MigrationSupportLevel::Manual => 2,
    }
}

/// `support_rank`.
pub fn support_rank(level: MigrationSupportLevel) -> (r: u8)
    ensures
        r == support_order(level),
{
    match level {
        MigrationSupportLevel::OneClick => 0,
        MigrationSupportLevel::Guided => 1,
        MigrationSupportLevel::Manual => 2,
    }
}

pub open spec fn category_name(c: MigrationCategory) -> Seq<char> {
    match c {
        MigrationCategory::LargeFiles => "large"@,
        MigrationCategory::DownloadArchives => "download_archive"@,
        MigrationCategory::WechatData => "wechat"@,
        MigrationCategory::CondaPackageCache => "conda_pkgs"@,
        MigrationCategory::CondaEnvironments => "conda_envs"@,
        MigrationCategory::CondaInstallation => "conda_install"@,
    }
}

/// `category_key`.
pub fn category_key(c: MigrationCategory) -> (r: &'static str)
    ensures
        r@ == category_name(c),
{
    match c {
        MigrationCategory::LargeFiles => "large",
        MigrationCategory::DownloadArchives => "download_archive",
        MigrationCategory::WechatData => "wechat",
        MigrationCategory::CondaPackageCache => "conda_pkgs",
        MigrationCategory::CondaEnvironments => "conda_envs",
        MigrationCategory::CondaInstallation => "conda_install",
    }
}

pub open spec fn category_summary_text(c: MigrationCategory) -> Seq<char> {
    match c {
        MigrationCategory::LargeFiles => "这是一个普通大文件迁移计划"@,
        MigrationCategory::DownloadArchives => "这是一个下载目录归档迁移计划"@,
        MigrationCategory::WechatData => "这是一个应用数据目录迁移计划"@,
        MigrationCategory::CondaPackageCache => "这是一个开发环境缓存迁移计划"@,
        MigrationCategory::CondaEnvironments => "这是一个开发环境目录迁移计划"@,
        MigrationCategory::CondaInstallation => "这是一个安装根目录迁移计划"@,
    }
}

/// `category_summary`.
pub fn category_summary(c: MigrationCategory) -> (r: &'static str)
    ensures
        r@ == category_summary_text(c),
{
    match c {
        MigrationCategory::LargeFiles => "这是一个普通大文件迁移计划",
        MigrationCategory::DownloadArchives => "这是一个下载目录归档迁移计划",
        MigrationCategory::WechatData => "这是一个应用数据目录迁移计划",
        MigrationCategory::CondaPackageCache => "这是一个开发环境缓存迁移计划",
        MigrationCategory::CondaEnvironments => "这是一个开发环境目录迁移计划",
        MigrationCategory::CondaInstallation => "这是一个安装根目录迁移计划",
    }
}

/// Whether a compatibility junction is offered at the old location.
pub open spec fn compat_link(c: MigrationCategory) -> bool {
    c == MigrationCategory::WechatData || c == MigrationCategory::CondaPackageCache
        || c == MigrationCategory::CondaEnvironments
}

/// `supports_compat_link`.
pub fn supports_compat_link(c: MigrationCategory) -> (r: bool)
    ensures
        r == compat_link(c),
{
    c == MigrationCategory::WechatData || c == MigrationCategory::CondaPackageCache
        || c == MigrationCategory::CondaEnvironments
}

/// What is moved, by category.
pub open spec fn object_kind_of(c: MigrationCategory) -> MigrationObjectKind {
    match c {
        MigrationCategory::LargeFiles => MigrationObjectKind::File,
        MigrationCategory::DownloadArchives => MigrationObjectKind::File,
        MigrationCategory::WechatData => MigrationObjectKind::AppData,
        MigrationCategory::CondaPackageCache => MigrationObjectKind::PackageCache,
        MigrationCategory::CondaEnvironments => MigrationObjectKind::EnvironmentStore,
        MigrationCategory::CondaInstallation => MigrationObjectKind::InstallationRoot,
    }
}

/// `step`: a step of a migration.
pub fn step(title: &str, detail: &str, required: bool) -> (r: MigrationActionStep)
    ensures
        r.title@ == title@,
        r.detail@ == detail@,
        r.required == required,
{
    MigrationActionStep { title: owned(title), detail: owned(detail), required }
}

/// A documentation source, by value: title, kind, address and note.
pub open spec fn doc_view(d: MigrationDocSource) -> (Seq<char>, MigrationDocSourceKind, Option<Seq<char>>, Seq<char>) {
    (
        d.title@,
        d.kind,
        match d.uri {
            Some(u) => Some(u@),
            None => None,
        },
        d.note@,
    )
}

/// The sources a plan rests on: the scan and the built-in rules, and for
/// Conda the official documentation of its settings.
pub open spec fn plan_doc_sources(c: MigrationCategory) -> Seq<(Seq<char>, MigrationDocSourceKind, Option<Seq<char>>, Seq<char>)> {
    seq![
        ("本地扫描证据"@, MigrationDocSourceKind::LocalObservation, None, "根据当前扫描结果识别源路径、占用体积和目录结构。"@),
        ("内置迁移规则"@, MigrationDocSourceKind::LocalRule, None, "当前计划由本地规则引擎生成，后续可替换为 LLM + 文档检索规划。"@),
    ] + (if c == MigrationCategory::CondaPackageCache || c == MigrationCategory::CondaEnvironments {
        seq![
            (
                "Conda 自定义目录配置"@,
                MigrationDocSourceKind::OfficialDoc,
                Some("https://docs.conda.io/projects/conda/en/stable/user-guide/configuration/custom-env-and-pkg-locations.html"@),
                "作为 Conda envs_dirs / pkgs_dirs 迁移策略的官方依据。"@,
            ),
        ]
    } else {
        Seq::empty()
    }) + (if c == MigrationCategory::CondaInstallation {
        seq![
            (
                "Conda 配置说明"@,
                MigrationDocSourceKind::OfficialDoc,
                Some("https://docs.conda.io/projects/conda/en/latest/user-guide/configuration/settings.html"@),
                "提示安装根目录更适合重装和重建，而不是直接硬搬。"@,
            ),
        ]
    } else {
        Seq::empty()
    })
}

fn doc_source(title: &str, kind: MigrationDocSourceKind, uri: Option<&str>, note: &str) -> (r: MigrationDocSource)
    ensures
        doc_view(r) == (title@, kind, match uri {
            Some(u) => Some(u@),
            None => None::<Seq<char>>,
        }, note@),
{
    MigrationDocSource {
        title: owned(title),
        kind,
        uri: match uri {
            Some(u) => Some(owned(u)),
            None => None,
        },
        note: owned(note),
    }
}

/// `doc_sources_for_plan`.
pub fn doc_sources_for_plan(c: MigrationCategory) -> (r: Vec<MigrationDocSource>)
    ensures
        r@.map_values(|d: MigrationDocSource| doc_view(d)) == plan_doc_sources(c),
{
    let mut values: Vec<MigrationDocSource> = Vec::new();
    values.push(doc_source("本地扫描证据", MigrationDocSourceKind::LocalObservation, None, "根据当前扫描结果识别源路径、占用体积和目录结构。"));
    values.push(doc_source("内置迁移规则", MigrationDocSourceKind::LocalRule, None, "当前计划由本地规则引擎生成，后续可替换为 LLM + 文档检索规划。"));
    if c == MigrationCategory::CondaPackageCache || c == MigrationCategory::CondaEnvironments {
        values.push(doc_source(
            "Conda 自定义目录配置",
            MigrationDocSourceKind::OfficialDoc,
            Some("https://docs.conda.io/projects/conda/en/stable/user-guide/configuration/custom-env-and-pkg-locations.html"),
            "作为 Conda envs_dirs / pkgs_dirs 迁移策略的官方依据。",
        ));
    }
    if c == MigrationCategory::CondaInstallation {
        values.push(doc_source(
            "Conda 配置说明",
            MigrationDocSourceKind::OfficialDoc,
            Some("https://docs.conda.io/projects/conda/en/latest/user-guide/configuration/settings.html"),
            "提示安装根目录更适合重装和重建，而不是直接硬搬。",
        ));
    }
    assert(values@.map_values(|d: MigrationDocSource| doc_view(d)) =~= plan_doc_sources(c));
    values
}

/// The Conda setting a plan changes, and its new value.
pub open spec fn conda_entry(o: MigrationOpportunity) -> Option<(Seq<char>, Seq<char>)> {
    if o.category == MigrationCategory::CondaPackageCache {
        Some(("pkgs_dirs"@, o.recommended_target_path@))
    } else if o.category == MigrationCategory::CondaEnvironments {
        Some(("envs_dirs"@, o.recommended_target_path@))
    } else {
        None
    }
}

/// `conda_config_entry_for_plan`.
pub fn conda_config_entry_for_plan(o: &MigrationOpportunity) -> (r: Option<(&'static str, String)>)
    ensures
        match r {
            Some((k, v)) => conda_entry(*o) == Some((k@, v@)),
            None => conda_entry(*o) is None,
        },
{
    if o.category == MigrationCategory::CondaPackageCache {
        Some(("pkgs_dirs", o.recommended_target_path.clone()))
    } else if o.category == MigrationCategory::CondaEnvironments {
        Some(("envs_dirs", o.recommended_target_path.clone()))
    } else {
        None
    }
}

/// A parameter value, by value.
pub enum ParamShape {
    Text(Seq<char>),
    Flag(bool),
    Null,
}

pub open spec fn param_shape(p: ActionParam) -> (Seq<char>, ParamShape) {
    (
        p.key@,
        match p.value {
            ParamValue::Text(t) => ParamShape::Text(t@),
            ParamValue::Flag(b) => ParamShape::Flag(b),
            ParamValue::Null => ParamShape::Null,
        },
    )
}

/// An action of a plan, by value.
pub struct PlannedAction {
    pub id: Seq<char>,
    pub kind: MigrationActionKind,
    pub title: Seq<char>,
    pub detail: Seq<char>,
    pub required: bool,
    pub enabled: bool,
    pub params: Seq<(Seq<char>, ParamShape)>,
}

pub open spec fn planned(a: MigrationAction) -> PlannedAction {
    PlannedAction {
        id: a.id@,
        kind: a.kind,
        title: a.title@,
        detail: a.detail@,
        required: a.required,
        enabled: a.enabled_by_default,
        params: a.params@.map_values(|p: ActionParam| param_shape(p)),
    }
}

pub open spec fn stop_action(pid: Seq<char>, i: int, name: Seq<char>) -> PlannedAction {
    PlannedAction {
        id: pid + ":stop:"@ + decimal(i as nat),
        kind: MigrationActionKind::StopProcess,
        title: "关闭进程 "@ + name,
        detail: "在迁移前关闭相关进程，避免文件占用导致迁移失败。"@,
        required: true,
        enabled: true,
        params: seq![("processName"@, ParamShape::Text(name))],
    }
}

/// The actions that change the Conda setting: the `.condarc` entry and the
/// environment variable.
pub open spec fn conda_actions(pid: Seq<char>, o: MigrationOpportunity) -> Seq<PlannedAction> {
    match conda_entry(o) {
        Some((k, v)) => {
            let env_name = if o.category == MigrationCategory::CondaPackageCache {
                "CONDA_PKGS_DIRS"@
            } else {
                "CONDA_ENVS_PATH"@
            };
            seq![
                PlannedAction {
                    id: pid + ":condarc"@,
                    kind: MigrationActionKind::UpdateYamlList,
                    title: "更新 .condarc"@,
                    detail: "把 Conda 配置中的目录列表更新到新的目标路径。"@,
                    required: o.category == MigrationCategory::CondaPackageCache,
                    enabled: true,
                    params: seq![
                        ("path"@, ParamShape::Text("~/.condarc"@)),
                        ("key"@, ParamShape::Text(k)),
                        ("value"@, ParamShape::Text(v)),
                    ],
                },
                PlannedAction {
                    id: pid + ":env"@,
                    kind: MigrationActionKind::SetEnvVar,
                    title: "更新环境变量 "@ + env_name,
                    detail: "同步修改用户环境变量，让命令行和图形界面都能识别新路径。"@,
                    required: false,
                    enabled: false,
                    params: seq![("name"@, ParamShape::Text(env_name)), ("value"@, ParamShape::Text(v))],
                },
            ]
        },
        None => Seq::empty(),
    }
}

/// The actions of the plan for an opportunity: stop the processes that
/// hold it, change the Conda setting where it applies, move the path, link
/// the old location where that is supported, and verify the result.
pub open spec fn plan_actions(o: MigrationOpportunity) -> Seq<PlannedAction> {
    let pid = "plan:"@ + o.id@;
    let stops = Seq::new(o.blocked_processes@.len(), |i: int| stop_action(pid, i, o.blocked_processes@[i]@));
    let mv = PlannedAction {
        id: pid + ":move"@,
        kind: MigrationActionKind::MovePath,
        title: "移动路径"@,
        detail: "把识别出的源路径迁移到推荐目标路径。"@,
        required: true,
        enabled: true,
        params: seq![
            ("sourcePath"@, ParamShape::Text(o.source_path@)),
            ("targetDir"@, ParamShape::Text(o.recommended_target_dir@)),
            ("targetPath"@, ParamShape::Text(o.recommended_target_path@)),
            (
                "allowSpecialPaths"@,
                ParamShape::Flag(
                    o.category != MigrationCategory::LargeFiles && o.category != MigrationCategory::DownloadArchives,
                ),
            ),
        ],
    };
    let link = if compat_link(o.category) {
        seq![
            PlannedAction {
                id: pid + ":junction"@,
                kind: MigrationActionKind::CreateJunction,
                title: "创建兼容 Junction"@,
                detail: "在原路径创建目录联接，减少依赖固定路径的软件出错概率。"@,
                required: false,
                enabled: true,
                params: seq![
                    ("sourcePath"@, ParamShape::Text(o.source_path@)),
                    ("targetPath"@, ParamShape::Text(o.recommended_target_path@)),
                ],
            },
        ]
    } else {
        Seq::empty()
    };
    let verify = PlannedAction {
        id: pid + ":verify"@,
        kind: MigrationActionKind::VerifyPathExists,
        title: "验证迁移结果"@,
        detail: "确认目标路径存在，基础迁移步骤完成。"@,
        required: true,
        enabled: true,
        params: seq![("path"@, ParamShape::Text(o.recommended_target_path@))],
    };
    stops + conda_actions(pid, o) + seq![mv] + link + seq![verify]
}

fn text_param(key: &str, value: &[char]) -> (r: ActionParam)
    ensures
        param_shape(r) == (key@, ParamShape::Text(value@)),
{
    ActionParam { key: owned(key), value: ParamValue::Text(string_of(value)) }
}

fn flag_param(key: &str, value: bool) -> (r: ActionParam)
    ensures
        param_shape(r) == (key@, ParamShape::Flag(value)),
{
    ActionParam { key: owned(key), value: ParamValue::Flag(value) }
}

fn action_of(
    id: &Vec<char>,
    kind: MigrationActionKind,
    title: &Vec<char>,
    detail: &str,
    required: bool,
    enabled: bool,
    params: Vec<ActionParam>,
) -> (r: MigrationAction)
    ensures
        planned(r) == (PlannedAction {
            id: id@,
            kind,
            title: title@,
            detail: detail@,
            required,
            enabled,
            params: params@.map_values(|p: ActionParam| param_shape(p)),
        }),
{
    MigrationAction {
        id: string_of(id.as_slice()),
        kind,
        title: string_of(title.as_slice()),
        detail: owned(detail),
        required,
        enabled_by_default: enabled,
        params,
    }
}

fn suffixed(base: &Vec<char>, suffix: &str) -> (r: Vec<char>)
    ensures
        r@ == base@ + suffix@,
{
    let mut out = crate::text::copy_chars(base.as_slice());
    append_str(&mut out, suffix);
    out
}

fn push_action(actions: &mut Vec<MigrationAction>, a: MigrationAction)
    ensures
        final(actions)@.map_values(|x: MigrationAction| planned(x)) == old(actions)@.map_values(
            |x: MigrationAction| planned(x),
        ).push(planned(a)),
{
    let ghost before = actions@;
    actions.push(a);
    assert(actions@.map_values(|x: MigrationAction| planned(x)) =~= before.map_values(
        |x: MigrationAction| planned(x),
    ).push(planned(a)));
}

/// The plan that carries out an opportunity: its fields carried over, its
/// summary naming the kind of plan and the size, its sources and actions.
pub open spec fn plan_for(r: MigrationPlan, o: MigrationOpportunity) -> bool {
    &&& r.id@ == "plan:"@ + o.id@
    &&& r.title == o.title
    &&& r.category == o.category
    &&& r.object_kind == object_kind_of(o.category)
    &&& r.support_level == o.support_level
    &&& r.risk == o.risk
    &&& r.estimated_size == o.estimated_size
    &&& r.source_path == o.source_path
    &&& r.recommended_target_dir == o.recommended_target_dir
    &&& r.recommended_target_path == o.recommended_target_path
    &&& r.summary@ == category_summary_text(o.category) + "，预计处理 "@ + size_text(o.estimated_size as nat) + "。"@
    &&& r.rationale == o.reason
    &&& r.tags@ == o.tags@
    &&& r.doc_sources@.map_values(|d: MigrationDocSource| doc_view(d)) == plan_doc_sources(o.category)
    &&& r.actions@.map_values(|a: MigrationAction| planned(a)) == plan_actions(o)
    &&& r.verification_steps@ == o.required_steps@
}

/// `build_plan_from_opportunity`: the plan that carries out a migration.
pub fn build_plan_from_opportunity(o: &MigrationOpportunity) -> (r: MigrationPlan)
    ensures
        plan_for(r, *o),
{
    let object_kind = match o.category {
        MigrationCategory::LargeFiles => MigrationObjectKind::File,
        MigrationCategory::DownloadArchives => MigrationObjectKind::File,
        MigrationCategory::WechatData => MigrationObjectKind::AppData,
        MigrationCategory::CondaPackageCache => MigrationObjectKind::PackageCache,
        MigrationCategory::CondaEnvironments => MigrationObjectKind::EnvironmentStore,
        MigrationCategory::CondaInstallation => MigrationObjectKind::InstallationRoot,
    };
    let mut pid: Vec<char> = Vec::new();
    append_str(&mut pid, "plan:");
    append_str(&mut pid, o.id.as_str());
    let ghost gpid = pid@;
    let mut actions: Vec<MigrationAction> = Vec::new();
    let mut index: usize = 0;
    while index < o.blocked_processes.len()
        invariant
            index <= o.blocked_processes@.len(),
            pid@ == gpid,
            gpid == "plan:"@ + o.id@,
            actions@.map_values(|x: MigrationAction| planned(x)) == Seq::new(
                index as nat,
                |i: int| stop_action(gpid, i, o.blocked_processes@[i]@),
            ),
        decreases o.blocked_processes@.len() - index,
    {
        let name = o.blocked_processes[index].as_str();
        let mut id = suffixed(&pid, ":stop:");
        push_decimal(&mut id, index as u64);
        let mut title: Vec<char> = Vec::new();
        append_str(&mut title, "关闭进程 ");
        append_str(&mut title, name);
        let name_chars = crate::text::chars_of(name);
        let mut params: Vec<ActionParam> = Vec::new();
        params.push(text_param("processName", name_chars.as_slice()));
        assert(params@.map_values(|p: ActionParam| param_shape(p)) =~= seq![("processName"@, ParamShape::Text(name@))]);
        let a = action_of(&id, MigrationActionKind::StopProcess, &title, "在迁移前关闭相关进程，避免文件占用导致迁移失败。", true, true, params);
        assert(planned(a) == stop_action(gpid, index as int, o.blocked_processes@[index as int]@));
        push_action(&mut actions, a);
        assert(actions@.map_values(|x: MigrationAction| planned(x)) =~= Seq::new(
            (index + 1) as nat,
            |i: int| stop_action(gpid, i, o.blocked_processes@[i]@),
        ));
        index += 1;
    }
    let ghost stops = actions@.map_values(|x: MigrationAction| planned(x));
    match conda_config_entry_for_plan(o) {
        Some((key, value)) => {
            let value_chars = crate::text::chars_of(value.as_str());
            let key_chars = crate::text::chars_of(key);
            let yaml_path = crate::text::chars_of("~/.condarc");
            let mut p1: Vec<ActionParam> = Vec::new();
            p1.push(text_param("path", yaml_path.as_slice()));
            p1.push(text_param("key", key_chars.as_slice()));
            p1.push(text_param("value", value_chars.as_slice()));
            assert(p1@.map_values(|p: ActionParam| param_shape(p)) =~= seq![
                ("path"@, ParamShape::Text("~/.condarc"@)),
                ("key"@, ParamShape::Text(key@)),
                ("value"@, ParamShape::Text(value@)),
            ]);
            let ghost want = conda_actions(gpid, *o);
            let t1 = crate::text::chars_of("更新 .condarc");
            let a1 = action_of(
                &suffixed(&pid, ":condarc"),
                MigrationActionKind::UpdateYamlList,
                &t1,
                "把 Conda 配置中的目录列表更新到新的目标路径。",
                o.category == MigrationCategory::CondaPackageCache,
                true,
                p1,
            );
            assert(planned(a1) == want[0]);
            push_action(&mut actions, a1);
            let env_name = if o.category == MigrationCategory::CondaPackageCache {
                "CONDA_PKGS_DIRS"
            } else {
                "CONDA_ENVS_PATH"
            };
            let mut t2: Vec<char> = Vec::new();
            append_str(&mut t2, "更新环境变量 ");
            append_str(&mut t2, env_name);
            let env_chars = crate::text::chars_of(env_name);
            let mut p2: Vec<ActionParam> = Vec::new();
            p2.push(text_param("name", env_chars.as_slice()));
            p2.push(text_param("value", value_chars.as_slice()));
            assert(p2@.map_values(|p: ActionParam| param_shape(p)) =~= seq![
                ("name"@, ParamShape::Text(env_name@)),
                ("value"@, ParamShape::Text(value@)),
            ]);
            let a2 = action_of(
                &suffixed(&pid, ":env"),
                MigrationActionKind::SetEnvVar,
                &t2,
                "同步修改用户环境变量，让命令行和图形界面都能识别新路径。",
                false,
                false,
                p2,
            );
            assert(planned(a2) == want[1]);
            push_action(&mut actions, a2);
            assert(actions@.map_values(|x: MigrationAction| planned(x)) =~= stops + want);
        },
        None => {
            assert(conda_actions(gpid, *o) =~= Seq::<PlannedAction>::empty());
            assert(actions@.map_values(|x: MigrationAction| planned(x)) =~= stops + conda_actions(gpid, *o));
        },
    }
    assert(actions@.map_values(|x: MigrationAction| planned(x)) =~= stops + conda_actions(gpid, *o));
    let ghost upto_conda = actions@.map_values(|x: MigrationAction| planned(x));
    let src = crate::text::chars_of(o.source_path.as_str());
    let tdir = crate::text::chars_of(o.recommended_target_dir.as_str());
    let tpath = crate::text::chars_of(o.recommended_target_path.as_str());
    let mut pm: Vec<ActionParam> = Vec::new();
    pm.push(text_param("sourcePath", src.as_slice()));
    pm.push(text_param("targetDir", tdir.as_slice()));
    pm.push(text_param("targetPath", tpath.as_slice()));
    pm.push(flag_param(
        "allowSpecialPaths",
        o.category != MigrationCategory::LargeFiles && o.category != MigrationCategory::DownloadArchives,
    ));
    let tm = crate::text::chars_of("移动路径");
    assert(pm@.map_values(|p: ActionParam| param_shape(p)) =~= seq![
        ("sourcePath"@, ParamShape::Text(o.source_path@)),
        ("targetDir"@, ParamShape::Text(o.recommended_target_dir@)),
        ("targetPath"@, ParamShape::Text(o.recommended_target_path@)),
        (
            "allowSpecialPaths"@,
            ParamShape::Flag(o.category != MigrationCategory::LargeFiles && o.category != MigrationCategory::DownloadArchives),
        ),
    ]);
    let am = action_of(&suffixed(&pid, ":move"), MigrationActionKind::MovePath, &tm, "把识别出的源路径迁移到推荐目标路径。", true, true, pm);
    push_action(&mut actions, am);
    let ghost upto_move = actions@.map_values(|x: MigrationAction| planned(x));
    if supports_compat_link(o.category) {
        let mut pj: Vec<ActionParam> = Vec::new();
        pj.push(text_param("sourcePath", src.as_slice()));
        pj.push(text_param("targetPath", tpath.as_slice()));
        assert(pj@.map_values(|p: ActionParam| param_shape(p)) =~= seq![
            ("sourcePath"@, ParamShape::Text(o.source_path@)),
            ("targetPath"@, ParamShape::Text(o.recommended_target_path@)),
        ]);
        let tj = crate::text::chars_of("创建兼容 Junction");
        let aj = action_of(
            &suffixed(&pid, ":junction"),
            MigrationActionKind::CreateJunction,
            &tj,
            "在原路径创建目录联接，减少依赖固定路径的软件出错概率。",
            false,
            true,
            pj,
        );
        push_action(&mut actions, aj);
    }
    let mut pv: Vec<ActionParam> = Vec::new();
    pv.push(text_param("path", tpath.as_slice()));
    assert(pv@.map_values(|p: ActionParam| param_shape(p)) =~= seq![("path"@, ParamShape::Text(o.recommended_target_path@))]);
    let ghost before_verify = actions@.map_values(|x: MigrationAction| planned(x));
    let tv = crate::text::chars_of("验证迁移结果");
    let av = action_of(&suffixed(&pid, ":verify"), MigrationActionKind::VerifyPathExists, &tv, "确认目标路径存在，基础迁移步骤完成。", true, true, pv);
    push_action(&mut actions, av);
    assert(actions@.map_values(|x: MigrationAction| planned(x)) =~= plan_actions(*o));
    let size = format_bytes_human(o.estimated_size);
    let mut summary: Vec<char> = Vec::new();
    append_str(&mut summary, category_summary(o.category));
    append_str(&mut summary, "，预计处理 ");
    append_str(&mut summary, size.as_str());
    append_str(&mut summary, "。");
    MigrationPlan {
        id: string_of(pid.as_slice()),
        title: o.title.clone(),
        category: o.category,
        object_kind,
        support_level: o.support_level,
        risk: o.risk,
        estimated_size: o.estimated_size,
        source_path: o.source_path.clone(),
        recommended_target_dir: o.recommended_target_dir.clone(),
        recommended_target_path: o.recommended_target_path.clone(),
        summary: string_of(summary.as_slice()),
        rationale: o.reason.clone(),
        tags: copy_strings(&o.tags),
        doc_sources: doc_sources_for_plan(o.category),
        actions,
        verification_steps: copy_steps(&o.required_steps),
    }
}

} // verus!
