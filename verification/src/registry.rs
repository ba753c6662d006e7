//! Configuration records: LLM endpoints, TTS provider plugins, and the
//! workbench bookkeeping rows, with the lookups the pipeline needs.

use vstd::prelude::*;
use vstd::string::*;
use crate::errors::DubError;
use crate::store::{str_eq_opt, AiConfig, TtsPlugin};
use crate::tts::{GradioProvider, HttpRestProvider, NcnProvider, TtsProviderImpl};

verus! {

/// The directory all data lives under.
#[derive(Debug, Clone, PartialEq, Eq)]
pub struct DataDirState(pub String);

// ── JSON field lookups (trusted) ────────────────────────────────────────────

/// The string stored under a key of a JSON object, when the text parses
/// and the field is a string.
pub uninterp spec fn json_str_field_of(s: Seq<char>, key: Seq<char>) -> Option<Seq<char>>;

/// Relies on `serde_json::from_str` with a `Value` target and its `get` /
/// `as_str` accessors: yields the string under `key` of the top-level
/// object, a function of the input text and key alone.
#[verifier::external_body]
pub fn json_str_field(s: &str, key: &str) -> (r: Option<String>)
    ensures
        r is Some <==> json_str_field_of(s@, key@) is Some,
        r matches Some(v) ==> json_str_field_of(s@, key@) == Some(v@),
{
    serde_json::from_str::<serde_json::Value>(s)
        .ok()
        .and_then(|v| v.get(key).and_then(|x| x.as_str().map(|t| t.to_string())))
}

/// The string-valued entries of the object stored under a key of a JSON
/// object, ordered by entry key.
pub uninterp spec fn json_str_map_field_of(s: Seq<char>, key: Seq<char>) -> Seq<
    (Seq<char>, Seq<char>),
>;

/// Relies on `serde_json::from_str` with a `Value` target and its
/// `as_object` view (key-ordered by default): the string-valued entries
/// under `key`, a function of the input text and key alone.
#[verifier::external_body]
pub fn json_str_map_field(s: &str, key: &str) -> (r: Vec<(String, String)>)
    ensures
        r@.len() == json_str_map_field_of(s@, key@).len(),
        forall|i: int|
            0 <= i < r@.len() ==> (#[trigger] r@[i]).0@ == json_str_map_field_of(s@, key@)[i].0
                && r@[i].1@ == json_str_map_field_of(s@, key@)[i].1,
{
    match serde_json::from_str::<serde_json::Value>(s) {
        Ok(v) => match v.get(key).and_then(|h| h.as_object()) {
            Some(obj) => obj
                .iter()
                .filter_map(|(k, val)| val.as_str().map(|t| (k.clone(), t.to_string())))
                .collect(),
            None => Vec::new(),
        },
        Err(_) => Vec::new(),
    }
}

/// Whether a text parses as JSON at all.
pub uninterp spec fn json_valid_of(s: Seq<char>) -> bool;

/// Relies on `serde_json::from_str` with a `Value` target: accepts
/// exactly valid JSON, a function of the input text alone.
#[verifier::external_body]
pub fn json_is_valid(s: &str) -> (r: bool)
    ensures
        r == json_valid_of(s@),
{
    serde_json::from_str::<serde_json::Value>(s).is_ok()
}

// ── AI configurations ───────────────────────────────────────────────────────

/// First configuration marked default.
pub open spec fn spec_find_default(s: Seq<AiConfig>) -> Option<int>
    decreases s.len(),
{
    if s.len() == 0 {
        None
    } else if s[0].is_default {
        Some(0)
    } else {
        match spec_find_default(s.drop_first()) {
            Some(i) => Some(i + 1),
            None => None,
        }
    }
}

/// The default configuration, or a configuration error when none is
/// marked default.
pub fn find_default_config(configs: &Vec<AiConfig>) -> (r: Result<AiConfig, DubError>)
    ensures
        match r {
            Ok(c) => (spec_find_default(configs@) matches Some(i) && configs@[i] == c),
            Err(e) => e is ConfigMissing && spec_find_default(configs@) is None,
        },
{
    let n = configs.len();
    proof {
        assert(configs@.skip(0) =~= configs@);
    }
    let mut i: usize = 0;
    while i < n
        invariant
            i <= n,
            n == configs@.len(),
            (spec_find_default(configs@) is None <==> spec_find_default(
                configs@.skip(i as int),
            ) is None),
            spec_find_default(configs@.skip(i as int)) matches Some(j) ==> spec_find_default(
                configs@,
            ) == Some(j + i),
        decreases n - i,
    {
        proof {
            assert(configs@.skip(i as int)[0] == configs@[i as int]);
            assert(configs@.skip(i as int).drop_first() =~= configs@.skip(i + 1));
        }
        if configs[i].is_default {
            let c = clone_ai_config(&configs[i]);
            return Ok(c);
        }
        i += 1;
    }
    assert(configs@.skip(n as int) =~= Seq::<AiConfig>::empty());
    Err(DubError::ConfigMissing { detail: String::from_str("no default model configured") })
}

fn clone_ai_config(c: &AiConfig) -> (r: AiConfig)
    ensures
        r == *c,
{
    AiConfig {
        id: c.id.clone(),
        title: c.title.clone(),
        base_url: c.base_url.clone(),
        api_key: c.api_key.clone(),
        model: c.model.clone(),
        sort_order: c.sort_order,
        is_default: c.is_default,
        concurrent_limit: c.concurrent_limit,
        request_timeout: c.request_timeout,
        rate_limit: c.rate_limit,
    }
}

/// Add a configuration; the very first one becomes the default whatever
/// its flag says.
pub fn create_ai_config(configs: &mut Vec<AiConfig>, config: &AiConfig)
    ensures
        final(configs)@.len() == old(configs)@.len() + 1,
        final(configs)@.take(old(configs)@.len() as int) == old(configs)@,
        ({
            let added = final(configs)@.last();
            &&& added == (AiConfig { is_default: added.is_default, ..*config })
            &&& added.is_default == (if old(configs)@.len() == 0 {
                true
            } else {
                config.is_default
            })
        }),
{
    let mut c = clone_ai_config(config);
    if configs.len() == 0 {
        c.is_default = true;
    }
    configs.push(c);
    proof {
        assert(final(configs)@.take(old(configs)@.len() as int) =~= old(configs)@);
    }
}

/// Replace the configuration with this id; an unknown id changes nothing.
pub fn update_ai_config(configs: &mut Vec<AiConfig>, config: &AiConfig)
    ensures
        final(configs)@.len() == old(configs)@.len(),
        forall|i: int|
            0 <= i < final(configs)@.len() ==> (#[trigger] final(configs)@[i]) == (
            if old(configs)@[i].id@ == config.id@ {
                *config
            } else {
                old(configs)@[i]
            }),
{
    let n = configs.len();
    let mut i: usize = 0;
    while i < n
        invariant
            i <= n,
            n == configs@.len(),
            configs@.len() == old(configs)@.len(),
            forall|k: int|
                0 <= k < n ==> (#[trigger] configs@[k]) == (if k < i && old(configs)@[k].id@
                    == config.id@ {
                    *config
                } else {
                    old(configs)@[k]
                }),
        decreases n - i,
    {
        if str_eq_opt(configs[i].id.as_str(), config.id.as_str()) {
            let c = clone_ai_config(config);
            configs.set(i, c);
        }
        i += 1;
    }
}

/// Remove the configuration with this id.
pub fn delete_ai_config(configs: &mut Vec<AiConfig>, id: &str)
    ensures
        final(configs)@ == old(configs)@.filter(|c: AiConfig| c.id@ != id@),
{
    let ghost pred = |c: AiConfig| c.id@ != id@;
    let ghost src = configs@;
    let mut kept: Vec<AiConfig> = Vec::new();
    let mut i: usize = 0;
    proof {
        assert(src.take(0).filter(pred) =~= Seq::<AiConfig>::empty()) by {
            reveal(Seq::filter);
        }
    }
    while i < configs.len()
        invariant
            i <= configs@.len(),
            src == configs@,
            pred == (|c: AiConfig| c.id@ != id@),
            kept@ == src.take(i as int).filter(pred),
        decreases configs.len() - i,
    {
        proof {
            src.take(i as int).lemma_filter_push(src[i as int], pred);
            assert(src.take(i + 1) =~= src.take(i as int).push(src[i as int]));
        }
        if !str_eq_opt(configs[i].id.as_str(), id) {
            let c = clone_ai_config(&configs[i]);
            proof {
                assert(c == src[i as int]);
            }
            kept.push(c);
        }
        i += 1;
    }
    proof {
        assert(src.take(src.len() as int) =~= src);
    }
    *configs = kept;
}

/// Make exactly the configuration with this id the default.
pub fn set_default_ai_config(configs: &mut Vec<AiConfig>, id: &str)
    ensures
        final(configs)@.len() == old(configs)@.len(),
        forall|i: int|
            0 <= i < final(configs)@.len() ==> (#[trigger] final(configs)@[i]) == (AiConfig {
                is_default: old(configs)@[i].id@ == id@,
                ..old(configs)@[i]
            }),
{
    let n = configs.len();
    let mut i: usize = 0;
    while i < n
        invariant
            i <= n,
            n == configs@.len(),
            configs@.len() == old(configs)@.len(),
            forall|k: int|
                0 <= k < n ==> (#[trigger] configs@[k]) == (if k < i {
                    (AiConfig { is_default: old(configs)@[k].id@ == id@, ..old(configs)@[k] })
                } else {
                    old(configs)@[k]
                }),
        decreases n - i,
    {
        let make_default = str_eq_opt(configs[i].id.as_str(), id);
        let mut c = clone_ai_config(&configs[i]);
        c.is_default = make_default;
        configs.set(i, c);
        i += 1;
    }
}

// ── TTS plugins ─────────────────────────────────────────────────────────────

/// The wire form of a plugin record.
#[derive(Debug, Clone, PartialEq, Eq)]
pub struct TtsPluginDto {
    pub id: String,
    pub name: String,
    pub plugin_type: String,
    pub config_json: String,
    pub requires_ref: bool,
    pub is_enabled: bool,
    pub sort_order: i32,
    pub created_at: String,
}

/// A plugin record as its wire form.
pub fn to_dto(p: TtsPlugin) -> (r: TtsPluginDto)
    ensures
        r.id == p.id && r.name == p.name && r.plugin_type == p.plugin_type && r.config_json
            == p.config_json && r.requires_ref == p.requires_ref && r.is_enabled == p.is_enabled
            && r.sort_order == p.sort_order && r.created_at == p.created_at,
{
    TtsPluginDto {
        id: p.id,
        name: p.name,
        plugin_type: p.plugin_type,
        config_json: p.config_json,
        requires_ref: p.requires_ref,
        is_enabled: p.is_enabled,
        sort_order: p.sort_order,
        created_at: p.created_at,
    }
}

/// A wire form as a plugin record.
pub fn from_dto(dto: &TtsPluginDto) -> (r: TtsPlugin)
    ensures
        r.id == dto.id && r.name == dto.name && r.plugin_type == dto.plugin_type && r.config_json
            == dto.config_json && r.requires_ref == dto.requires_ref && r.is_enabled
            == dto.is_enabled && r.sort_order == dto.sort_order && r.created_at == dto.created_at,
{
    TtsPlugin {
        id: dto.id.clone(),
        name: dto.name.clone(),
        plugin_type: dto.plugin_type.clone(),
        config_json: dto.config_json.clone(),
        requires_ref: dto.requires_ref,
        is_enabled: dto.is_enabled,
        sort_order: dto.sort_order,
        created_at: dto.created_at.clone(),
    }
}

/// First plugin with this id.
pub open spec fn spec_find_plugin(s: Seq<TtsPlugin>, id: Seq<char>) -> Option<int>
    decreases s.len(),
{
    if s.len() == 0 {
        None
    } else if s[0].id@ == id {
        Some(0)
    } else {
        match spec_find_plugin(s.drop_first(), id) {
            Some(i) => Some(i + 1),
            None => None,
        }
    }
}

/// The plugin with this id, if any.
pub fn get_tts_plugin(plugins: &Vec<TtsPlugin>, id: &str) -> (r: Option<TtsPlugin>)
    ensures
        match r {
            Some(p) => (spec_find_plugin(plugins@, id@) matches Some(i) && plugins@[i] == p),
            None => spec_find_plugin(plugins@, id@) is None,
        },
{
    let n = plugins.len();
    proof {
        assert(plugins@.skip(0) =~= plugins@);
    }
    let mut i: usize = 0;
    while i < n
        invariant
            i <= n,
            n == plugins@.len(),
            (spec_find_plugin(plugins@, id@) is None <==> spec_find_plugin(
                plugins@.skip(i as int),
                id@,
            ) is None),
            spec_find_plugin(plugins@.skip(i as int), id@) matches Some(j) ==> spec_find_plugin(
                plugins@,
                id@,
            ) == Some(j + i),
        decreases n - i,
    {
        proof {
            assert(plugins@.skip(i as int)[0] == plugins@[i as int]);
            assert(plugins@.skip(i as int).drop_first() =~= plugins@.skip(i + 1));
        }
        if str_eq_opt(plugins[i].id.as_str(), id) {
            let p = clone_plugin(&plugins[i]);
            return Some(p);
        }
        i += 1;
    }
    assert(plugins@.skip(n as int) =~= Seq::<TtsPlugin>::empty());
    None
}

fn clone_plugin(p: &TtsPlugin) -> (r: TtsPlugin)
    ensures
        r == *p,
{
    TtsPlugin {
        id: p.id.clone(),
        name: p.name.clone(),
        plugin_type: p.plugin_type.clone(),
        config_json: p.config_json.clone(),
        requires_ref: p.requires_ref,
        is_enabled: p.is_enabled,
        sort_order: p.sort_order,
        created_at: p.created_at.clone(),
    }
}

/// Add a plugin record.
pub fn create_tts_plugin(plugins: &mut Vec<TtsPlugin>, plugin: &TtsPlugin)
    ensures
        final(plugins)@ == old(plugins)@.push(*plugin),
{
    let p = clone_plugin(plugin);
    plugins.push(p);
}

/// Replace the plugin with this id; an unknown id changes nothing.
pub fn update_tts_plugin(plugins: &mut Vec<TtsPlugin>, plugin: &TtsPlugin)
    ensures
        final(plugins)@.len() == old(plugins)@.len(),
        forall|i: int|
            0 <= i < final(plugins)@.len() ==> (#[trigger] final(plugins)@[i]) == (
            if old(plugins)@[i].id@ == plugin.id@ {
                *plugin
            } else {
                old(plugins)@[i]
            }),
{
    let n = plugins.len();
    let mut i: usize = 0;
    while i < n
        invariant
            i <= n,
            n == plugins@.len(),
            plugins@.len() == old(plugins)@.len(),
            forall|k: int|
                0 <= k < n ==> (#[trigger] plugins@[k]) == (if k < i && old(plugins)@[k].id@
                    == plugin.id@ {
                    *plugin
                } else {
                    old(plugins)@[k]
                }),
        decreases n - i,
    {
        if str_eq_opt(plugins[i].id.as_str(), plugin.id.as_str()) {
            let p = clone_plugin(plugin);
            plugins.set(i, p);
        }
        i += 1;
    }
}

/// Remove the plugin with this id.
pub fn delete_tts_plugin(plugins: &mut Vec<TtsPlugin>, id: &str)
    ensures
        final(plugins)@ == old(plugins)@.filter(|p: TtsPlugin| p.id@ != id@),
{
    let ghost pred = |p: TtsPlugin| p.id@ != id@;
    let ghost src = plugins@;
    let mut kept: Vec<TtsPlugin> = Vec::new();
    let mut i: usize = 0;
    proof {
        assert(src.take(0).filter(pred) =~= Seq::<TtsPlugin>::empty()) by {
            reveal(Seq::filter);
        }
    }
    while i < plugins.len()
        invariant
            i <= plugins@.len(),
            src == plugins@,
            pred == (|p: TtsPlugin| p.id@ != id@),
            kept@ == src.take(i as int).filter(pred),
        decreases plugins.len() - i,
    {
        proof {
            src.take(i as int).lemma_filter_push(src[i as int], pred);
            assert(src.take(i + 1) =~= src.take(i as int).push(src[i as int]));
        }
        if !str_eq_opt(plugins[i].id.as_str(), id) {
            let p = clone_plugin(&plugins[i]);
            proof {
                assert(p == src[i as int]);
            }
            kept.push(p);
        }
        i += 1;
    }
    proof {
        assert(src.take(src.len() as int) =~= src);
    }
    *plugins = kept;
}

/// Build the provider a plugin record describes: the built-in provider
/// with its configured voice, a Gradio provider with its endpoint (which
/// must be configured), or a REST provider with its configured keys and
/// conventional defaults (a validation error on an unparsable
/// configuration). An unknown type is a configuration error.
pub fn build_provider(plugin: &TtsPlugin) -> (r: Result<TtsProviderImpl, DubError>)
    ensures
        plugin.plugin_type@ == "ncn"@ ==> (r matches Ok(p) && p matches TtsProviderImpl::Ncn(q)
            && q.voice_id@ == crate::tts::spec_field_or(plugin.config_json@, "voiceId"@, ""@)),
        plugin.plugin_type@ == "gradio"@ ==> (match r {
            Ok(p) => (p matches TtsProviderImpl::Gradio(g) && json_str_field_of(
                plugin.config_json@,
                "endpoint"@,
            ) == Some(g.endpoint@)),
            Err(e) => e is ConfigMissing && json_str_field_of(
                plugin.config_json@,
                "endpoint"@,
            ) is None,
        }),
        plugin.plugin_type@ == "http_rest"@ ==> (match r {
            Ok(p) => (p matches TtsProviderImpl::HttpRest(h) && crate::tts::spec_rest_config_matches(
                h,
                plugin.config_json@,
                plugin.requires_ref,
            )),
            Err(e) => e is Validation && !json_valid_of(plugin.config_json@),
        }),
        (plugin.plugin_type@ != "ncn"@ && plugin.plugin_type@ != "gradio"@ && plugin.plugin_type@
            != "http_rest"@) ==> (r matches Err(e) && e is ConfigMissing),
{
    proof {
        reveal_strlit("ncn");
        reveal_strlit("gradio");
        reveal_strlit("http_rest");
        assert("ncn"@.len() == 3 && "gradio"@.len() == 6 && "http_rest"@.len() == 9);
    }
    if str_eq_opt(plugin.plugin_type.as_str(), "ncn") {
        let voice = match json_str_field(plugin.config_json.as_str(), "voiceId") {
            Some(v) => v,
            None => String::from_str(""),
        };
        Ok(TtsProviderImpl::Ncn(NcnProvider::new(voice)))
    } else if str_eq_opt(plugin.plugin_type.as_str(), "gradio") {
        match json_str_field(plugin.config_json.as_str(), "endpoint") {
            Some(endpoint) => Ok(TtsProviderImpl::Gradio(GradioProvider::new(endpoint))),
            None => Err(
                DubError::ConfigMissing {
                    detail: String::from_str("the plugin configures no endpoint"),
                },
            ),
        }
    } else if str_eq_opt(plugin.plugin_type.as_str(), "http_rest") {
        match HttpRestProvider::from_json(plugin.config_json.as_str(), plugin.requires_ref) {
            Ok(provider) => Ok(TtsProviderImpl::HttpRest(provider)),
            Err(e) => Err(e),
        }
    } else {
        Err(DubError::ConfigMissing { detail: String::from_str("unknown plugin type") })
    }
}

// ── Workbench bookkeeping ───────────────────────────────────────────────────

/// The transcription step record of a workbench task.
#[derive(Debug, Clone, PartialEq, Eq)]
pub struct WorkbenchStepTranscribe {
    pub task_id: String,
    pub config_json: String,
    pub subtitles_path: Option<String>,
    pub subtitle_count: i32,
    pub completed_at: Option<String>,
}

/// The translation step record of a workbench task.
#[derive(Debug, Clone, PartialEq, Eq)]
pub struct WorkbenchStepTranslate {
    pub task_id: String,
    pub config_json: String,
    pub translated_subtitles_path: Option<String>,
    pub subtitle_count: i32,
    pub completed_at: Option<String>,
}

/// A workbench task row; the video duration in integer milliseconds.
#[derive(Debug, Clone, PartialEq, Eq)]
pub struct WorkbenchTask {
    pub id: String,
    pub name: String,
    pub project_dir: String,
    pub video_path: String,
    pub video_name: String,
    pub video_size: i64,
    pub video_duration_ms: i64,
    pub video_width: i32,
    pub video_height: i32,
    pub current_step: i32,
    pub step_statuses: String,
    pub source_language: String,
    pub target_language: String,
    pub status: String,
    pub created_at: String,
    pub updated_at: String,
}

/// First task with this id.
pub open spec fn spec_find_task(s: Seq<WorkbenchTask>, id: Seq<char>) -> Option<int>
    decreases s.len(),
{
    if s.len() == 0 {
        None
    } else if s[0].id@ == id {
        Some(0)
    } else {
        match spec_find_task(s.drop_first(), id) {
            Some(i) => Some(i + 1),
            None => None,
        }
    }
}

fn clone_task(t: &WorkbenchTask) -> (r: WorkbenchTask)
    ensures
        r == *t,
{
    WorkbenchTask {
        id: t.id.clone(),
        name: t.name.clone(),
        project_dir: t.project_dir.clone(),
        video_path: t.video_path.clone(),
        video_name: t.video_name.clone(),
        video_size: t.video_size,
        video_duration_ms: t.video_duration_ms,
        video_width: t.video_width,
        video_height: t.video_height,
        current_step: t.current_step,
        step_statuses: t.step_statuses.clone(),
        source_language: t.source_language.clone(),
        target_language: t.target_language.clone(),
        status: t.status.clone(),
        created_at: t.created_at.clone(),
        updated_at: t.updated_at.clone(),
    }
}

/// Add a task row.
pub fn create_workbench_task(tasks: &mut Vec<WorkbenchTask>, task: &WorkbenchTask)
    ensures
        final(tasks)@ == old(tasks)@.push(*task),
{
    let t = clone_task(task);
    tasks.push(t);
}

/// Update a task's progress fields, stamping the update instant; an
/// unknown id changes nothing.
pub fn update_workbench_task_progress(
    tasks: &mut Vec<WorkbenchTask>,
    id: &str,
    current_step: i32,
    step_statuses: &str,
    source_language: &str,
    target_language: &str,
    status: &str,
    now: &str,
)
    ensures
        final(tasks)@.len() == old(tasks)@.len(),
        forall|i: int|
            0 <= i < final(tasks)@.len() && old(tasks)@[i].id@ != id@ ==> (#[trigger] final(tasks)@[i]) == old(tasks)@[i],
        forall|i: int|
            0 <= i < final(tasks)@.len() && old(tasks)@[i].id@ == id@ ==> ({
                let row = (#[trigger] final(tasks)@[i]);
                &&& row.current_step == current_step
                &&& row.step_statuses@ == step_statuses@
                &&& row.source_language@ == source_language@
                &&& row.target_language@ == target_language@
                &&& row.status@ == status@
                &&& row.updated_at@ == now@
                &&& row == (WorkbenchTask {
                    current_step: row.current_step,
                    step_statuses: row.step_statuses,
                    source_language: row.source_language,
                    target_language: row.target_language,
                    status: row.status,
                    updated_at: row.updated_at,
                    ..old(tasks)@[i]
                })
            }),
{
    let n = tasks.len();
    let mut i: usize = 0;
    while i < n
        invariant
            i <= n,
            n == tasks@.len(),
            tasks@.len() == old(tasks)@.len(),
            forall|k: int|
                0 <= k < n && !(k < i && old(tasks)@[k].id@ == id@) ==> (#[trigger] tasks@[k])
                    == old(tasks)@[k],
            forall|k: int|
                0 <= k < i && old(tasks)@[k].id@ == id@ ==> ({
                    let row = (#[trigger] tasks@[k]);
                    &&& row.current_step == current_step
                    &&& row.step_statuses@ == step_statuses@
                    &&& row.source_language@ == source_language@
                    &&& row.target_language@ == target_language@
                    &&& row.status@ == status@
                    &&& row.updated_at@ == now@
                    &&& row == (WorkbenchTask {
                        current_step: row.current_step,
                        step_statuses: row.step_statuses,
                        source_language: row.source_language,
                        target_language: row.target_language,
                        status: row.status,
                        updated_at: row.updated_at,
                        ..old(tasks)@[k]
                    })
                }),
        decreases n - i,
    {
        if str_eq_opt(tasks[i].id.as_str(), id) {
            let prev = &tasks[i];
            let row = WorkbenchTask {
                id: prev.id.clone(),
                name: prev.name.clone(),
                project_dir: prev.project_dir.clone(),
                video_path: prev.video_path.clone(),
                video_name: prev.video_name.clone(),
                video_size: prev.video_size,
                video_duration_ms: prev.video_duration_ms,
                video_width: prev.video_width,
                video_height: prev.video_height,
                current_step,
                step_statuses: String::from_str(step_statuses),
                source_language: String::from_str(source_language),
                target_language: String::from_str(target_language),
                status: String::from_str(status),
                created_at: prev.created_at.clone(),
                updated_at: String::from_str(now),
            };
            tasks.set(i, row);
        }
        i += 1;
    }
}

/// Remove the task with this id.
pub fn delete_workbench_task(tasks: &mut Vec<WorkbenchTask>, id: &str)
    ensures
        final(tasks)@ == old(tasks)@.filter(|t: WorkbenchTask| t.id@ != id@),
{
    let ghost pred = |t: WorkbenchTask| t.id@ != id@;
    let ghost src = tasks@;
    let mut kept: Vec<WorkbenchTask> = Vec::new();
    let mut i: usize = 0;
    proof {
        assert(src.take(0).filter(pred) =~= Seq::<WorkbenchTask>::empty()) by {
            reveal(Seq::filter);
        }
    }
    while i < tasks.len()
        invariant
            i <= tasks@.len(),
            src == tasks@,
            pred == (|t: WorkbenchTask| t.id@ != id@),
            kept@ == src.take(i as int).filter(pred),
        decreases tasks.len() - i,
    {
        proof {
            src.take(i as int).lemma_filter_push(src[i as int], pred);
            assert(src.take(i + 1) =~= src.take(i as int).push(src[i as int]));
        }
        if !str_eq_opt(tasks[i].id.as_str(), id) {
            let t = clone_task(&tasks[i]);
            proof {
                assert(t == src[i as int]);
            }
            kept.push(t);
        }
        i += 1;
    }
    proof {
        assert(src.take(src.len() as int) =~= src);
    }
    *tasks = kept;
}

/// The position of the last `.` in `s` (unspecified without one).
pub open spec fn spec_last_dot(s: Seq<char>) -> int {
    choose|i: int|
        0 <= i < s.len() && s[i] == '.' && (forall|k: int| i < k < s.len() ==> s[k] != '.')
}

/// A task's display name: the video file name cut at its last dot; the
/// whole name when it has no dot.
pub fn task_name_from_video(video_name: &str) -> (r: String)
    ensures
        (exists|i: int| 0 <= i < video_name@.len() && video_name@[i] == '.') ==> r@
            == video_name@.take(spec_last_dot(video_name@)),
        !(exists|i: int| 0 <= i < video_name@.len() && video_name@[i] == '.') ==> r@
            == video_name@,
{
    let chars = crate::chars::chars_of_str(video_name);
    match crate::chars::rfind_char(&chars, '.') {
        Some(d) => {
            proof {
                lemma_last_dot_is(video_name@, d as int);
            }
            let mut out: Vec<char> = Vec::new();
            crate::chars::push_range(&mut out, &chars, 0, d);
            proof {
                assert(out@ =~= video_name@.take(d as int));
            }
            crate::chars::string_from_chars(&out)
        },
        None => String::from_str(video_name),
    }
}

/// A dot position with no later dot is the last one.
proof fn lemma_last_dot_is(s: Seq<char>, d: int)
    requires
        0 <= d < s.len(),
        s[d] == '.',
        forall|k: int| d < k < s.len() ==> s[k] != '.',
    ensures
        spec_last_dot(s) == d,
{
    let w = spec_last_dot(s);
    assert(0 <= w < s.len() && s[w] == '.' && (forall|k: int| w < k < s.len() ==> s[k] != '.'));
    if w < d {
        assert(s[d] != '.');
    }
    if d < w {
        assert(s[w] != '.');
    }
}

} // verus!
