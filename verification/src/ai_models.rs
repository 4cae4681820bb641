//! The models of conversations: which one is configured, and which can be chosen.
use crate::exchange;
use crate::exchange::{
    Action, ActionView, Reply, ReplyView, Response, ResponseView, Settings, SettingsView, Step,
    StepView,
};
use crate::fields;
use crate::ids;
use crate::json;
use crate::json::{Json, JsonView};
use crate::projects;
use crate::store;
use crate::text;
use vstd::prelude::*;

verus! {

pub const DEFAULT_AI_MODEL: &'static str = "gpt-5";

pub const DEFAULT_AI_REASONING_EFFORT: &'static str = "medium";

/// The text that stands under a key at the top of a TOML document, as `toml` reads it; `None` where
/// the text is no such document or has no text under the key.
pub uninterp spec fn toml_text_entry(raw: Seq<char>, key: Seq<char>) -> Option<Seq<char>>;

/// `toml::Value`'s `FromStr`, and of the value that it reads `get` and `as_str`: the text under a
/// key. What TOML is made of is left to the name of the result.
#[verifier::external_body]
fn read_toml_text(raw: &str, key: &str) -> (r: Option<String>)
    ensures
        r.deep_view() == toml_text_entry(raw@, key@),
{
    raw.parse::<toml::Value>().ok()?.get(key)?.as_str().map(str::to_owned)
}

/// A text that holds more than white space.
pub open spec fn nonblank(s: Option<Seq<char>>) -> Option<Seq<char>> {
    match s {
        Some(s) => if text::trimmed(s).len() == 0 {
            None
        } else {
            Some(s)
        },
        None => None,
    }
}

/// A setting: what the configuration says, without the white space around it; else what the
/// environment says; else a default.
pub open spec fn setting(
    environment: Option<Seq<char>>,
    configured: Option<Seq<char>>,
    default: Seq<char>,
) -> Seq<char> {
    match nonblank(configured) {
        Some(s) => text::trimmed(s),
        None => match nonblank(environment) {
            Some(s) => s,
            None => default,
        },
    }
}

/// Chooses a setting.
pub fn choose_setting(
    environment: Option<&String>,
    configured: Option<&String>,
    default: &str,
) -> (r: String)
    ensures
        r@ == setting(environment.deep_view(), configured.deep_view(), default@),
{
    match configured {
        Some(s) => {
            let trimmed = text::trim(s);
            if !trimmed.as_str().is_empty() {
                return trimmed;
            }
        },
        None => {},
    }
    match environment {
        Some(s) => if !text::trim(s).as_str().is_empty() {
            return s.clone();
        },
        None => {},
    }
    default.to_owned()
}

/// The text under a key of a configuration, where there is a configuration.
pub open spec fn config_entry(config: Option<Seq<char>>, key: Seq<char>) -> Option<Seq<char>> {
    match config {
        Some(raw) => toml_text_entry(raw, key),
        None => None,
    }
}

fn read_config_entry(config: &Option<String>, key: &str) -> (r: Option<String>)
    ensures
        r.deep_view() == config_entry(config.deep_view(), key@),
{
    match config {
        Some(raw) => read_toml_text(raw, key),
        None => None,
    }
}

/// The model and the reasoning effort that settings name.
pub open spec fn configured(settings: SettingsView) -> (Seq<char>, Seq<char>) {
    (
        setting(settings.model, config_entry(settings.config, "model"@), DEFAULT_AI_MODEL@),
        setting(
            settings.effort,
            config_entry(settings.config, "model_reasoning_effort"@),
            DEFAULT_AI_REASONING_EFFORT@,
        ),
    )
}

/// Tells which model and which reasoning effort are configured.
pub fn configured_ai_model(settings: &Settings) -> (r: (String, String))
    ensures
        (r.0@, r.1@) == configured(settings@),
{
    let model = read_config_entry(&settings.config, "model");
    let effort = read_config_entry(&settings.config, "model_reasoning_effort");
    (
        choose_setting(settings.model.as_ref(), model.as_ref(), DEFAULT_AI_MODEL),
        choose_setting(settings.effort.as_ref(), effort.as_ref(), DEFAULT_AI_REASONING_EFFORT),
    )
}

/// The configured model and reasoning effort, the reply at `at`.
pub open spec fn configured_at(replies: Seq<ReplyView>, at: int) -> Result<
    (Seq<char>, Seq<char>),
    StepView,
> {
    if at >= replies.len() {
        Err(StepView::Ask(ActionView::ReadSettings))
    } else {
        match replies[at] {
            ReplyView::Settings(s) => Ok(configured(s)),
            other => Err(exchange::unusable(other)),
        }
    }
}

/// Reads which model and which reasoning effort are configured.
pub fn read_configured(replies: &Vec<Reply>, at: usize) -> (r: Result<(String, String), Step>)
    ensures
        exchange::agrees(r, configured_at(replies.deep_view(), at as int)),
{
    if at >= replies.len() {
        return Err(Step::Ask(Action::ReadSettings));
    }
    match &replies[at] {
        Reply::Settings(s) => Ok(configured_ai_model(s)),
        other => Err(exchange::refuse(other)),
    }
}

/// The reasoning efforts that every model is offered with.
pub open spec fn known_efforts() -> Seq<Seq<char>> {
    Seq::empty().push("minimal"@).push("low"@).push("medium"@).push("high"@).push("xhigh"@)
}

/// The reasoning efforts that a model is offered with: the known ones, and its own where it is none
/// of them.
pub open spec fn efforts(own: Seq<char>) -> Seq<Seq<char>> {
    if known_efforts().contains(own) {
        known_efforts()
    } else {
        known_efforts().push(own)
    }
}

/// Texts as an array.
pub open spec fn texts_value(texts: Seq<Seq<char>>) -> JsonView {
    JsonView::Array(texts.map_values(|s: Seq<char>| JsonView::Text(s)))
}

fn make_texts(texts: &Vec<String>) -> (r: Json)
    ensures
        r@ == texts_value(texts.deep_view()),
{
    let ghost all = texts.deep_view().map_values(|s: Seq<char>| JsonView::Text(s));
    let mut items: Vec<Json> = json::none();
    let mut i: usize = 0;
    proof {
        assert(all.take(0) =~= Seq::empty());
    }
    while i < texts.len()
        invariant
            all == texts.deep_view().map_values(|s: Seq<char>| JsonView::Text(s)),
            i <= texts@.len(),
            items.deep_view() == all.take(i as int),
        decreases texts.len() - i,
    {
        json::put(&mut items, Json::Text(texts[i].clone()));
        proof {
            assert(all.take(i + 1) =~= all.take(i as int).push(all[i as int]));
        }
        i = i + 1;
    }
    proof {
        assert(all.take(i as int) =~= all);
    }
    json::array(items)
}

fn make_efforts(own: &str) -> (r: Vec<String>)
    ensures
        r.deep_view() == efforts(own@),
{
    let mut known: Vec<String> = json::none();
    json::put(&mut known, "minimal".to_owned());
    json::put(&mut known, "low".to_owned());
    json::put(&mut known, "medium".to_owned());
    json::put(&mut known, "high".to_owned());
    json::put(&mut known, "xhigh".to_owned());
    if !fields::has_text(&known, own) {
        json::put(&mut known, own.to_owned());
    }
    known
}

/// A model as it is offered.
pub open spec fn catalog_model(slug: Seq<char>, effort: Seq<char>) -> JsonView {
    JsonView::Object(
        json::members().push(("slug"@, JsonView::Text(slug))).push(
            ("displayName"@, JsonView::Text(slug)),
        ).push(("description"@, JsonView::Text(Seq::empty()))).push(
            ("defaultReasoningEffort"@, JsonView::Text(effort)),
        ).push(("supportedReasoningEfforts"@, texts_value(efforts(effort)))).push(
            ("serviceTiers"@, JsonView::Array(Seq::empty())),
        ),
    )
}

/// Shows a model as it is offered.
pub fn ai_catalog_model(slug: &str, effort: &str) -> (r: Json)
    ensures
        r@ == catalog_model(slug@, effort@),
{
    let mut members = json::no_members();
    json::member(&mut members, "slug", json::text_value(slug));
    json::member(&mut members, "displayName", json::text_value(slug));
    json::member(&mut members, "description", Json::Text(String::new()));
    json::member(&mut members, "defaultReasoningEffort", json::text_value(effort));
    json::member(&mut members, "supportedReasoningEfforts", make_texts(&make_efforts(effort)));
    json::member(&mut members, "serviceTiers", json::array(json::none()));
    json::object(members)
}

/// The models that are offered: the configured one, and the default one where it is another.
pub open spec fn catalog_models(model: Seq<char>, effort: Seq<char>) -> Seq<JsonView> {
    let own = Seq::empty().push(catalog_model(model, effort));
    if model == DEFAULT_AI_MODEL@ {
        own
    } else {
        own.push(catalog_model(DEFAULT_AI_MODEL@, DEFAULT_AI_REASONING_EFFORT@))
    }
}

/// Shows the models that are offered.
pub fn ai_catalog_models(model: &str, effort: &str) -> (r: Vec<Json>)
    ensures
        r.deep_view() == catalog_models(model@, effort@),
{
    let mut models: Vec<Json> = json::none();
    json::put(&mut models, ai_catalog_model(model, effort));
    if !text::same(model, DEFAULT_AI_MODEL) {
        json::put(&mut models, ai_catalog_model(DEFAULT_AI_MODEL, DEFAULT_AI_REASONING_EFFORT));
    }
    models
}

/// The sandboxes that a conversation can run in.
pub open spec fn sandboxes() -> Seq<Seq<char>> {
    Seq::empty().push("read-only"@).push("workspace-write"@).push("danger-full-access"@)
}

/// Whether a text names a sandbox.
pub open spec fn is_sandbox(s: Seq<char>) -> bool {
    s == "read-only"@ || s == "workspace-write"@ || s == "danger-full-access"@
}

/// Tells whether a text names a sandbox.
pub fn is_ai_sandbox(value: &str) -> (r: bool)
    ensures
        r == is_sandbox(value@),
{
    text::same(value, "read-only") || text::same(value, "workspace-write") || text::same(
        value,
        "danger-full-access",
    )
}

/// Where a conversation about a project works.
pub struct AiWorkspace {
    pub project_id: String,
    pub project_name: String,
    pub workspace_path: String,
}

pub struct AiWorkspaceView {
    pub project_id: Seq<char>,
    pub project_name: Seq<char>,
    pub workspace_path: Seq<char>,
}

impl View for AiWorkspace {
    type V = AiWorkspaceView;

    open spec fn view(&self) -> AiWorkspaceView {
        AiWorkspaceView {
            project_id: self.project_id@,
            project_name: self.project_name@,
            workspace_path: self.workspace_path@,
        }
    }
}

impl DeepView for AiWorkspace {
    type V = AiWorkspaceView;

    open spec fn deep_view(&self) -> AiWorkspaceView {
        self@
    }
}

/// Where a conversation about a project works: its path is empty where the project has none.
pub open spec fn workspace_of(project: JsonView) -> Result<AiWorkspaceView, Seq<char>> {
    match fields::member_text(project, "id"@) {
        Err(m) => Err(m),
        Ok(project_id) => match fields::member_text(project, "name"@) {
            Err(m) => Err(m),
            Ok(project_name) => Ok(
                AiWorkspaceView {
                    project_id,
                    project_name,
                    workspace_path: match nonblank(json::text_field(project, "workspacePath"@)) {
                        Some(s) => s,
                        None => Seq::empty(),
                    },
                },
            ),
        },
    }
}

fn read_workspace(project: &Json) -> (r: Result<AiWorkspace, String>)
    ensures
        exchange::says(r, workspace_of(project@)),
{
    let workspace_path = match project.text("workspacePath") {
        Some(s) => if text::trim(s).as_str().is_empty() {
            String::new()
        } else {
            s.clone()
        },
        None => String::new(),
    };
    let project_id = fields::value_string(project, "id")?;
    let project_name = fields::value_string(project, "name")?;
    Ok(AiWorkspace { project_id, project_name, workspace_path })
}

/// That a project has no directory on this machine.
pub open spec fn workspace_unavailable() -> ResponseView {
    exchange::refusal(
        409,
        "PROJECT_WORKSPACE_UNAVAILABLE"@,
        "Project has no available device workspace"@,
    )
}

/// Where a conversation about a project works, which must be a directory; the first two replies.
pub open spec fn workspace_at(replies: Seq<ReplyView>, project_id: Seq<char>) -> Result<
    AiWorkspaceView,
    StepView,
> {
    if !ids::project_id_form(project_id) {
        Err(
            StepView::Answer(exchange::refusal(400, "INVALID_FIELD"@, "Project id is invalid"@)),
        )
    } else {
        match projects::project_at(replies, 0, project_id, false) {
            Err(s) => Err(s),
            Ok(None) => Err(StepView::Answer(projects::project_not_found())),
            Ok(Some(project)) => match workspace_of(project) {
                Err(m) => Err(StepView::Fail(m)),
                Ok(workspace) => match exchange::flag_at(
                    replies,
                    1,
                    ActionView::IsDirectory(workspace.workspace_path),
                ) {
                    Err(s) => Err(s),
                    Ok(false) => Err(StepView::Answer(workspace_unavailable())),
                    Ok(true) => Ok(workspace),
                },
            },
        }
    }
}

/// Finds where a conversation about a project works.
pub fn resolve_ai_workspace(replies: &Vec<Reply>, project_id: &str) -> (r: Result<
    AiWorkspace,
    Step,
>)
    ensures
        exchange::agrees(r, workspace_at(replies.deep_view(), project_id@)),
        r is Ok ==> replies@.len() >= 2,
{
    if !ids::is_project_id(project_id) {
        return Err(
            Step::Answer(exchange::api_error(400, "INVALID_FIELD", "Project id is invalid")),
        );
    }
    let project = match projects::get_project(replies, 0, project_id)? {
        Some(project) => project,
        None => {
            return Err(Step::Answer(projects::no_project()));
        },
    };
    let workspace = store::lift(read_workspace(&project))?;
    if !exchange::flag(replies, 1, Action::IsDirectory(workspace.workspace_path.clone()))? {
        return Err(
            Step::Answer(
                exchange::api_error(
                    409,
                    "PROJECT_WORKSPACE_UNAVAILABLE",
                    "Project has no available device workspace",
                ),
            ),
        );
    }
    Ok(workspace)
}

/// How the catalog of models, skills and sandboxes of a project is answered.
pub open spec fn catalog_shown(replies: Seq<ReplyView>, project_id: Seq<char>) -> Result<
    ResponseView,
    StepView,
> {
    match workspace_at(replies, project_id) {
        Err(s) => Err(s),
        Ok(_) => match configured_at(replies, 2) {
            Err(s) => Err(s),
            Ok((model, effort)) => Ok(
                ResponseView::Json(
                    200,
                    JsonView::Object(
                        json::members().push(
                            ("models"@, JsonView::Array(catalog_models(model, effort))),
                        ).push(("skills"@, JsonView::Array(Seq::empty()))).push(
                            ("sandboxes"@, texts_value(sandboxes())),
                        ),
                    ),
                ),
            ),
        },
    }
}

/// Answers with the catalog of models, skills and sandboxes.
pub fn ai_chat_catalog(replies: &Vec<Reply>, project_id: &str) -> (r: Result<Response, Step>)
    ensures
        exchange::agrees(r, catalog_shown(replies.deep_view(), project_id@)),
{
    let _ = resolve_ai_workspace(replies, project_id)?;
    let (model, effort) = read_configured(replies, 2)?;
    let mut names: Vec<String> = json::none();
    json::put(&mut names, "read-only".to_owned());
    json::put(&mut names, "workspace-write".to_owned());
    json::put(&mut names, "danger-full-access".to_owned());
    let mut members = json::no_members();
    json::member(&mut members, "models", json::array(ai_catalog_models(&model, &effort)));
    json::member(&mut members, "skills", json::array(json::none()));
    json::member(&mut members, "sandboxes", make_texts(&names));
    Ok(Response::Json(200, json::object(members)))
}

/// The reasoning effort that a model is offered with by default is among those that it supports.
pub proof fn law_own_effort_is_supported(effort: Seq<char>)
    ensures
        efforts(effort).contains(effort),
{
    if !known_efforts().contains(effort) {
        let all = efforts(effort);
        assert(all[all.len() - 1] == effort);
    }
}

} // verus!
