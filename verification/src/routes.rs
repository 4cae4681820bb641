//! What a request asks for, by its method and its path.
use crate::exchange;
use crate::exchange::{Response, ResponseView};
use crate::json;
use crate::json::{Json, JsonView};
use crate::relations;
use crate::request;
use crate::request::{HttpRequest, RequestView};
use crate::text;
use vstd::prelude::*;

verus! {

/// What is asked of the store, with the identifiers that stand in the path.
pub enum Call {
    ListProjects,
    CreateProject,
    ArchiveProject(String),
    DeleteProject(String),
    ShowWorkflow(String),
    SaveWorkflow(String),
    ListTasks,
    CreateTask,
    ShowTask(String),
    UpdateTask(String),
    MoveTask(String),
    ArchiveTask(String),
    RestoreTask(String),
    DeleteTask(String),
    AddRelation(String, String, String),
    RemoveRelation(String, String, String),
    ListComments(String),
    CreateComment(String),
    UpdateComment(String),
    DeleteComment(String),
    ListTaskAttachments(String),
    AttachToTask(String),
    ListCommentAttachments(String),
    AttachToComment(String),
    SendAttachment(String),
    DeleteAttachment(String),
    ShowCatalog(String),
    ListThreads,
    CreateThread,
    ShowThread(String),
    UpdateThread(String),
    DeleteThread(String),
    OpenStream(String),
    StartTurn(String),
    InterruptRun(String),
    /// Nothing: the request fails with a message.
    Fail(String),
}

pub enum CallView {
    ListProjects,
    CreateProject,
    ArchiveProject(Seq<char>),
    DeleteProject(Seq<char>),
    ShowWorkflow(Seq<char>),
    SaveWorkflow(Seq<char>),
    ListTasks,
    CreateTask,
    ShowTask(Seq<char>),
    UpdateTask(Seq<char>),
    MoveTask(Seq<char>),
    ArchiveTask(Seq<char>),
    RestoreTask(Seq<char>),
    DeleteTask(Seq<char>),
    AddRelation(Seq<char>, Seq<char>, Seq<char>),
    RemoveRelation(Seq<char>, Seq<char>, Seq<char>),
    ListComments(Seq<char>),
    CreateComment(Seq<char>),
    UpdateComment(Seq<char>),
    DeleteComment(Seq<char>),
    ListTaskAttachments(Seq<char>),
    AttachToTask(Seq<char>),
    ListCommentAttachments(Seq<char>),
    AttachToComment(Seq<char>),
    SendAttachment(Seq<char>),
    DeleteAttachment(Seq<char>),
    ShowCatalog(Seq<char>),
    ListThreads,
    CreateThread,
    ShowThread(Seq<char>),
    UpdateThread(Seq<char>),
    DeleteThread(Seq<char>),
    OpenStream(Seq<char>),
    StartTurn(Seq<char>),
    InterruptRun(Seq<char>),
    Fail(Seq<char>),
}

impl View for Call {
    type V = CallView;

    open spec fn view(&self) -> CallView {
        match self {
            Call::ListProjects => CallView::ListProjects,
            Call::CreateProject => CallView::CreateProject,
            Call::ArchiveProject(id) => CallView::ArchiveProject(id@),
            Call::DeleteProject(id) => CallView::DeleteProject(id@),
            Call::ShowWorkflow(id) => CallView::ShowWorkflow(id@),
            Call::SaveWorkflow(id) => CallView::SaveWorkflow(id@),
            Call::ListTasks => CallView::ListTasks,
            Call::CreateTask => CallView::CreateTask,
            Call::ShowTask(id) => CallView::ShowTask(id@),
            Call::UpdateTask(id) => CallView::UpdateTask(id@),
            Call::MoveTask(id) => CallView::MoveTask(id@),
            Call::ArchiveTask(id) => CallView::ArchiveTask(id@),
            Call::RestoreTask(id) => CallView::RestoreTask(id@),
            Call::DeleteTask(id) => CallView::DeleteTask(id@),
            Call::AddRelation(a, b, c) => CallView::AddRelation(a@, b@, c@),
            Call::RemoveRelation(a, b, c) => CallView::RemoveRelation(a@, b@, c@),
            Call::ListComments(id) => CallView::ListComments(id@),
            Call::CreateComment(id) => CallView::CreateComment(id@),
            Call::UpdateComment(id) => CallView::UpdateComment(id@),
            Call::DeleteComment(id) => CallView::DeleteComment(id@),
            Call::ListTaskAttachments(id) => CallView::ListTaskAttachments(id@),
            Call::AttachToTask(id) => CallView::AttachToTask(id@),
            Call::ListCommentAttachments(id) => CallView::ListCommentAttachments(id@),
            Call::AttachToComment(id) => CallView::AttachToComment(id@),
            Call::SendAttachment(id) => CallView::SendAttachment(id@),
            Call::DeleteAttachment(id) => CallView::DeleteAttachment(id@),
            Call::ShowCatalog(id) => CallView::ShowCatalog(id@),
            Call::ListThreads => CallView::ListThreads,
            Call::CreateThread => CallView::CreateThread,
            Call::ShowThread(id) => CallView::ShowThread(id@),
            Call::UpdateThread(id) => CallView::UpdateThread(id@),
            Call::DeleteThread(id) => CallView::DeleteThread(id@),
            Call::OpenStream(id) => CallView::OpenStream(id@),
            Call::StartTurn(id) => CallView::StartTurn(id@),
            Call::InterruptRun(id) => CallView::InterruptRun(id@),
            Call::Fail(m) => CallView::Fail(m@),
        }
    }
}

/// Where a request leads: to an answer that is known at once, to a file of the page, or to the
/// store.
pub enum Route {
    Answer(Response),
    Page,
    Store(Call),
}

pub enum RouteView {
    Answer(ResponseView),
    Page,
    Store(CallView),
}

impl View for Route {
    type V = RouteView;

    open spec fn view(&self) -> RouteView {
        match self {
            Route::Answer(r) => RouteView::Answer(r@),
            Route::Page => RouteView::Page,
            Route::Store(c) => RouteView::Store(c@),
        }
    }
}

impl DeepView for Route {
    type V = RouteView;

    open spec fn deep_view(&self) -> RouteView {
        self@
    }
}

/// The message of a method that a path does not take.
pub const NOT_ALLOWED: &'static str = "method not allowed";

/// The message of a body that is not JSON.
pub const NOT_JSON: &'static str = "request body must contain valid JSON";

/// The value that a body holds.
pub open spec fn body_value(body: Seq<u8>) -> Result<JsonView, Seq<char>> {
    match json::json_document(body) {
        Some(v) => Ok(v),
        None => Err(NOT_JSON@),
    }
}

/// Reads the value that a body holds.
pub fn json_body(request: &HttpRequest) -> (r: Result<Json, String>)
    ensures
        exchange::says(r, body_value(request@.body)),
{
    match json::document(&request.body) {
        Some(v) => Ok(v),
        None => Err(NOT_JSON.to_owned()),
    }
}

/// Whether the prefix and the suffix of a path overlap, so that nothing can stand between them.
pub open spec fn overlaps(path: Seq<char>, prefix: Seq<char>, suffix: Seq<char>) -> bool {
    text::has_prefix(path, prefix) && text::has_suffix(path, suffix) && path.len() < prefix.len()
        + suffix.len()
}

/// What stands in a path between a prefix and a suffix, where it is one segment.
pub open spec fn tail(path: Seq<char>, prefix: Seq<char>, suffix: Seq<char>) -> Result<
    Option<Seq<char>>,
    Seq<char>,
> {
    if !text::has_prefix(path, prefix) || !text::has_suffix(path, suffix) {
        Ok(None)
    } else {
        let encoded = path.subrange(prefix.len() as int, path.len() - suffix.len());
        if encoded.contains('/') {
            Ok(None)
        } else {
            match request::segment(encoded, "route segment"@) {
                Err(m) => Err(m),
                Ok(s) => Ok(Some(s)),
            }
        }
    }
}

/// Reads the segment between a prefix and a suffix of a path.
pub fn route_tail(path: &str, prefix: &str, suffix: &str) -> (r: Result<Option<String>, String>)
    requires
        !overlaps(path@, prefix@, suffix@),
    ensures
        exchange::says(r, tail(path@, prefix@, suffix@)),
{
    if !text::starts_with(path, prefix) || !text::ends_with(path, suffix) {
        return Ok(None);
    }
    let chars = text::chars_of(path);
    let from: usize = text::chars_of(prefix).len();
    let behind: usize = text::chars_of(suffix).len();
    let encoded = text::text_of(&chars, from, chars.len() - behind);
    if text::contains_char(&encoded, '/') {
        return Ok(None);
    }
    let decoded = request::decode_route_segment(&encoded, "route segment")?;
    Ok(Some(decoded))
}

fn overlap(path: &str, prefix: &str, suffix: &str) -> (r: bool)
    ensures
        r == overlaps(path@, prefix@, suffix@),
{
    let total: usize = text::chars_of(path).len();
    let from: usize = text::chars_of(prefix).len();
    let behind: usize = text::chars_of(suffix).len();
    text::starts_with(path, prefix) && text::ends_with(path, suffix) && total - from < behind
}

pub const THREADS: &'static str = "/api/local/ai/threads/";

pub const RUNS: &'static str = "/api/local/ai/runs/";

pub const PROJECTS: &'static str = "/api/projects/";

pub const TASKS: &'static str = "/api/tasks/";

pub const COMMENTS: &'static str = "/api/comments/";

pub const ATTACHMENTS: &'static str = "/api/attachments/";

pub const CODEX_THREADS: &'static str = "/api/local/codex/threads/";

/// Whether a path can be routed: in no place where an identifier is looked for between a prefix and
/// a suffix do the two overlap.
pub open spec fn is_routable(path: Seq<char>) -> bool {
    &&& !overlaps(path, THREADS@, "/events"@)
    &&& !overlaps(path, THREADS@, "/turns"@)
    &&& !overlaps(path, RUNS@, "/interrupt"@)
    &&& !overlaps(path, PROJECTS@, "/archive"@)
    &&& !overlaps(path, PROJECTS@, "/development-contexts"@)
    &&& !overlaps(path, PROJECTS@, "/workflow-workspace"@)
    &&& !overlaps(path, TASKS@, "/comments"@)
    &&& !overlaps(path, TASKS@, "/attachments"@)
    &&& !overlaps(path, COMMENTS@, "/attachments"@)
    &&& !overlaps(path, ATTACHMENTS@, "/content"@)
}

/// Whether a path can be routed.
pub fn routable(path: &str) -> (r: bool)
    ensures
        r == is_routable(path@),
{
    !overlap(path, THREADS, "/events") && !overlap(path, THREADS, "/turns") && !overlap(
        path,
        RUNS,
        "/interrupt",
    ) && !overlap(path, PROJECTS, "/archive") && !overlap(path, PROJECTS, "/development-contexts")
        && !overlap(path, PROJECTS, "/workflow-workspace") && !overlap(path, TASKS, "/comments")
        && !overlap(path, TASKS, "/attachments") && !overlap(path, COMMENTS, "/attachments")
        && !overlap(path, ATTACHMENTS, "/content")
}

/// A route where a request has one of two methods.
pub open spec fn allowed(
    method: Seq<char>,
    one: Seq<char>,
    other: Seq<char>,
    route: RouteView,
) -> Result<RouteView, Seq<char>> {
    if method == one || method == other {
        Ok(route)
    } else {
        Err(NOT_ALLOWED@)
    }
}

fn allow(method: &str, one: &str, other: &str, route: Route) -> (r: Result<Route, String>)
    ensures
        exchange::says(r, allowed(method@, one@, other@, route@)),
{
    if text::same(method, one) || text::same(method, other) {
        Ok(route)
    } else {
        Err(NOT_ALLOWED.to_owned())
    }
}

/// A route to the store.
pub open spec fn calls(call: CallView) -> Result<RouteView, Seq<char>> {
    Ok(RouteView::Store(call))
}

/// That the service is up, and on which host.
pub open spec fn health() -> ResponseView {
    ResponseView::JsonWithHeaders(
        200,
        Seq::empty().push(("x-taskboard-bind-host"@, "127.0.0.1"@)),
        JsonView::Object(json::members().push(("status"@, JsonView::Text("ok"@)))),
    )
}

fn make_health() -> (r: Response)
    ensures
        r@ == health(),
{
    let mut headers: Vec<(String, String)> = json::none();
    json::put(&mut headers, ("x-taskboard-bind-host".to_owned(), "127.0.0.1".to_owned()));
    Response::JsonWithHeaders(200, headers, json::single("status", json::text_value("ok")))
}

/// What the service can do.
pub open spec fn meta(skill_path: Seq<char>) -> ResponseView {
    ResponseView::Json(
        200,
        JsonView::Object(
            json::members().push(("manageTaskboardSkillPath"@, JsonView::Text(skill_path))).push(
                (
                    "capabilities"@,
                    JsonView::Object(json::members().push(("localAiChat"@, JsonView::Bool(true)))),
                ),
            ).push(
                (
                    "localCapabilities"@,
                    JsonView::Object(json::members().push(("available"@, JsonView::Bool(true)))),
                ),
            ),
        ),
    )
}

fn make_meta(skill_path: &str) -> (r: Response)
    ensures
        r@ == meta(skill_path@),
{
    let mut members = json::no_members();
    json::member(&mut members, "manageTaskboardSkillPath", json::text_value(skill_path));
    json::member(&mut members, "capabilities", json::single("localAiChat", Json::Bool(true)));
    json::member(&mut members, "localCapabilities", json::single("available", Json::Bool(true)));
    Response::Json(200, json::object(members))
}

/// That no workspaces are shared with other devices.
pub open spec fn no_workspaces() -> ResponseView {
    ResponseView::Json(
        200,
        JsonView::Object(json::members().push(("workspaces"@, JsonView::Object(json::members())))),
    )
}

/// That workflows have neither skills nor servers.
pub open spec fn no_workflow_capabilities() -> ResponseView {
    ResponseView::Json(
        200,
        JsonView::Object(
            json::members().push(("skills"@, JsonView::Array(Seq::empty()))).push(
                ("mcpServers"@, JsonView::Array(Seq::empty())),
            ),
        ),
    )
}

/// That nothing changed.
pub open spec fn no_revision() -> ResponseView {
    ResponseView::Json(
        200,
        JsonView::Object(
            json::members().push(("changed"@, JsonView::Bool(false))).push(
                ("revision"@, JsonView::Integer(1)),
            ),
        ),
    )
}

/// A conversation of Codex of which nothing but the identifier is known.
pub open spec fn codex_thread(id: Seq<char>) -> ResponseView {
    ResponseView::Json(
        200,
        JsonView::Object(
            json::members().push(
                (
                    "thread"@,
                    JsonView::Object(
                        json::members().push(("id"@, JsonView::Text(id))).push(
                            ("title"@, JsonView::Null),
                        ),
                    ),
                ),
            ),
        ),
    )
}

/// That a project has nowhere to work.
pub open spec fn no_contexts() -> ResponseView {
    ResponseView::Json(
        200,
        JsonView::Object(
            json::members().push(("workspacePath"@, JsonView::Null)).push(
                ("contexts"@, JsonView::Array(Seq::empty())),
            ),
        ),
    )
}

fn make_no_workspaces() -> (r: Response)
    ensures
        r@ == no_workspaces(),
{
    Response::Json(200, json::single("workspaces", json::object(json::no_members())))
}

fn make_no_workflow_capabilities() -> (r: Response)
    ensures
        r@ == no_workflow_capabilities(),
{
    let mut members = json::no_members();
    json::member(&mut members, "skills", json::array(json::none()));
    json::member(&mut members, "mcpServers", json::array(json::none()));
    Response::Json(200, json::object(members))
}

fn make_no_revision() -> (r: Response)
    ensures
        r@ == no_revision(),
{
    let mut members = json::no_members();
    json::member(&mut members, "changed", Json::Bool(false));
    json::member(&mut members, "revision", Json::Integer(1));
    Response::Json(200, json::object(members))
}

fn make_codex_thread(id: &str) -> (r: Response)
    ensures
        r@ == codex_thread(id@),
{
    let mut members = json::no_members();
    json::member(&mut members, "id", json::text_value(id));
    json::member(&mut members, "title", Json::Null);
    Response::Json(200, json::single("thread", json::object(members)))
}

fn make_no_contexts() -> (r: Response)
    ensures
        r@ == no_contexts(),
{
    let mut members = json::no_members();
    json::member(&mut members, "workspacePath", Json::Null);
    json::member(&mut members, "contexts", json::array(json::none()));
    Response::Json(200, json::object(members))
}

/// The identifier that a path ends with behind a prefix, which is removed as often as it stands
/// there.
pub open spec fn last_segment(path: Seq<char>, prefix: Seq<char>, label: Seq<char>) -> Result<
    Seq<char>,
    Seq<char>,
> {
    request::segment(text::without_prefixes(path, prefix), label)
}

fn read_last_segment(path: &str, prefix: &str, label: &str) -> (r: Result<String, String>)
    ensures
        exchange::says(r, last_segment(path@, prefix@, label@)),
{
    request::decode_route_segment(&text::trim_start_matches(path, prefix), label)
}

/// Where requests lead that are answered at once, and those about the projects as a whole; `None`
/// for any other.
pub open spec fn general_route(request: RequestView, skill_path: Seq<char>) -> Option<
    Result<RouteView, Seq<char>>,
> {
    let path = request.path;
    let method = request.method;
    if path == "/health"@ {
        Some(allowed(method, "GET"@, "GET"@, RouteView::Answer(health())))
    } else if path == "/api/meta"@ {
        Some(allowed(method, "GET"@, "GET"@, RouteView::Answer(meta(skill_path))))
    } else if path == "/api/device-workspaces"@ {
        Some(allowed(method, "GET"@, "GET"@, RouteView::Answer(no_workspaces())))
    } else if path == "/api/workflow-capabilities"@ {
        Some(allowed(method, "GET"@, "GET"@, RouteView::Answer(no_workflow_capabilities())))
    } else if path == "/api/projects"@ && method == "GET"@ {
        Some(calls(CallView::ListProjects))
    } else if path == "/api/projects"@ && method == "POST"@ {
        Some(calls(CallView::CreateProject))
    } else if path == "/api/revisions"@ {
        Some(allowed(method, "GET"@, "GET"@, RouteView::Answer(no_revision())))
    } else if path == "/api/local/codex/threads/sync"@ {
        Some(allowed(method, "POST"@, "POST"@, RouteView::Answer(ResponseView::Empty(204))))
    } else if text::has_prefix(path, CODEX_THREADS@) {
        if method != "GET"@ {
            Some(Err(NOT_ALLOWED@))
        } else {
            Some(
                match last_segment(path, CODEX_THREADS@, "thread id"@) {
                    Err(m) => Err(m),
                    Ok(id) => Ok(RouteView::Answer(codex_thread(id))),
                },
            )
        }
    } else {
        None
    }
}

fn route_general(request: &HttpRequest, skill_path: &str) -> (r: Option<Result<Route, String>>)
    ensures
        match r {
            Some(route) => general_route(request@, skill_path@) is Some && exchange::says(
                route,
                general_route(request@, skill_path@)->0,
            ),
            None => general_route(request@, skill_path@) is None,
        },
{
    let path = request.path.as_str();
    let method = request.method.as_str();
    if text::same(path, "/health") {
        Some(allow(method, "GET", "GET", Route::Answer(make_health())))
    } else if text::same(path, "/api/meta") {
        Some(allow(method, "GET", "GET", Route::Answer(make_meta(skill_path))))
    } else if text::same(path, "/api/device-workspaces") {
        Some(allow(method, "GET", "GET", Route::Answer(make_no_workspaces())))
    } else if text::same(path, "/api/workflow-capabilities") {
        Some(allow(method, "GET", "GET", Route::Answer(make_no_workflow_capabilities())))
    } else if text::same(path, "/api/projects") && text::same(method, "GET") {
        Some(Ok(Route::Store(Call::ListProjects)))
    } else if text::same(path, "/api/projects") && text::same(method, "POST") {
        Some(Ok(Route::Store(Call::CreateProject)))
    } else if text::same(path, "/api/revisions") {
        Some(allow(method, "GET", "GET", Route::Answer(make_no_revision())))
    } else if text::same(path, "/api/local/codex/threads/sync") {
        Some(allow(method, "POST", "POST", Route::Answer(Response::Empty(204))))
    } else if text::starts_with(path, CODEX_THREADS) {
        if !text::same(method, "GET") {
            Some(Err(NOT_ALLOWED.to_owned()))
        } else {
            Some(
                match read_last_segment(path, CODEX_THREADS, "thread id") {
                    Err(m) => Err(m),
                    Ok(id) => Ok(Route::Answer(make_codex_thread(&id))),
                },
            )
        }
    } else {
        None
    }
}

/// The answer to a request for the catalog that names no project.
pub open spec fn project_required() -> ResponseView {
    exchange::refusal(400, "INVALID_FIELD"@, "'projectId' is required"@)
}

/// Where a request about one thread leads.
pub open spec fn thread_route(path: Seq<char>, method: Seq<char>) -> Result<RouteView, Seq<char>> {
    match last_segment(path, THREADS@, "thread id"@) {
        Err(m) => Err(m),
        Ok(id) => if method == "GET"@ {
            calls(CallView::ShowThread(id))
        } else if method == "PATCH"@ {
            calls(CallView::UpdateThread(id))
        } else if method == "DELETE"@ {
            calls(CallView::DeleteThread(id))
        } else {
            calls(CallView::Fail(NOT_ALLOWED@))
        },
    }
}

fn route_thread(path: &str, method: &str) -> (r: Result<Route, String>)
    ensures
        exchange::says(r, thread_route(path@, method@)),
{
    let id = read_last_segment(path, THREADS, "thread id")?;
    let call = if text::same(method, "GET") {
        Call::ShowThread(id)
    } else if text::same(method, "PATCH") {
        Call::UpdateThread(id)
    } else if text::same(method, "DELETE") {
        Call::DeleteThread(id)
    } else {
        Call::Fail(NOT_ALLOWED.to_owned())
    };
    Ok(Route::Store(call))
}

/// Where the start of a turn leads, whose body must be JSON before the store is opened.
pub open spec fn turn_route(request: RequestView, id: Seq<char>) -> Result<RouteView, Seq<char>> {
    if request.method != "POST"@ {
        Err(NOT_ALLOWED@)
    } else {
        match body_value(request.body) {
            Err(m) => Err(m),
            Ok(_) => calls(CallView::StartTurn(id)),
        }
    }
}

fn route_turn(request: &HttpRequest, id: String) -> (r: Result<Route, String>)
    ensures
        exchange::says(r, turn_route(request@, id@)),
{
    if !text::same(&request.method, "POST") {
        return Err(NOT_ALLOWED.to_owned());
    }
    let _ = json_body(request)?;
    Ok(Route::Store(Call::StartTurn(id)))
}

/// Where requests about conversations lead; `None` for any other.
pub open spec fn ai_route(request: RequestView) -> Option<Result<RouteView, Seq<char>>> {
    let path = request.path;
    let method = request.method;
    if path == "/api/local/ai/catalog"@ {
        if method != "GET"@ {
            Some(Err(NOT_ALLOWED@))
        } else {
            match request::named(request.query, "projectId"@) {
                None => Some(Ok(RouteView::Answer(project_required()))),
                Some(project_id) => Some(calls(CallView::ShowCatalog(project_id))),
            }
        }
    } else if path == "/api/local/ai/threads"@ {
        if method == "GET"@ {
            Some(calls(CallView::ListThreads))
        } else if method == "POST"@ {
            Some(calls(CallView::CreateThread))
        } else {
            Some(calls(CallView::Fail(NOT_ALLOWED@)))
        }
    } else {
        match tail(path, THREADS@, "/events"@) {
            Err(m) => Some(Err(m)),
            Ok(Some(id)) => Some(
                allowed(method, "GET"@, "GET"@, RouteView::Store(CallView::OpenStream(id))),
            ),
            Ok(None) => match tail(path, THREADS@, "/turns"@) {
                Err(m) => Some(Err(m)),
                Ok(Some(id)) => Some(turn_route(request, id)),
                Ok(None) => if text::has_prefix(path, THREADS@) {
                    Some(thread_route(path, method))
                } else {
                    match tail(path, RUNS@, "/interrupt"@) {
                        Err(m) => Some(Err(m)),
                        Ok(Some(id)) => Some(
                            allowed(
                                method,
                                "POST"@,
                                "POST"@,
                                RouteView::Store(CallView::InterruptRun(id)),
                            ),
                        ),
                        Ok(None) => None,
                    }
                },
            },
        }
    }
}

fn route_ai(request: &HttpRequest) -> (r: Option<Result<Route, String>>)
    requires
        is_routable(request@.path),
    ensures
        match r {
            Some(route) => ai_route(request@) is Some && exchange::says(
                route,
                ai_route(request@)->0,
            ),
            None => ai_route(request@) is None,
        },
{
    let path = request.path.as_str();
    let method = request.method.as_str();
    if text::same(path, "/api/local/ai/catalog") {
        if !text::same(method, "GET") {
            return Some(Err(NOT_ALLOWED.to_owned()));
        }
        return match request.query.get("projectId") {
            None => Some(
                Ok(
                    Route::Answer(
                        exchange::api_error(400, "INVALID_FIELD", "'projectId' is required"),
                    ),
                ),
            ),
            Some(project_id) => Some(Ok(Route::Store(Call::ShowCatalog(project_id.clone())))),
        };
    }
    if text::same(path, "/api/local/ai/threads") {
        let call = if text::same(method, "GET") {
            Call::ListThreads
        } else if text::same(method, "POST") {
            Call::CreateThread
        } else {
            Call::Fail(NOT_ALLOWED.to_owned())
        };
        return Some(Ok(Route::Store(call)));
    }
    match route_tail(path, THREADS, "/events") {
        Err(m) => {
            return Some(Err(m));
        },
        Ok(Some(id)) => {
            return Some(allow(method, "GET", "GET", Route::Store(Call::OpenStream(id))));
        },
        Ok(None) => {},
    }
    match route_tail(path, THREADS, "/turns") {
        Err(m) => {
            return Some(Err(m));
        },
        Ok(Some(id)) => {
            return Some(route_turn(request, id));
        },
        Ok(None) => {},
    }
    if text::starts_with(path, THREADS) {
        return Some(route_thread(path, method));
    }
    match route_tail(path, RUNS, "/interrupt") {
        Err(m) => Some(Err(m)),
        Ok(Some(id)) => Some(allow(method, "POST", "POST", Route::Store(Call::InterruptRun(id)))),
        Ok(None) => None,
    }
}

/// Where requests about the tasks as a whole, and about what belongs to one project, lead; `None`
/// for any other.
pub open spec fn project_route(path: Seq<char>, method: Seq<char>) -> Option<
    Result<RouteView, Seq<char>>,
> {
    match tail(path, PROJECTS@, "/archive"@) {
        Err(m) => Some(Err(m)),
        Ok(Some(id)) => Some(
            allowed(method, "POST"@, "POST"@, RouteView::Store(CallView::ArchiveProject(id))),
        ),
        Ok(None) => match tail(path, PROJECTS@, "/development-contexts"@) {
            Err(m) => Some(Err(m)),
            Ok(Some(_)) => Some(
                allowed(method, "GET"@, "GET"@, RouteView::Answer(no_contexts())),
            ),
            Ok(None) => if path == "/api/tasks"@ && method == "GET"@ {
                Some(calls(CallView::ListTasks))
            } else if path == "/api/tasks"@ && method == "POST"@ {
                Some(calls(CallView::CreateTask))
            } else if path == "/api/events"@ {
                Some(allowed(method, "GET"@, "GET"@, RouteView::Answer(ResponseView::EventStream)))
            } else {
                match tail(path, PROJECTS@, "/workflow-workspace"@) {
                    Err(m) => Some(Err(m)),
                    Ok(Some(id)) => Some(
                        if method == "PUT"@ {
                            calls(CallView::SaveWorkflow(id))
                        } else if method == "GET"@ {
                            calls(CallView::ShowWorkflow(id))
                        } else {
                            calls(CallView::Fail(NOT_ALLOWED@))
                        },
                    ),
                    Ok(None) => None,
                }
            },
        },
    }
}

fn route_project(path: &str, method: &str) -> (r: Option<Result<Route, String>>)
    requires
        is_routable(path@),
    ensures
        match r {
            Some(route) => project_route(path@, method@) is Some && exchange::says(
                route,
                project_route(path@, method@)->0,
            ),
            None => project_route(path@, method@) is None,
        },
{
    match route_tail(path, PROJECTS, "/archive") {
        Err(m) => {
            return Some(Err(m));
        },
        Ok(Some(id)) => {
            return Some(allow(method, "POST", "POST", Route::Store(Call::ArchiveProject(id))));
        },
        Ok(None) => {},
    }
    match route_tail(path, PROJECTS, "/development-contexts") {
        Err(m) => {
            return Some(Err(m));
        },
        Ok(Some(_)) => {
            return Some(allow(method, "GET", "GET", Route::Answer(make_no_contexts())));
        },
        Ok(None) => {},
    }
    if text::same(path, "/api/tasks") && text::same(method, "GET") {
        return Some(Ok(Route::Store(Call::ListTasks)));
    }
    if text::same(path, "/api/tasks") && text::same(method, "POST") {
        return Some(Ok(Route::Store(Call::CreateTask)));
    }
    if text::same(path, "/api/events") {
        return Some(allow(method, "GET", "GET", Route::Answer(Response::EventStream)));
    }
    match route_tail(path, PROJECTS, "/workflow-workspace") {
        Err(m) => Some(Err(m)),
        Ok(Some(id)) => {
            let call = if text::same(method, "PUT") {
                Call::SaveWorkflow(id)
            } else if text::same(method, "GET") {
                Call::ShowWorkflow(id)
            } else {
                Call::Fail(NOT_ALLOWED.to_owned())
            };
            Some(Ok(Route::Store(call)))
        },
        Ok(None) => None,
    }
}

/// Where a request to a list leads that can be added to: to what adds, to what lists, or nowhere.
pub open spec fn list_route(method: Seq<char>, adding: CallView, listing: CallView) -> Result<
    RouteView,
    Seq<char>,
> {
    if method == "POST"@ {
        calls(adding)
    } else if method == "GET"@ {
        calls(listing)
    } else {
        calls(CallView::Fail(NOT_ALLOWED@))
    }
}

fn route_list(method: &str, adding: Call, listing: Call) -> (r: Result<Route, String>)
    ensures
        exchange::says(r, list_route(method@, adding@, listing@)),
{
    if text::same(method, "POST") {
        Ok(Route::Store(adding))
    } else if text::same(method, "GET") {
        Ok(Route::Store(listing))
    } else {
        Ok(Route::Store(Call::Fail(NOT_ALLOWED.to_owned())))
    }
}

/// Where requests about attachments and about the comments of a task lead; `None` for any other.
pub open spec fn attached_route(path: Seq<char>, method: Seq<char>) -> Option<
    Result<RouteView, Seq<char>>,
> {
    match tail(path, TASKS@, "/comments"@) {
        Err(m) => Some(Err(m)),
        Ok(Some(id)) => Some(
            list_route(method, CallView::CreateComment(id), CallView::ListComments(id)),
        ),
        Ok(None) => match tail(path, TASKS@, "/attachments"@) {
            Err(m) => Some(Err(m)),
            Ok(Some(id)) => Some(
                list_route(method, CallView::AttachToTask(id), CallView::ListTaskAttachments(id)),
            ),
            Ok(None) => match tail(path, COMMENTS@, "/attachments"@) {
                Err(m) => Some(Err(m)),
                Ok(Some(id)) => Some(
                    list_route(
                        method,
                        CallView::AttachToComment(id),
                        CallView::ListCommentAttachments(id),
                    ),
                ),
                Ok(None) => content_route(path, method),
            },
        },
    }
}

/// Where requests about one attachment and its content lead; `None` for any other.
pub open spec fn content_route(path: Seq<char>, method: Seq<char>) -> Option<
    Result<RouteView, Seq<char>>,
> {
    if text::has_prefix(path, ATTACHMENTS@) && !text::has_suffix(path, "/content"@) {
        if method != "DELETE"@ {
            Some(Err(NOT_ALLOWED@))
        } else {
            Some(
                match last_segment(path, ATTACHMENTS@, "attachment id"@) {
                    Err(m) => Err(m),
                    Ok(id) => calls(CallView::DeleteAttachment(id)),
                },
            )
        }
    } else {
        match tail(path, ATTACHMENTS@, "/content"@) {
            Err(m) => Some(Err(m)),
            Ok(Some(id)) => Some(
                allowed(method, "GET"@, "HEAD"@, RouteView::Store(CallView::SendAttachment(id))),
            ),
            Ok(None) => None,
        }
    }
}

fn route_content(path: &str, method: &str) -> (r: Option<Result<Route, String>>)
    requires
        is_routable(path@),
    ensures
        match r {
            Some(route) => content_route(path@, method@) is Some && exchange::says(
                route,
                content_route(path@, method@)->0,
            ),
            None => content_route(path@, method@) is None,
        },
{
    if text::starts_with(path, ATTACHMENTS) && !text::ends_with(path, "/content") {
        if !text::same(method, "DELETE") {
            return Some(Err(NOT_ALLOWED.to_owned()));
        }
        return Some(
            match read_last_segment(path, ATTACHMENTS, "attachment id") {
                Err(m) => Err(m),
                Ok(id) => Ok(Route::Store(Call::DeleteAttachment(id))),
            },
        );
    }
    match route_tail(path, ATTACHMENTS, "/content") {
        Err(m) => Some(Err(m)),
        Ok(Some(id)) => Some(
            allow(method, "GET", "HEAD", Route::Store(Call::SendAttachment(id))),
        ),
        Ok(None) => None,
    }
}

fn route_attached(path: &str, method: &str) -> (r: Option<Result<Route, String>>)
    requires
        is_routable(path@),
    ensures
        match r {
            Some(route) => attached_route(path@, method@) is Some && exchange::says(
                route,
                attached_route(path@, method@)->0,
            ),
            None => attached_route(path@, method@) is None,
        },
{
    match route_tail(path, TASKS, "/comments") {
        Err(m) => {
            return Some(Err(m));
        },
        Ok(Some(id)) => {
            let adding = Call::CreateComment(id.clone());
            return Some(route_list(method, adding, Call::ListComments(id)));
        },
        Ok(None) => {},
    }
    match route_tail(path, TASKS, "/attachments") {
        Err(m) => {
            return Some(Err(m));
        },
        Ok(Some(id)) => {
            let adding = Call::AttachToTask(id.clone());
            return Some(route_list(method, adding, Call::ListTaskAttachments(id)));
        },
        Ok(None) => {},
    }
    match route_tail(path, COMMENTS, "/attachments") {
        Err(m) => Some(Err(m)),
        Ok(Some(id)) => {
            let adding = Call::AttachToComment(id.clone());
            Some(route_list(method, adding, Call::ListCommentAttachments(id)))
        },
        Ok(None) => route_content(path, method),
    }
}

/// Where requests about one comment and about relations lead; `None` for any other.
pub open spec fn comment_route(path: Seq<char>, method: Seq<char>) -> Option<
    Result<RouteView, Seq<char>>,
> {
    if text::has_prefix(path, COMMENTS@) {
        Some(
            match last_segment(path, COMMENTS@, "comment id"@) {
                Err(m) => Err(m),
                Ok(id) => if method == "PATCH"@ {
                    calls(CallView::UpdateComment(id))
                } else if method == "DELETE"@ {
                    calls(CallView::DeleteComment(id))
                } else {
                    calls(CallView::Fail(NOT_ALLOWED@))
                },
            },
        )
    } else {
        match relations::relation_path(path) {
            Err(m) => Some(Err(m)),
            Ok(Some((a, b, c))) => Some(
                if method == "POST"@ {
                    calls(CallView::AddRelation(a, b, c))
                } else if method == "DELETE"@ {
                    calls(CallView::RemoveRelation(a, b, c))
                } else {
                    calls(CallView::Fail(NOT_ALLOWED@))
                },
            ),
            Ok(None) => None,
        }
    }
}

fn route_comment(path: &str, method: &str) -> (r: Option<Result<Route, String>>)
    ensures
        match r {
            Some(route) => comment_route(path@, method@) is Some && exchange::says(
                route,
                comment_route(path@, method@)->0,
            ),
            None => comment_route(path@, method@) is None,
        },
{
    if text::starts_with(path, COMMENTS) {
        return Some(
            match read_last_segment(path, COMMENTS, "comment id") {
                Err(m) => Err(m),
                Ok(id) => {
                    let call = if text::same(method, "PATCH") {
                        Call::UpdateComment(id)
                    } else if text::same(method, "DELETE") {
                        Call::DeleteComment(id)
                    } else {
                        Call::Fail(NOT_ALLOWED.to_owned())
                    };
                    Ok(Route::Store(call))
                },
            },
        );
    }
    match relations::task_relation_path(path) {
        Err(m) => Some(Err(m)),
        Ok(Some((a, b, c))) => {
            let call = if text::same(method, "POST") {
                Call::AddRelation(a, b, c)
            } else if text::same(method, "DELETE") {
                Call::RemoveRelation(a, b, c)
            } else {
                Call::Fail(NOT_ALLOWED.to_owned())
            };
            Some(Ok(Route::Store(call)))
        },
        Ok(None) => None,
    }
}

/// Whether a path names something that is done to a task: whether it ends with a suffix behind the
/// prefix of tasks.
pub open spec fn names_deed(path: Seq<char>, suffix: Seq<char>) -> bool {
    text::has_prefix(path, TASKS@) && text::has_suffix(path.skip(TASKS@.len() as int), suffix)
}

/// The identifier of the task to which something is done.
pub open spec fn deed_segment(path: Seq<char>, suffix: Seq<char>) -> Result<Seq<char>, Seq<char>> {
    let rest = path.skip(TASKS@.len() as int);
    request::segment(rest.take(rest.len() - suffix.len()), "task id"@)
}

/// What is asked where something is done to a task, by a request that must be sent to do it.
pub open spec fn deed(method: Seq<char>, id: Result<Seq<char>, Seq<char>>, which: int) -> CallView {
    if method != "POST"@ {
        CallView::Fail(NOT_ALLOWED@)
    } else {
        match id {
            Err(m) => CallView::Fail(m),
            Ok(id) => if which == 0 {
                CallView::MoveTask(id)
            } else if which == 1 {
                CallView::ArchiveTask(id)
            } else {
                CallView::RestoreTask(id)
            },
        }
    }
}

/// What is asked of one task.
pub open spec fn task_call(path: Seq<char>, method: Seq<char>, id: Seq<char>) -> CallView {
    if names_deed(path, "/move"@) {
        deed(method, deed_segment(path, "/move"@), 0)
    } else if names_deed(path, "/archive"@) {
        deed(method, deed_segment(path, "/archive"@), 1)
    } else if names_deed(path, "/restore"@) {
        deed(method, deed_segment(path, "/restore"@), 2)
    } else if method == "PATCH"@ {
        CallView::UpdateTask(id)
    } else if method == "DELETE"@ {
        CallView::DeleteTask(id)
    } else if method == "GET"@ {
        CallView::ShowTask(id)
    } else {
        CallView::Fail(NOT_ALLOWED@)
    }
}

fn make_deed(path: &str, method: &str, suffix: &str, which: u8) -> (r: Option<Call>)
    ensures
        match r {
            Some(call) => names_deed(path@, suffix@) && call@ == deed(
                method@,
                deed_segment(path@, suffix@),
                which as int,
            ),
            None => !names_deed(path@, suffix@),
        },
{
    let rest = match text::strip_prefix(path, TASKS) {
        Some(rest) => rest,
        None => {
            return None;
        },
    };
    let encoded = match text::strip_suffix(&rest, suffix) {
        Some(encoded) => encoded,
        None => {
            return None;
        },
    };
    if !text::same(method, "POST") {
        return Some(Call::Fail(NOT_ALLOWED.to_owned()));
    }
    match request::decode_route_segment(&encoded, "task id") {
        Err(m) => Some(Call::Fail(m)),
        Ok(id) => if which == 0 {
            Some(Call::MoveTask(id))
        } else if which == 1 {
            Some(Call::ArchiveTask(id))
        } else {
            Some(Call::RestoreTask(id))
        },
    }
}

fn make_task_call(path: &str, method: &str, id: String) -> (r: Call)
    ensures
        r@ == task_call(path@, method@, id@),
{
    match make_deed(path, method, "/move", 0) {
        Some(call) => {
            return call;
        },
        None => {},
    }
    match make_deed(path, method, "/archive", 1) {
        Some(call) => {
            return call;
        },
        None => {},
    }
    match make_deed(path, method, "/restore", 2) {
        Some(call) => {
            return call;
        },
        None => {},
    }
    if text::same(method, "PATCH") {
        Call::UpdateTask(id)
    } else if text::same(method, "DELETE") {
        Call::DeleteTask(id)
    } else if text::same(method, "GET") {
        Call::ShowTask(id)
    } else {
        Call::Fail(NOT_ALLOWED.to_owned())
    }
}

/// The answer to a request for something that the service does not have.
pub open spec fn not_implemented() -> ResponseView {
    exchange::refusal(
        501,
        "NOT_IMPLEMENTED"@,
        "This Taskboard route is not migrated to the embedded Rust service yet."@,
    )
}

/// Where all other requests lead: to one task, to one project, or to a file of the page.
pub open spec fn last_route(path: Seq<char>, method: Seq<char>) -> Result<RouteView, Seq<char>> {
    if text::has_prefix(path, TASKS@) && !text::holds(path, "/relations/"@) {
        match last_segment(path, TASKS@, "task id"@) {
            Err(m) => Err(m),
            Ok(id) => calls(task_call(path, method, id)),
        }
    } else if text::has_prefix(path, PROJECTS@) {
        if method != "DELETE"@ {
            Err(NOT_ALLOWED@)
        } else {
            match last_segment(path, PROJECTS@, "project id"@) {
                Err(m) => Err(m),
                Ok(id) => calls(CallView::DeleteProject(id)),
            }
        }
    } else if text::has_prefix(path, "/api/"@) {
        Ok(RouteView::Answer(not_implemented()))
    } else {
        Ok(RouteView::Page)
    }
}

fn route_last(path: &str, method: &str) -> (r: Result<Route, String>)
    ensures
        exchange::says(r, last_route(path@, method@)),
{
    if text::starts_with(path, TASKS) && !text::contains(path, "/relations/") {
        let id = read_last_segment(path, TASKS, "task id")?;
        return Ok(Route::Store(make_task_call(path, method, id)));
    }
    if text::starts_with(path, PROJECTS) {
        if !text::same(method, "DELETE") {
            return Err(NOT_ALLOWED.to_owned());
        }
        let id = read_last_segment(path, PROJECTS, "project id")?;
        return Ok(Route::Store(Call::DeleteProject(id)));
    }
    if text::starts_with(path, "/api/") {
        return Ok(
            Route::Answer(
                exchange::api_error(
                    501,
                    "NOT_IMPLEMENTED",
                    "This Taskboard route is not migrated to the embedded Rust service yet.",
                ),
            ),
        );
    }
    Ok(Route::Page)
}

/// Where a request leads, or the message with which it fails before the store is opened.
pub open spec fn route_of(request: RequestView, skill_path: Seq<char>) -> Result<
    RouteView,
    Seq<char>,
> {
    match general_route(request, skill_path) {
        Some(route) => route,
        None => match ai_route(request) {
            Some(route) => route,
            None => match project_route(request.path, request.method) {
                Some(route) => route,
                None => match attached_route(request.path, request.method) {
                    Some(route) => route,
                    None => match comment_route(request.path, request.method) {
                        Some(route) => route,
                        None => last_route(request.path, request.method),
                    },
                },
            },
        },
    }
}

/// Finds out where a request leads.
pub fn route(request: &HttpRequest, skill_path: &str) -> (r: Result<Route, String>)
    requires
        is_routable(request@.path),
    ensures
        exchange::says(r, route_of(request@, skill_path@)),
{
    match route_general(request, skill_path) {
        Some(route) => {
            return route;
        },
        None => {},
    }
    match route_ai(request) {
        Some(route) => {
            return route;
        },
        None => {},
    }
    match route_project(&request.path, &request.method) {
        Some(route) => {
            return route;
        },
        None => {},
    }
    match route_attached(&request.path, &request.method) {
        Some(route) => {
            return route;
        },
        None => {},
    }
    match route_comment(&request.path, &request.method) {
        Some(route) => {
            return route;
        },
        None => {},
    }
    route_last(&request.path, &request.method)
}

/// No file of the page is sent for a path of the interface, whatever the method.
pub proof fn law_interface_is_no_page(request: RequestView, skill_path: Seq<char>)
    requires
        text::has_prefix(request.path, "/api/"@),
    ensures
        route_of(request, skill_path) != Ok::<RouteView, Seq<char>>(RouteView::Page),
{
}

/// Whether a call only reads what is there, or fails.
pub open spec fn is_reading_call(call: CallView) -> bool {
    match call {
        CallView::ListProjects => true,
        CallView::ShowWorkflow(_) => true,
        CallView::ListTasks => true,
        CallView::ShowTask(_) => true,
        CallView::ListComments(_) => true,
        CallView::ListTaskAttachments(_) => true,
        CallView::ListCommentAttachments(_) => true,
        CallView::SendAttachment(_) => true,
        CallView::ShowCatalog(_) => true,
        CallView::ListThreads => true,
        CallView::ShowThread(_) => true,
        CallView::OpenStream(_) => true,
        CallView::Fail(_) => true,
        _ => false,
    }
}

/// A request with a method that only reads leads to nothing but reading.
pub proof fn law_reading_methods_lead_to_reading(request: RequestView, skill_path: Seq<char>)
    requires
        crate::pages::is_reading(request.method),
    ensures
        match route_of(request, skill_path) {
            Ok(RouteView::Store(call)) => is_reading_call(call),
            _ => true,
        },
{
    reveal_strlit("GET");
    reveal_strlit("HEAD");
    reveal_strlit("POST");
    reveal_strlit("PUT");
    reveal_strlit("PATCH");
    reveal_strlit("DELETE");
    let method = request.method;
    assert(method[0] == 'G' || method[0] == 'H');
    assert("POST"@[0] == 'P' && "PUT"@[0] == 'P' && "PATCH"@[0] == 'P' && "DELETE"@[0] == 'D');
}

} // verus!
