//! How a request is served, once it is known where it leads.
use crate::ai_models;
use crate::ai_runs;
use crate::ai_threads;
use crate::ai_turns;
use crate::comments;
use crate::exchange;
use crate::exchange::{Reply, ReplyView, Response, ResponseView, Step, StepView};
use crate::fields;
use crate::fields::{Actor, ActorView};
use crate::json;
use crate::json::{Json, JsonView};
use crate::projects;
use crate::relations;
use crate::request::{HttpRequest, RequestView};
use crate::routes;
use crate::routes::{Call, CallView};
use crate::store;
use crate::task_edits;
use crate::tasks;
use vstd::prelude::*;

verus! {

/// The response that shows values under a key.
pub open spec fn listed(r: Result<Seq<JsonView>, StepView>, key: Seq<char>) -> Result<
    ResponseView,
    StepView,
> {
    match r {
        Err(s) => Err(s),
        Ok(values) => Ok(
            ResponseView::Json(
                200,
                JsonView::Object(json::members().push((key, JsonView::Array(values)))),
            ),
        ),
    }
}

fn list(r: Result<Vec<Json>, Step>, key: &str) -> (s: Result<Response, Step>)
    ensures
        match r {
            Ok(values) => exchange::agrees(
                s,
                listed(Ok::<Seq<JsonView>, StepView>(values.deep_view()), key@),
            ),
            Err(step) => exchange::agrees(s, listed(Err::<Seq<JsonView>, StepView>(step@), key@)),
        },
{
    let values = r?;
    Ok(Response::Json(200, json::single(key, json::array(values))))
}

/// How one task is shown.
pub open spec fn task_shown(replies: Seq<ReplyView>, id: Seq<char>) -> Result<
    ResponseView,
    StepView,
> {
    match tasks::task_at(replies, 0, id) {
        Err(s) => Err(s),
        Ok((None, _)) => Ok(task_edits::task_not_found()),
        Ok((Some(task), _)) => Ok(task_edits::task_response(200, task)),
    }
}

fn show_task(replies: &Vec<Reply>, id: &str) -> (r: Result<Response, Step>)
    ensures
        exchange::agrees(r, task_shown(replies.deep_view(), id@)),
{
    match tasks::get_task(replies, 0, id)?.0 {
        Some(task) => Ok(Response::Json(200, json::single("task", task))),
        None => Ok(task_edits::no_task()),
    }
}

/// How the workflow of a project is shown.
pub open spec fn workflow_shown(replies: Seq<ReplyView>, id: Seq<char>) -> Result<
    ResponseView,
    StepView,
> {
    match projects::workflow_at(replies, 0, id) {
        Err(s) => Err(s),
        Ok(None) => Ok(projects::project_not_found()),
        Ok(Some(workflow)) => Ok(
            ResponseView::Json(
                200,
                JsonView::Object(json::members().push(("workflow"@, workflow))),
            ),
        ),
    }
}

fn show_workflow(replies: &Vec<Reply>, id: &str) -> (r: Result<Response, Step>)
    ensures
        exchange::agrees(r, workflow_shown(replies.deep_view(), id@)),
{
    match projects::get_workflow_workspace(replies, 0, id)? {
        Some(workflow) => Ok(Response::Json(200, json::single("workflow", workflow))),
        None => Ok(projects::no_project()),
    }
}

/// How a file is attached to a comment: through the task that the comment is on.
pub open spec fn attached_to_comment(
    replies: Seq<ReplyView>,
    id: Seq<char>,
    request: RequestView,
) -> Result<ResponseView, StepView> {
    match comments::comment_at(replies, 0, id) {
        Err(s) => Err(s),
        Ok((None, _)) => Ok(comments::comment_not_found()),
        Ok((Some(comment), next)) => match fields::member_text(comment, "taskId"@) {
            Err(m) => Err(StepView::Fail(m)),
            Ok(task_id) => comments::attachment_created(
                replies,
                next,
                task_id,
                Some(id),
                request,
            ),
        },
    }
}

fn attach_to_comment(replies: &Vec<Reply>, id: &str, request: &HttpRequest) -> (r: Result<
    Response,
    Step,
>)
    requires
        request.body@.len() <= i64::MAX,
    ensures
        exchange::agrees(r, attached_to_comment(replies.deep_view(), id@, request@)),
{
    let (found, next) = comments::get_comment(replies, 0, id)?;
    let comment = match found {
        Some(comment) => comment,
        None => {
            return Ok(comments::no_comment());
        },
    };
    let task_id = store::lift(fields::value_string(&comment, "taskId"))?;
    comments::create_attachment(replies, next, &task_id, Some(id), request)
}

/// How what a request asks of the store without a body is served; `None` where a body belongs to
/// it.
pub open spec fn served_plainly(
    replies: Seq<ReplyView>,
    call: CallView,
    request: RequestView,
) -> Option<Result<ResponseView, StepView>> {
    match call {
        CallView::ListProjects => Some(listed(projects::projects_at(replies, 0), "projects"@)),
        CallView::ArchiveProject(id) => Some(projects::project_archived(replies, id)),
        CallView::DeleteProject(id) => Some(projects::project_deleted(replies, id)),
        CallView::ShowWorkflow(id) => Some(workflow_shown(replies, id)),
        CallView::ListTasks => Some(listed(tasks::tasks_at(replies, 0, request.query), "tasks"@)),
        CallView::ShowTask(id) => Some(task_shown(replies, id)),
        CallView::ListComments(id) => Some(
            listed(comments::comments_at(replies, 0, id), "comments"@),
        ),
        CallView::ListTaskAttachments(id) => Some(
            listed(
                comments::attachments_at(replies, 0, comments::TASK_ATTACHMENTS@, id),
                "attachments"@,
            ),
        ),
        CallView::AttachToTask(id) => Some(
            comments::attachment_created(replies, 0, id, None, request),
        ),
        CallView::ListCommentAttachments(id) => Some(
            listed(
                comments::attachments_at(replies, 0, comments::COMMENT_ATTACHMENTS@, id),
                "attachments"@,
            ),
        ),
        CallView::AttachToComment(id) => Some(attached_to_comment(replies, id, request)),
        CallView::SendAttachment(id) => Some(comments::content_sent(replies, id)),
        CallView::DeleteAttachment(id) => Some(comments::attachment_deleted(replies, id)),
        CallView::ShowCatalog(id) => Some(ai_models::catalog_shown(replies, id)),
        CallView::ListThreads => Some(listed(ai_threads::threads_at(replies), "threads"@)),
        CallView::ShowThread(id) => Some(ai_threads::snapshot_shown(replies, id)),
        CallView::DeleteThread(id) => Some(ai_threads::thread_deleted(replies, id)),
        CallView::OpenStream(id) => Some(ai_threads::stream_opened(replies, id)),
        CallView::InterruptRun(id) => Some(ai_runs::run_interrupted(replies, id)),
        CallView::Fail(m) => Some(Err(StepView::Fail(m))),
        _ => None,
    }
}

fn serve_plainly(replies: &Vec<Reply>, call: &Call, request: &HttpRequest) -> (r: Option<
    Result<Response, Step>,
>)
    requires
        request.body@.len() <= i64::MAX,
    ensures
        match r {
            Some(result) => served_plainly(replies.deep_view(), call@, request@) is Some
                && exchange::agrees(
                result,
                served_plainly(replies.deep_view(), call@, request@)->0,
            ),
            None => served_plainly(replies.deep_view(), call@, request@) is None,
        },
{
    match call {
        Call::ListProjects => Some(list(projects::list_projects(replies, 0), "projects")),
        Call::ArchiveProject(id) => Some(projects::archive_project(replies, id)),
        Call::DeleteProject(id) => Some(projects::delete_project(replies, id)),
        Call::ShowWorkflow(id) => Some(show_workflow(replies, id)),
        Call::ListTasks => Some(list(tasks::list_tasks(replies, 0, &request.query), "tasks")),
        Call::ShowTask(id) => Some(show_task(replies, id)),
        Call::ListComments(id) => Some(list(comments::list_comments(replies, 0, id), "comments")),
        Call::ListTaskAttachments(id) => Some(
            list(comments::list_task_attachments(replies, 0, id), "attachments"),
        ),
        Call::AttachToTask(id) => Some(
            comments::create_attachment(replies, 0, id, None, request),
        ),
        Call::ListCommentAttachments(id) => Some(
            list(comments::list_comment_attachments(replies, 0, id), "attachments"),
        ),
        Call::AttachToComment(id) => Some(attach_to_comment(replies, id, request)),
        Call::SendAttachment(id) => Some(comments::attachment_content(replies, id)),
        Call::DeleteAttachment(id) => Some(comments::delete_attachment(replies, id)),
        Call::ShowCatalog(id) => Some(ai_models::ai_chat_catalog(replies, id)),
        Call::ListThreads => Some(list(ai_threads::list_ai_chat_threads(replies), "threads")),
        Call::ShowThread(id) => Some(ai_threads::show_ai_chat_thread(replies, id)),
        Call::DeleteThread(id) => Some(ai_threads::delete_ai_chat_thread(replies, id)),
        Call::OpenStream(id) => Some(ai_threads::open_ai_event_stream(replies, id)),
        Call::InterruptRun(id) => Some(ai_runs::interrupt_ai_chat_run(replies, id)),
        Call::Fail(m) => Some(Err(Step::Fail(m.clone()))),
        _ => None,
    }
}

/// How a change to a task is served; `None` for any other call.
pub open spec fn served_task(
    replies: Seq<ReplyView>,
    call: CallView,
    body: JsonView,
    actor: ActorView,
) -> Option<Result<ResponseView, StepView>> {
    match call {
        CallView::CreateTask => Some(task_edits::task_created(replies, body, actor)),
        CallView::UpdateTask(id) => Some(task_edits::task_updated(replies, id, body, actor)),
        CallView::MoveTask(id) => Some(task_edits::task_moved(replies, id, body)),
        CallView::ArchiveTask(id) => Some(task_edits::task_archived(replies, id, body, true)),
        CallView::RestoreTask(id) => Some(task_edits::task_archived(replies, id, body, false)),
        CallView::DeleteTask(id) => Some(task_edits::task_deleted(replies, id, body)),
        _ => None,
    }
}

fn serve_task(replies: &Vec<Reply>, call: &Call, body: &Json, actor: &Actor) -> (r: Option<
    Result<Response, Step>,
>)
    ensures
        match r {
            Some(result) => served_task(replies.deep_view(), call@, body@, actor@) is Some
                && exchange::agrees(
                result,
                served_task(replies.deep_view(), call@, body@, actor@)->0,
            ),
            None => served_task(replies.deep_view(), call@, body@, actor@) is None,
        },
{
    match call {
        Call::CreateTask => Some(task_edits::create_task(replies, body, actor)),
        Call::UpdateTask(id) => Some(task_edits::update_task(replies, id, body, actor)),
        Call::MoveTask(id) => Some(task_edits::move_task(replies, id, body)),
        Call::ArchiveTask(id) => Some(task_edits::archive_task(replies, id, body)),
        Call::RestoreTask(id) => Some(task_edits::restore_task(replies, id, body)),
        Call::DeleteTask(id) => Some(task_edits::delete_task(replies, id, body)),
        _ => None,
    }
}

/// How a change to what belongs to a task is served: to its relations and its comments; `None` for
/// any other call.
pub open spec fn served_belonging(
    replies: Seq<ReplyView>,
    call: CallView,
    body: JsonView,
    actor: ActorView,
) -> Option<Result<ResponseView, StepView>> {
    match call {
        CallView::AddRelation(id, kind, related) => Some(
            relations::relation_changed(replies, id, kind, related, body, true),
        ),
        CallView::RemoveRelation(id, kind, related) => Some(
            relations::relation_changed(replies, id, kind, related, body, false),
        ),
        CallView::CreateComment(id) => Some(comments::comment_created(replies, id, body, actor)),
        CallView::UpdateComment(id) => Some(comments::comment_updated(replies, id, body)),
        CallView::DeleteComment(id) => Some(comments::comment_deleted(replies, id, body)),
        _ => None,
    }
}

#[verifier::spinoff_prover]
fn serve_belonging(replies: &Vec<Reply>, call: &Call, body: &Json, actor: &Actor) -> (r: Option<
    Result<Response, Step>,
>)
    ensures
        match r {
            Some(result) => served_belonging(replies.deep_view(), call@, body@, actor@) is Some
                && exchange::agrees(
                result,
                served_belonging(replies.deep_view(), call@, body@, actor@)->0,
            ),
            None => served_belonging(replies.deep_view(), call@, body@, actor@) is None,
        },
{
    match call {
        Call::AddRelation(id, kind, related) => Some(
            relations::add_task_relation(replies, id, kind, related, body),
        ),
        Call::RemoveRelation(id, kind, related) => Some(
            relations::remove_task_relation(replies, id, kind, related, body),
        ),
        Call::CreateComment(id) => Some(comments::create_comment(replies, id, body, actor)),
        Call::UpdateComment(id) => Some(comments::update_comment(replies, id, body)),
        Call::DeleteComment(id) => Some(comments::delete_comment(replies, id, body)),
        _ => None,
    }
}

/// How a change to a project or a conversation is served; a call to which no body belongs fails.
pub open spec fn served_other(
    replies: Seq<ReplyView>,
    call: CallView,
    body: JsonView,
    skill_path: Seq<char>,
) -> Result<ResponseView, StepView> {
    match call {
        CallView::CreateProject => projects::project_created(replies, body),
        CallView::SaveWorkflow(id) => projects::workflow_saved(replies, id, body),
        CallView::CreateThread => ai_threads::thread_created(replies, body),
        CallView::UpdateThread(id) => ai_threads::thread_updated(replies, id, body),
        CallView::StartTurn(id) => ai_turns::turn_requested(replies, id, body, skill_path),
        _ => Err(StepView::Fail(routes::NOT_ALLOWED@)),
    }
}

fn serve_other(replies: &Vec<Reply>, call: &Call, body: &Json, skill_path: &str) -> (r: Result<
    Response,
    Step,
>)
    ensures
        exchange::agrees(r, served_other(replies.deep_view(), call@, body@, skill_path@)),
{
    match call {
        Call::CreateProject => projects::create_project(replies, body),
        Call::SaveWorkflow(id) => projects::save_workflow_workspace(replies, id, body),
        Call::CreateThread => ai_threads::create_ai_chat_thread(replies, body),
        Call::UpdateThread(id) => ai_threads::update_ai_chat_thread(replies, id, body),
        Call::StartTurn(id) => ai_turns::start_ai_chat_turn(replies, id, body, skill_path),
        _ => Err(Step::Fail(routes::NOT_ALLOWED.to_owned())),
    }
}

/// How what a request asks of the store with a body is served.
pub open spec fn served_with_body(
    replies: Seq<ReplyView>,
    call: CallView,
    actor: ActorView,
    body: JsonView,
    skill_path: Seq<char>,
) -> Result<ResponseView, StepView> {
    match served_task(replies, call, body, actor) {
        Some(r) => r,
        None => match served_belonging(replies, call, body, actor) {
            Some(r) => r,
            None => served_other(replies, call, body, skill_path),
        },
    }
}

/// Serves what a request asks of the store with a body, whose value is known.
pub fn serve_with_body(
    replies: &Vec<Reply>,
    call: &Call,
    actor: &Actor,
    body: &Json,
    skill_path: &str,
) -> (r: Result<Response, Step>)
    ensures
        exchange::agrees(
            r,
            served_with_body(replies.deep_view(), call@, actor@, body@, skill_path@),
        ),
{
    match serve_task(replies, call, body, actor) {
        Some(result) => {
            return result;
        },
        None => {},
    }
    match serve_belonging(replies, call, body, actor) {
        Some(result) => {
            return result;
        },
        None => {},
    }
    serve_other(replies, call, body, skill_path)
}

/// The step that a result of a handler stands for.
pub open spec fn settled(r: Result<ResponseView, StepView>) -> StepView {
    match r {
        Ok(response) => StepView::Answer(response),
        Err(step) => step,
    }
}

fn settle(r: Result<Response, Step>) -> (s: Step)
    ensures
        match r {
            Ok(response) => s@ == StepView::Answer(response@),
            Err(step) => s@ == step@,
        },
{
    match r {
        Ok(response) => Step::Answer(response),
        Err(step) => step,
    }
}

/// How what a request asks of the store is served: the next step, out of the replies so far.
pub open spec fn served(
    replies: Seq<ReplyView>,
    call: CallView,
    request: RequestView,
    skill_path: Seq<char>,
) -> StepView {
    match served_plainly(replies, call, request) {
        Some(r) => settled(r),
        None => match routes::body_value(request.body) {
            Err(m) => StepView::Fail(m),
            Ok(body) => settled(
                served_with_body(
                    replies,
                    call,
                    fields::sender(request.headers),
                    body,
                    skill_path,
                ),
            ),
        },
    }
}

/// Serves what a request asks of the store: gives the next step, out of the replies so far.
pub fn serve(replies: &Vec<Reply>, call: &Call, request: &HttpRequest, skill_path: &str) -> (r: Step)
    requires
        request.body@.len() <= i64::MAX,
    ensures
        r@ == served(replies.deep_view(), call@, request@, skill_path@),
{
    match serve_plainly(replies, call, request) {
        Some(result) => {
            return settle(result);
        },
        None => {},
    }
    match routes::json_body(request) {
        Err(m) => Step::Fail(m),
        Ok(body) => {
            let actor = fields::actor_from_request(request);
            settle(serve_with_body(replies, call, &actor, &body, skill_path))
        },
    }
}

} // verus!
