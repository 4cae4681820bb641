//! By what each call is served, and under which name it shows what it found.
use crate::ai_models;
use crate::ai_runs;
use crate::ai_threads;
use crate::ai_turns;
use crate::comments;
use crate::exchange::{ReplyView, ResponseView, StepView};
use crate::fields;
use crate::json;
use crate::json::JsonView;
use crate::projects;
use crate::relations;
use crate::request::RequestView;
use crate::routes::CallView;
use crate::service;
use crate::task_edits;
use crate::tasks;
use vstd::prelude::*;

verus! {

/// The answer that shows one value under a name.
pub open spec fn shows(name: Seq<char>, value: JsonView) -> StepView {
    StepView::Answer(
        ResponseView::Json(200, JsonView::Object(json::members().push((name, value)))),
    )
}

/// Whether a call comes to a step.
pub open spec fn comes_to(
    replies: Seq<ReplyView>,
    call: CallView,
    request: RequestView,
    skill_path: Seq<char>,
    step: StepView,
) -> bool {
    service::served(replies, call, request, skill_path) == step
}

/// Whether a call that lists values does so under a name, and fails as the reading of the values
/// does.
pub open spec fn lists(
    replies: Seq<ReplyView>,
    call: CallView,
    request: RequestView,
    skill_path: Seq<char>,
    name: Seq<char>,
    values: Result<Seq<JsonView>, StepView>,
) -> bool {
    match values {
        Ok(values) => comes_to(
            replies,
            call,
            request,
            skill_path,
            shows(name, JsonView::Array(values)),
        ),
        Err(step) => comes_to(replies, call, request, skill_path, step),
    }
}

/// Whether a call is served as a handler does it.
pub open spec fn is_served(
    replies: Seq<ReplyView>,
    call: CallView,
    request: RequestView,
    skill_path: Seq<char>,
    handled: Result<ResponseView, StepView>,
) -> bool {
    match handled {
        Ok(response) => comes_to(
            replies,
            call,
            request,
            skill_path,
            StepView::Answer(response),
        ),
        Err(step) => comes_to(replies, call, request, skill_path, step),
    }
}

/// What is listed is listed under its own name: the projects, the tasks that the query asks for, the
/// comments and the files of a task, the files of a comment, and the threads.
pub proof fn law_lists_have_their_names(
    replies: Seq<ReplyView>,
    request: RequestView,
    skill_path: Seq<char>,
    id: Seq<char>,
)
    ensures
        lists(
            replies,
            CallView::ListProjects,
            request,
            skill_path,
            "projects"@,
            projects::projects_at(replies, 0),
        ),
        lists(
            replies,
            CallView::ListTasks,
            request,
            skill_path,
            "tasks"@,
            tasks::tasks_at(replies, 0, request.query),
        ),
        lists(
            replies,
            CallView::ListComments(id),
            request,
            skill_path,
            "comments"@,
            comments::comments_at(replies, 0, id),
        ),
        lists(
            replies,
            CallView::ListTaskAttachments(id),
            request,
            skill_path,
            "attachments"@,
            comments::attachments_at(replies, 0, "SELECT * FROM attachments WHERE task_id = ?1 AND comment_id IS NULL ORDER BY created_at, id"@, id),
        ),
        lists(
            replies,
            CallView::ListCommentAttachments(id),
            request,
            skill_path,
            "attachments"@,
            comments::attachments_at(replies, 0, "SELECT * FROM attachments WHERE comment_id = ?1 ORDER BY created_at, id"@, id),
        ),
        lists(
            replies,
            CallView::ListThreads,
            request,
            skill_path,
            "threads"@,
            ai_threads::threads_at(replies),
        ),
{
}

/// A task is shown under its name, and so is the workflow of a project.
pub proof fn law_one_value_has_its_name(
    replies: Seq<ReplyView>,
    request: RequestView,
    skill_path: Seq<char>,
    id: Seq<char>,
)
    ensures
        tasks::task_at(replies, 0, id) matches Ok((Some(task), _)) ==> comes_to(
            replies,
            CallView::ShowTask(id),
            request,
            skill_path,
            shows("task"@, task),
        ),
        tasks::task_at(replies, 0, id) matches Err(step) ==> comes_to(
            replies,
            CallView::ShowTask(id),
            request,
            skill_path,
            step,
        ),
        projects::workflow_at(replies, 0, id) matches Ok(Some(workflow)) ==> comes_to(
            replies,
            CallView::ShowWorkflow(id),
            request,
            skill_path,
            shows("workflow"@, workflow),
        ),
        projects::workflow_at(replies, 0, id) matches Err(step) ==> comes_to(
            replies,
            CallView::ShowWorkflow(id),
            request,
            skill_path,
            step,
        ),
{
}

/// A file that is sent for a comment is added to the task that the comment is on, as a file of that
/// comment; one that is sent for a task is added to it alone.
pub proof fn law_file_is_added_where_it_is_sent(
    replies: Seq<ReplyView>,
    request: RequestView,
    skill_path: Seq<char>,
    id: Seq<char>,
    comment: JsonView,
    next: int,
    task_id: Seq<char>,
)
    ensures
        is_served(
            replies,
            CallView::AttachToTask(id),
            request,
            skill_path,
            comments::attachment_created(replies, 0, id, None, request),
        ),
        comments::comment_at(replies, 0, id) == Ok::<(Option<JsonView>, int), StepView>(
            (Some(comment), next),
        ) && fields::member_text(comment, "taskId"@) == Ok::<Seq<char>, Seq<char>>(
            task_id,
        ) ==> is_served(
            replies,
            CallView::AttachToComment(id),
            request,
            skill_path,
            comments::attachment_created(replies, next, task_id, Some(id), request),
        ),
{
}

/// Each call without a body is served by the handler for what it names, whatever the body holds.
pub proof fn law_calls_without_a_body(
    replies: Seq<ReplyView>,
    request: RequestView,
    skill_path: Seq<char>,
    id: Seq<char>,
)
    ensures
        is_served(
            replies,
            CallView::ArchiveProject(id),
            request,
            skill_path,
            projects::project_archived(replies, id),
        ),
        is_served(
            replies,
            CallView::DeleteProject(id),
            request,
            skill_path,
            projects::project_deleted(replies, id),
        ),
        is_served(
            replies,
            CallView::SendAttachment(id),
            request,
            skill_path,
            comments::content_sent(replies, id),
        ),
        is_served(
            replies,
            CallView::DeleteAttachment(id),
            request,
            skill_path,
            comments::attachment_deleted(replies, id),
        ),
        is_served(
            replies,
            CallView::ShowCatalog(id),
            request,
            skill_path,
            ai_models::catalog_shown(replies, id),
        ),
        is_served(
            replies,
            CallView::ShowThread(id),
            request,
            skill_path,
            ai_threads::snapshot_shown(replies, id),
        ),
        is_served(
            replies,
            CallView::DeleteThread(id),
            request,
            skill_path,
            ai_threads::thread_deleted(replies, id),
        ),
        is_served(
            replies,
            CallView::OpenStream(id),
            request,
            skill_path,
            ai_threads::stream_opened(replies, id),
        ),
        is_served(
            replies,
            CallView::InterruptRun(id),
            request,
            skill_path,
            ai_runs::run_interrupted(replies, id),
        ),
{
}

/// Each change to a task, its relations or its comments is served by the handler for what it names,
/// with the body and with the sender that the headers tell.
pub proof fn law_calls_about_a_task(
    replies: Seq<ReplyView>,
    request: RequestView,
    skill_path: Seq<char>,
    id: Seq<char>,
    relation_type: Seq<char>,
    other: Seq<char>,
    body: JsonView,
)
    requires
        json::json_document(request.body) == Some(body),
    ensures
        ({
            let actor = fields::sender(request.headers);
            &&& is_served(
                replies,
                CallView::CreateTask,
                request,
                skill_path,
                task_edits::task_created(replies, body, actor),
            )
            &&& is_served(
                replies,
                CallView::UpdateTask(id),
                request,
                skill_path,
                task_edits::task_updated(replies, id, body, actor),
            )
            &&& is_served(
                replies,
                CallView::MoveTask(id),
                request,
                skill_path,
                task_edits::task_moved(replies, id, body),
            )
            &&& is_served(
                replies,
                CallView::ArchiveTask(id),
                request,
                skill_path,
                task_edits::task_archived(replies, id, body, true),
            )
            &&& is_served(
                replies,
                CallView::RestoreTask(id),
                request,
                skill_path,
                task_edits::task_archived(replies, id, body, false),
            )
            &&& is_served(
                replies,
                CallView::DeleteTask(id),
                request,
                skill_path,
                task_edits::task_deleted(replies, id, body),
            )
            &&& is_served(
                replies,
                CallView::AddRelation(id, relation_type, other),
                request,
                skill_path,
                relations::relation_changed(replies, id, relation_type, other, body, true),
            )
            &&& is_served(
                replies,
                CallView::RemoveRelation(id, relation_type, other),
                request,
                skill_path,
                relations::relation_changed(replies, id, relation_type, other, body, false),
            )
            &&& is_served(
                replies,
                CallView::CreateComment(id),
                request,
                skill_path,
                comments::comment_created(replies, id, body, actor),
            )
            &&& is_served(
                replies,
                CallView::UpdateComment(id),
                request,
                skill_path,
                comments::comment_updated(replies, id, body),
            )
            &&& is_served(
                replies,
                CallView::DeleteComment(id),
                request,
                skill_path,
                comments::comment_deleted(replies, id, body),
            )
        }),
{
}

/// Each change to a project or a conversation is served by the handler for what it names, with the
/// body.
pub proof fn law_calls_about_projects_and_threads(
    replies: Seq<ReplyView>,
    request: RequestView,
    skill_path: Seq<char>,
    id: Seq<char>,
    body: JsonView,
)
    requires
        json::json_document(request.body) == Some(body),
    ensures
        is_served(
            replies,
            CallView::CreateProject,
            request,
            skill_path,
            projects::project_created(replies, body),
        ),
        is_served(
            replies,
            CallView::SaveWorkflow(id),
            request,
            skill_path,
            projects::workflow_saved(replies, id, body),
        ),
        is_served(
            replies,
            CallView::CreateThread,
            request,
            skill_path,
            ai_threads::thread_created(replies, body),
        ),
        is_served(
            replies,
            CallView::UpdateThread(id),
            request,
            skill_path,
            ai_threads::thread_updated(replies, id, body),
        ),
        is_served(
            replies,
            CallView::StartTurn(id),
            request,
            skill_path,
            ai_turns::turn_requested(replies, id, body, skill_path),
        ),
{
}

/// Whether a body belongs to a call.
pub open spec fn has_body(call: CallView) -> bool {
    match call {
        CallView::CreateProject | CallView::SaveWorkflow(_) | CallView::CreateTask
        | CallView::UpdateTask(_) | CallView::MoveTask(_) | CallView::ArchiveTask(_)
        | CallView::RestoreTask(_) | CallView::DeleteTask(_) | CallView::AddRelation(_, _, _)
        | CallView::RemoveRelation(_, _, _) | CallView::CreateComment(_)
        | CallView::UpdateComment(_) | CallView::DeleteComment(_) | CallView::CreateThread
        | CallView::UpdateThread(_) | CallView::StartTurn(_) => true,
        _ => false,
    }
}

/// A call to which a body belongs fails where the body is not JSON, before anything is asked of the
/// store.
pub proof fn law_body_must_be_json(
    replies: Seq<ReplyView>,
    call: CallView,
    request: RequestView,
    skill_path: Seq<char>,
)
    requires
        has_body(call),
        json::json_document(request.body) is None,
    ensures
        comes_to(replies, call, request, skill_path, StepView::Fail("request body must contain valid JSON"@)),
{
}

} // verus!
