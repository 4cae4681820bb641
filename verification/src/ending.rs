//! With which status and under which name each operation shows what it did.
use crate::ai_models;
use crate::ai_runs;
use crate::ai_threads;
use crate::ai_turns;
use crate::comments;
use crate::exchange::{ReplyView, ResponseView, StepView};
use crate::fields::ActorView;
use crate::json::JsonView;
use crate::projects;
use crate::relations;
use crate::request::RequestView;
use crate::task_edits;
use vstd::prelude::*;

verus! {

/// Whether a response refuses a request.
pub open spec fn is_refusal(response: ResponseView) -> bool {
    response is Json && (response->Json_0 == 400 || response->Json_0 == 404 || response->Json_0
        == 409)
}

/// Whether an operation that is done shows one value under a name, with a status, unless the request
/// was refused.
pub open spec fn ends(r: Result<ResponseView, StepView>, status: u16, name: Seq<char>) -> bool {
    r matches Ok(response) ==> is_refusal(response) || {
        &&& response is Json
        &&& response->Json_0 == status
        &&& response->Json_1 is Object
        &&& response->Json_1->Object_0.len() == 1
        &&& response->Json_1->Object_0[0].0 == name
    }
}

/// Whether an operation that is done shows nothing, unless the request was refused.
pub open spec fn ends_silently(r: Result<ResponseView, StepView>) -> bool {
    r matches Ok(response) ==> is_refusal(response) || response == ResponseView::Empty(204)
}

/// A task is shown as created, as changed, or not at all once it is deleted; and it is not refused
/// any more once it is stored.
pub proof fn law_task_operations_end(
    replies: Seq<ReplyView>,
    key: Seq<char>,
    body: JsonView,
    actor: ActorView,
    archived: bool,
    at: int,
)
    ensures
        ends(task_edits::task_created(replies, body, actor), 201, "task"@),
        ends(task_edits::task_updated(replies, key, body, actor), 200, "task"@),
        ends(task_edits::task_moved(replies, key, body), 200, "task"@),
        ends(task_edits::task_archived(replies, key, body, archived), 200, "task"@),
        ends_silently(task_edits::task_deleted(replies, key, body)),
        task_edits::shown_task(replies, at, key) matches Ok(response) ==> !is_refusal(response),
{
    reveal(task_edits::task_created);
    reveal(task_edits::task_updated);
    reveal(task_edits::task_moved);
    reveal(task_edits::task_archived);
    reveal(task_edits::task_deleted);
    reveal(task_edits::task_changes);
}

/// A comment is shown as created or as changed, an attachment as created, and neither once it is
/// deleted.
pub proof fn law_comment_operations_end(
    replies: Seq<ReplyView>,
    key: Seq<char>,
    body: JsonView,
    actor: ActorView,
    at: int,
    comment_id: Option<Seq<char>>,
    request: RequestView,
    status: u16,
)
    ensures
        ends(comments::comment_created(replies, key, body, actor), 201, "comment"@),
        ends(comments::comment_updated(replies, key, body), 200, "comment"@),
        ends_silently(comments::comment_deleted(replies, key, body)),
        ends(
            comments::attachment_created(replies, at, key, comment_id, request),
            201,
            "attachment"@,
        ),
        ends_silently(comments::attachment_deleted(replies, key)),
{
}

/// A project is shown as created or as archived, and not once it is deleted; a workflow is shown as
/// stored.
pub proof fn law_project_operations_end(replies: Seq<ReplyView>, id: Seq<char>, body: JsonView)
    ensures
        ends(projects::project_created(replies, body), 201, "project"@),
        ends(projects::project_archived(replies, id), 200, "project"@),
        ends_silently(projects::project_deleted(replies, id)),
        ends(projects::workflow_saved(replies, id, body), 200, "workflow"@),
{
}

/// A thread is shown as created or as changed, and not once it is deleted; a run is shown as
/// accepted when it was started, and as it is when it was interrupted.
pub proof fn law_thread_operations_end(
    replies: Seq<ReplyView>,
    id: Seq<char>,
    body: JsonView,
    skill_path: Seq<char>,
)
    ensures
        ends(ai_threads::thread_created(replies, body), 201, "thread"@),
        ends(ai_threads::thread_updated(replies, id, body), 200, "thread"@),
        ends_silently(ai_threads::thread_deleted(replies, id)),
        ends(ai_turns::turn_requested(replies, id, body, skill_path), 202, "run"@),
        ends(ai_runs::run_interrupted(replies, id), 200, "run"@),
{
}

/// What is shown of a changed relation are both tasks, and of a thread its events and its runs with
/// it.
pub proof fn law_more_than_one_value_is_shown(
    replies: Seq<ReplyView>,
    id: Seq<char>,
    relation_type: Seq<char>,
    other: Seq<char>,
    body: JsonView,
    adding: bool,
)
    ensures
        relations::relation_changed(replies, id, relation_type, other, body, adding) matches Ok(
            response,
        ) ==> is_refusal(response) || {
            &&& response is Json && response->Json_0 == 200 && response->Json_1 is Object
            &&& response->Json_1->Object_0.len() == 2
            &&& response->Json_1->Object_0[0].0 == "task"@
            &&& response->Json_1->Object_0[1].0 == "relatedTask"@
        },
        ai_threads::snapshot_shown(replies, id) matches Ok(response) ==> is_refusal(response) || {
            &&& response is Json && response->Json_0 == 200 && response->Json_1 is Object
            &&& response->Json_1->Object_0.len() == 3
            &&& response->Json_1->Object_0[0].0 == "thread"@
            &&& response->Json_1->Object_0[1].0 == "events"@
            &&& response->Json_1->Object_0[2].0 == "runs"@
        },
        ai_models::catalog_shown(replies, id) matches Ok(response) ==> is_refusal(response) || {
            &&& response is Json && response->Json_0 == 200 && response->Json_1 is Object
            &&& response->Json_1->Object_0.len() == 3
            &&& response->Json_1->Object_0[0].0 == "models"@
            &&& response->Json_1->Object_0[1].0 == "skills"@
            &&& response->Json_1->Object_0[2].0 == "sandboxes"@
        },
{
}

} // verus!
