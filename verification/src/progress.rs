//! That every request is served in the end, and that reading changes nothing.
use crate::ai_runs;
use crate::ai_runs::EventView;
use crate::ai_threads;
use crate::ai_turns;
use crate::ai_turns::{AiAttachmentView, AiTurnView};
use crate::comments;
use crate::exchange::{ActionView, CodexStartView, ReplyView, StepView};
use crate::fields;
use crate::fields::ActorView;
use crate::json::JsonView;
use crate::projects;
use crate::relations;
use crate::request::RequestView;
use crate::routes;
use crate::routes::{CallView, RouteView};
use crate::service;
use crate::task_edits;
use crate::tasks;
use vstd::prelude::*;

verus! {

/// Whether a handler waits for a reply.
pub open spec fn waits<V>(r: Result<V, StepView>) -> bool {
    match r {
        Err(StepView::Ask(_)) => true,
        _ => false,
    }
}

/// Whether what is read from a place on takes so many replies at most.
pub open spec fn takes<V>(
    replies: Seq<ReplyView>,
    at: int,
    count: int,
    r: Result<(V, int), StepView>,
) -> bool {
    &&& replies.len() >= at + count ==> !waits(r)
    &&& r is Ok ==> at <= (r->Ok_0).1 <= at + count
}

proof fn lemma_task_takes(replies: Seq<ReplyView>, at: int, id: Seq<char>)
    ensures
        takes(replies, at, 2, tasks::task_at(replies, at, id)),
{
}

proof fn lemma_thread_takes(replies: Seq<ReplyView>, at: int, id: Seq<char>)
    ensures
        takes(replies, at, 2, ai_threads::thread_at(replies, at, id)),
{
}

proof fn lemma_comment_takes(replies: Seq<ReplyView>, at: int, id: Seq<char>)
    ensures
        takes(replies, at, 2, comments::comment_at(replies, at, id)),
{
}

proof fn lemma_run_creation_takes(replies: Seq<ReplyView>, at: int, thread_id: Seq<char>)
    ensures
        takes(replies, at, 7, ai_runs::run_created(replies, at, thread_id)),
{
}

proof fn lemma_run_update_takes(
    replies: Seq<ReplyView>,
    at: int,
    run_id: Seq<char>,
    status: Seq<char>,
    exit_code: Option<i32>,
    error: Option<Seq<char>>,
    finished_at: Option<Seq<char>>,
)
    ensures
        takes(
            replies,
            at,
            6,
            ai_runs::run_updated(replies, at, run_id, status, exit_code, error, finished_at),
        ),
{
}

proof fn lemma_event_takes(
    replies: Seq<ReplyView>,
    at: int,
    thread_id: Seq<char>,
    run_id: Option<Seq<char>>,
    event: EventView,
)
    ensures
        takes(replies, at, 4, ai_runs::event_inserted(replies, at, thread_id, run_id, event)),
{
}

proof fn lemma_files_take(
    replies: Seq<ReplyView>,
    at: int,
    attachments: Seq<AiAttachmentView>,
)
    ensures
        takes(replies, at, 2, ai_turns::files_written(replies, at, attachments)),
{
}

proof fn lemma_task_creation_ends(replies: Seq<ReplyView>, body: JsonView, actor: ActorView)
    requires
        replies.len() >= 8,
    ensures
        !waits(task_edits::task_created(replies, body, actor)),
{
    reveal(task_edits::task_created);
}

proof fn lemma_task_update_ends(
    replies: Seq<ReplyView>,
    id: Seq<char>,
    body: JsonView,
    actor: ActorView,
)
    requires
        replies.len() >= 6,
    ensures
        !waits(task_edits::task_updated(replies, id, body, actor)),
{
    reveal(task_edits::task_updated);
    lemma_task_takes(replies, 0, id);
}

proof fn lemma_task_move_ends(replies: Seq<ReplyView>, id: Seq<char>, body: JsonView)
    requires
        replies.len() >= 8,
    ensures
        !waits(task_edits::task_moved(replies, id, body)),
{
    reveal(task_edits::task_moved);
    lemma_task_takes(replies, 0, id);
}

proof fn lemma_task_archive_ends(
    replies: Seq<ReplyView>,
    id: Seq<char>,
    body: JsonView,
    archived: bool,
)
    requires
        replies.len() >= 6,
    ensures
        !waits(task_edits::task_archived(replies, id, body, archived)),
{
    reveal(task_edits::task_archived);
    lemma_task_takes(replies, 0, id);
}

proof fn lemma_task_deletion_ends(replies: Seq<ReplyView>, id: Seq<char>, body: JsonView)
    requires
        replies.len() >= 5,
    ensures
        !waits(task_edits::task_deleted(replies, id, body)),
{
    reveal(task_edits::task_deleted);
    lemma_task_takes(replies, 0, id);
}

proof fn lemma_relation_change_ends(
    replies: Seq<ReplyView>,
    id: Seq<char>,
    relation_type: Seq<char>,
    related_id: Seq<char>,
    body: JsonView,
    adding: bool,
)
    requires
        replies.len() >= 14,
    ensures
        !waits(relations::relation_changed(replies, id, relation_type, related_id, body, adding)),
{
    lemma_task_takes(replies, 0, id);
    let pair = relations::pair_at(replies, id, related_id, body);
    assert(takes(replies, 0, 4, pair)) by {
        let task = tasks::task_at(replies, 0, id);
        if task is Ok {
            lemma_task_takes(replies, (task->Ok_0).1, related_id);
        }
    }
    if pair is Ok {
        let (tasks, at) = pair->Ok_0;
        let stored = relations::endpoints(relation_type, tasks.task_id, tasks.related_task_id);
        if stored is Ok {
            let written = relations::relation_written(replies, at, stored->Ok_0, tasks, adding);
            assert(!waits(written) && (written is Ok ==> at <= written->Ok_0 <= at + 4));
            if written is Ok {
                lemma_relation_shown_ends(replies, written->Ok_0, tasks, body);
            }
        }
    }
}

proof fn lemma_relation_shown_ends(
    replies: Seq<ReplyView>,
    at: int,
    pair: relations::PairView,
    body: JsonView,
)
    requires
        replies.len() >= at + 6,
    ensures
        !waits(relations::relation_shown(replies, at, pair, body)),
{
    lemma_task_takes(replies, at + 2, pair.task_id);
    let task = tasks::task_at(replies, at + 2, pair.task_id);
    if task is Ok {
        lemma_task_takes(replies, (task->Ok_0).1, pair.related_task_id);
    }
}

proof fn lemma_comment_creation_ends(
    replies: Seq<ReplyView>,
    task_id: Seq<char>,
    body: JsonView,
    actor: ActorView,
)
    requires
        replies.len() >= 7,
    ensures
        !waits(comments::comment_created(replies, task_id, body, actor)),
{
    lemma_task_takes(replies, 0, task_id);
}

proof fn lemma_comment_update_ends(replies: Seq<ReplyView>, id: Seq<char>, body: JsonView)
    requires
        replies.len() >= 6,
    ensures
        !waits(comments::comment_updated(replies, id, body)),
{
    lemma_comment_takes(replies, 0, id);
}

proof fn lemma_comment_deletion_ends(replies: Seq<ReplyView>, id: Seq<char>, body: JsonView)
    requires
        replies.len() >= 5,
    ensures
        !waits(comments::comment_deleted(replies, id, body)),
{
    lemma_comment_takes(replies, 0, id);
}

proof fn lemma_attaching_ends(
    replies: Seq<ReplyView>,
    at: int,
    task_id: Seq<char>,
    comment_id: Option<Seq<char>>,
    request: RequestView,
)
    requires
        0 <= at,
        replies.len() >= at + 9,
    ensures
        !waits(comments::attachment_created(replies, at, task_id, comment_id, request)),
{
    lemma_task_takes(replies, at, task_id);
    let task = tasks::task_at(replies, at, task_id);
    if task is Ok && comment_id is Some {
        lemma_comment_takes(replies, (task->Ok_0).1, comment_id->0);
    }
}

proof fn lemma_comment_attaching_ends(replies: Seq<ReplyView>, id: Seq<char>, request: RequestView)
    requires
        replies.len() >= 11,
    ensures
        !waits(service::attached_to_comment(replies, id, request)),
{
    lemma_comment_takes(replies, 0, id);
    let comment = comments::comment_at(replies, 0, id);
    if comment is Ok && (comment->Ok_0).0 is Some {
        let task_id = fields::member_text((comment->Ok_0).0->0, "taskId"@);
        if task_id is Ok {
            lemma_attaching_ends(replies, (comment->Ok_0).1, task_id->Ok_0, Some(id), request);
        }
    }
}

proof fn lemma_project_changes_end(
    replies: Seq<ReplyView>,
    id: Seq<char>,
    body: JsonView,
)
    requires
        replies.len() >= 6,
    ensures
        !waits(projects::project_created(replies, body)),
        !waits(projects::project_archived(replies, id)),
        !waits(projects::project_deleted(replies, id)),
        !waits(projects::workflow_saved(replies, id, body)),
{
}

proof fn lemma_thread_creation_ends(replies: Seq<ReplyView>, body: JsonView)
    requires
        replies.len() >= 10,
    ensures
        !waits(ai_threads::thread_created(replies, body)),
{
    let issue_id = fields::text_of(body, "issueId"@, 128);
    if issue_id is Ok && issue_id->Ok_0 is Some {
        lemma_task_takes(replies, 2, (issue_id->Ok_0)->0);
    }
}

proof fn lemma_thread_changes_end(replies: Seq<ReplyView>, id: Seq<char>, body: JsonView)
    requires
        replies.len() >= 6,
    ensures
        !waits(ai_threads::thread_updated(replies, id, body)),
        !waits(ai_threads::thread_deleted(replies, id)),
{
    lemma_thread_takes(replies, 0, id);
}

proof fn lemma_interruption_ends(replies: Seq<ReplyView>, run_id: Seq<char>)
    requires
        replies.len() >= 9,
    ensures
        !waits(ai_runs::run_interrupted(replies, run_id)),
{
    let finished_at = crate::store::now_at(replies, 2);
    if finished_at is Ok {
        lemma_run_update_takes(
            replies,
            3,
            run_id,
            "interrupted"@,
            None,
            Some("Interrupted"@),
            Some(finished_at->Ok_0),
        );
    }
}

proof fn lemma_failed_start_ends(
    replies: Seq<ReplyView>,
    at: int,
    thread_id: Seq<char>,
    run_id: Seq<char>,
    message: Seq<char>,
    directory: Option<Seq<char>>,
)
    requires
        0 <= at,
        replies.len() >= at + 12,
    ensures
        ({
            let r = ai_turns::start_failed(replies, at, thread_id, run_id, message, directory);
            !waits(r) && (r is Ok ==> at <= r->Ok_0 <= at + 12)
        }),
{
    let event = ai_turns::error_event(message);
    lemma_event_takes(replies, at, thread_id, Some(run_id), event);
    let noted = ai_runs::event_inserted(replies, at, thread_id, Some(run_id), event);
    if noted is Ok {
        let next = (noted->Ok_0).1;
        let finished_at = crate::store::now_at(replies, next);
        if finished_at is Ok {
            lemma_run_update_takes(
                replies,
                next + 1,
                run_id,
                "failed"@,
                None,
                Some(message),
                Some(finished_at->Ok_0),
            );
        }
    }
}

proof fn lemma_launch_ends(
    replies: Seq<ReplyView>,
    at: int,
    thread_id: Seq<char>,
    run_id: Seq<char>,
    start: Option<CodexStartView>,
    directory: Option<Seq<char>>,
)
    requires
        0 <= at,
        replies.len() >= at + 14,
    ensures
        !waits(ai_turns::turn_launched(replies, at, thread_id, run_id, start, directory)),
{
    let started = ai_turns::codex_started(replies, at, start);
    assert(takes(replies, at, 1, started));
    if started is Ok && (started->Ok_0).0 is Some {
        let (message, next) = started->Ok_0;
        lemma_failed_start_ends(replies, next, thread_id, run_id, message->0, directory);
    }
}

proof fn lemma_turn_start_ends(
    replies: Seq<ReplyView>,
    at: int,
    thread_id: Seq<char>,
    thread: JsonView,
    input: AiTurnView,
    skill_path: Seq<char>,
)
    requires
        0 <= at,
        replies.len() >= at + 27,
    ensures
        !waits(ai_turns::turn_started(replies, at, thread_id, thread, input, skill_path)),
{
    lemma_files_take(replies, at, input.attachments);
    let files = ai_turns::files_written(replies, at, input.attachments);
    if files is Ok {
        let (written, filed) = files->Ok_0;
        lemma_run_creation_takes(replies, filed, thread_id);
        let run = ai_runs::run_created(replies, filed, thread_id);
        let told = ai_turns::prompt(
            thread,
            input.message,
            written.attachment_paths,
            skill_path,
        );
        let args = ai_turns::codex_args(thread, written.image_paths);
        if run is Ok && told is Ok && args is Ok {
            let created = (run->Ok_0).1;
            let run_id = fields::member_text((run->Ok_0).0, "id"@);
            if run_id is Ok {
                let id = run_id->Ok_0;
                let event = ai_turns::message_event(input);
                lemma_event_takes(replies, created, thread_id, Some(id), event);
                let noted = ai_runs::event_inserted(replies, created, thread_id, Some(id), event);
                if noted is Ok {
                    let start = ai_turns::start_of(
                        thread,
                        args->Ok_0,
                        told->Ok_0,
                        id,
                        thread_id,
                        written.directory,
                    );
                    lemma_launch_ends(
                        replies,
                        (noted->Ok_0).1,
                        thread_id,
                        id,
                        start,
                        written.directory,
                    );
                }
            }
        }
    }
}

proof fn lemma_turn_ends(
    replies: Seq<ReplyView>,
    thread_id: Seq<char>,
    body: JsonView,
    skill_path: Seq<char>,
)
    requires
        replies.len() >= 29,
    ensures
        !waits(ai_turns::turn_requested(replies, thread_id, body, skill_path)),
{
    lemma_thread_takes(replies, 0, thread_id);
    let resting = ai_threads::resting_thread(replies, thread_id);
    let input = ai_turns::turn_input(body);
    if resting is Ok && input is Ok {
        let (thread, next) = resting->Ok_0;
        lemma_turn_start_ends(replies, next, thread_id, thread, input->Ok_0, skill_path);
    }
}

proof fn lemma_reading_ends(replies: Seq<ReplyView>, call: CallView, request: RequestView)
    requires
        replies.len() >= 4,
        routes::is_reading_call(call),
    ensures
        service::served_plainly(replies, call, request) is Some,
        !waits(service::served_plainly(replies, call, request)->0),
{
    if let CallView::ShowTask(id) = call {
        lemma_task_takes(replies, 0, id);
    }
    if let CallView::ShowThread(id) = call {
        lemma_thread_takes(replies, 0, id);
    }
    if let CallView::OpenStream(id) = call {
        lemma_thread_takes(replies, 0, id);
    }
}

/// The number of replies with which every request is served.
pub const ENOUGH: usize = 29;

proof fn lemma_plain_calls_end(replies: Seq<ReplyView>, call: CallView, request: RequestView)
    requires
        replies.len() >= ENOUGH,
        service::served_plainly(replies, call, request) is Some,
    ensures
        !waits(service::served_plainly(replies, call, request)->0),
{
    if routes::is_reading_call(call) {
        lemma_reading_ends(replies, call, request);
    } else {
        match call {
            CallView::ArchiveProject(id) => {
                lemma_project_changes_end(replies, id, JsonView::Null);
            },
            CallView::DeleteProject(id) => {
                lemma_project_changes_end(replies, id, JsonView::Null);
            },
            CallView::AttachToTask(id) => {
                lemma_attaching_ends(replies, 0, id, None, request);
            },
            CallView::AttachToComment(id) => {
                lemma_comment_attaching_ends(replies, id, request);
            },
            CallView::DeleteThread(id) => {
                lemma_thread_changes_end(replies, id, JsonView::Null);
            },
            CallView::InterruptRun(id) => {
                lemma_interruption_ends(replies, id);
            },
            _ => {},
        }
    }
}

proof fn lemma_body_calls_end(
    replies: Seq<ReplyView>,
    call: CallView,
    actor: ActorView,
    body: JsonView,
    skill_path: Seq<char>,
)
    requires
        replies.len() >= ENOUGH,
    ensures
        !waits(service::served_with_body(replies, call, actor, body, skill_path)),
{
    match call {
        CallView::CreateTask => {
            lemma_task_creation_ends(replies, body, actor);
        },
        CallView::UpdateTask(id) => {
            lemma_task_update_ends(replies, id, body, actor);
        },
        CallView::MoveTask(id) => {
            lemma_task_move_ends(replies, id, body);
        },
        CallView::ArchiveTask(id) => {
            lemma_task_archive_ends(replies, id, body, true);
        },
        CallView::RestoreTask(id) => {
            lemma_task_archive_ends(replies, id, body, false);
        },
        CallView::DeleteTask(id) => {
            lemma_task_deletion_ends(replies, id, body);
        },
        CallView::AddRelation(id, kind, related) => {
            lemma_relation_change_ends(replies, id, kind, related, body, true);
        },
        CallView::RemoveRelation(id, kind, related) => {
            lemma_relation_change_ends(replies, id, kind, related, body, false);
        },
        CallView::CreateComment(id) => {
            lemma_comment_creation_ends(replies, id, body, actor);
        },
        CallView::UpdateComment(id) => {
            lemma_comment_update_ends(replies, id, body);
        },
        CallView::DeleteComment(id) => {
            lemma_comment_deletion_ends(replies, id, body);
        },
        CallView::CreateProject => {
            lemma_project_changes_end(replies, Seq::empty(), body);
        },
        CallView::SaveWorkflow(id) => {
            lemma_project_changes_end(replies, id, body);
        },
        CallView::CreateThread => {
            lemma_thread_creation_ends(replies, body);
        },
        CallView::UpdateThread(id) => {
            lemma_thread_changes_end(replies, id, body);
        },
        CallView::StartTurn(id) => {
            lemma_turn_ends(replies, id, body, skill_path);
        },
        _ => {},
    }
}

/// Every request comes to an end: whatever it asks for and however the replies turn out, with
/// enough of them it is answered or fails.
pub proof fn law_every_request_comes_to_an_end(
    replies: Seq<ReplyView>,
    call: CallView,
    request: RequestView,
    skill_path: Seq<char>,
)
    requires
        replies.len() >= ENOUGH,
    ensures
        !(service::served(replies, call, request, skill_path) is Ask),
{
    if service::served_plainly(replies, call, request) is Some {
        lemma_plain_calls_end(replies, call, request);
    } else {
        let body = routes::body_value(request.body);
        if body is Ok {
            let actor = fields::sender(request.headers);
            lemma_body_calls_end(replies, call, actor, body->Ok_0, skill_path);
        }
    }
}

/// Whether an action only looks at what is there.
pub open spec fn only_looks(action: ActionView) -> bool {
    action is Read || action is IsDirectory || action is ReadSettings || action is ReadAttachment
}

/// A request with a method that only reads changes nothing: whatever it leads to, and whatever the
/// replies are, nothing is asked for but a look at what is there.
pub proof fn law_reading_requests_change_nothing(
    replies: Seq<ReplyView>,
    request: RequestView,
    skill_path: Seq<char>,
    call: CallView,
)
    requires
        crate::pages::is_reading(request.method),
        routes::route_of(request, skill_path) == Ok::<RouteView, Seq<char>>(
            RouteView::Store(call),
        ),
    ensures
        match service::served(replies, call, request, skill_path) {
            StepView::Ask(action) => only_looks(action),
            _ => true,
        },
{
    routes::law_reading_methods_lead_to_reading(request, skill_path);
}

} // verus!
