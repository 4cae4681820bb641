//! What is accepted, with its limits: a request is refused for none of its texts that is not too
//! long, and for none of its words that is known.
use crate::ai_models::AiWorkspaceView;
use crate::ai_threads;
use crate::ai_threads::MannerView;
use crate::comments;
use crate::exchange;
use crate::exchange::{ActionView, ReplyView, ResponseView, StepView};
use crate::fields;
use crate::fields::ActorView;
use crate::json;
use crate::json::JsonView;
use crate::projects;
use crate::relations;
use crate::store;
use crate::task_edits;
use crate::task_edits::ChangesView;
use crate::tasks;
use crate::text;
use vstd::prelude::*;
use vstd::utf8::*;

verus! {

/// Whether a member of a body is a text within a limit, once the white space around it is cut off,
/// or is missing or null.
pub open spec fn fits(body: JsonView, key: Seq<char>, limit: nat) -> bool {
    match json::field(body, key) {
        None => true,
        Some(JsonView::Null) => true,
        Some(JsonView::Text(s)) => encode_utf8(text::trimmed(s)).len() <= limit,
        Some(_) => false,
    }
}

/// Whether a member of a body is a text within a limit that is not blank.
pub open spec fn is_filled(body: JsonView, key: Seq<char>, limit: nat) -> bool {
    json::field(body, key) matches Some(JsonView::Text(s)) && text::trimmed(s).len() > 0
        && encode_utf8(text::trimmed(s)).len() <= limit
}

/// Whether a member of a body is missing, or a text within a limit that is not blank.
pub open spec fn may_be_filled(body: JsonView, key: Seq<char>, limit: nat) -> bool {
    json::field(body, key) is None || is_filled(body, key, limit)
}

/// Whether a member of a body is missing or no text, or one of the states of a task.
pub open spec fn has_state(body: JsonView) -> bool {
    json::text_field(body, "status"@) matches Some(s) ==> s == "backlog"@ || s == "todo"@ || s
        == "in_progress"@ || s == "in_review"@ || s == "blocked"@ || s == "done"@ || s
        == "canceled"@
}

/// Whether a member of a body is missing or no text, or one of the priorities of a task.
pub open spec fn has_priority(body: JsonView) -> bool {
    json::text_field(body, "priority"@) matches Some(s) ==> s == "none"@ || s == "urgent"@ || s
        == "high"@ || s == "medium"@ || s == "low"@
}

/// The first fields of a new task are accepted exactly where its title is there and each of them
/// keeps its limit.
pub proof fn law_outline_is_accepted(body: JsonView)
    ensures
        task_edits::outline(body) is Ok <==> {
            &&& is_filled(body, "title"@, 240)
            &&& fits(body, "description"@, 100_000)
            &&& has_state(body)
            &&& has_priority(body)
            &&& fields::labels_of(json::field(body, "labels"@)) is Ok
        },
{
}

/// The last fields of a new task are accepted exactly where each of them is.
pub proof fn law_details_are_accepted(body: JsonView, actor: ActorView)
    ensures
        task_edits::details(body, actor) is Ok <==> {
            &&& fits(body, "threadId"@, 256)
            &&& fields::assignee(body, actor) is Ok
            &&& fits(body, "workflowId"@, 128)
            &&& fields::development(json::field(body, "developmentContext"@)) is Ok
            &&& fields::due(json::field(body, "dueDate"@)) is Ok
            &&& fields::recurring(json::field(body, "recurrence"@)) is Ok
        },
{
}

/// The changes of a task are accepted exactly where each of those that are named is.
pub proof fn law_changes_are_accepted(body: JsonView, actor: ActorView)
    ensures
        task_edits::task_changes(body, actor) is Ok <==> {
            &&& may_be_filled(body, "title"@, 240)
            &&& fits(body, "description"@, 100_000)
            &&& has_state(body)
            &&& has_priority(body)
            &&& fields::labels_of(json::field(body, "labels"@)) is Ok
            &&& fits(body, "workflowId"@, 128)
            &&& fields::development(json::field(body, "developmentContext"@)) is Ok
            &&& fields::due(json::field(body, "dueDate"@)) is Ok
            &&& fields::recurring(json::field(body, "recurrence"@)) is Ok
            &&& fits(body, "threadId"@, 256)
            &&& fields::assignee(body, actor) is Ok
        },
{
    reveal(task_edits::task_changes);
    lemma_outline_changes(body);
    if task_edits::outline_changes(body) is Ok {
        lemma_details_changes(task_edits::outline_changes(body)->Ok_0, body, actor);
    }
}

proof fn lemma_outline_changes(body: JsonView)
    ensures
        task_edits::outline_changes(body) is Ok <==> {
            &&& may_be_filled(body, "title"@, 240)
            &&& fits(body, "description"@, 100_000)
            &&& has_state(body)
            &&& has_priority(body)
            &&& fields::labels_of(json::field(body, "labels"@)) is Ok
        },
{
}

proof fn lemma_details_changes(changes: ChangesView, body: JsonView, actor: ActorView)
    ensures
        task_edits::details_changes(changes, body, actor) is Ok <==> {
            &&& fits(body, "workflowId"@, 128)
            &&& fields::development(json::field(body, "developmentContext"@)) is Ok
            &&& fields::due(json::field(body, "dueDate"@)) is Ok
            &&& fields::recurring(json::field(body, "recurrence"@)) is Ok
            &&& fits(body, "threadId"@, 256)
            &&& fields::assignee(body, actor) is Ok
        },
{
}

/// What a new thread is called and how it runs is accepted exactly where each part keeps its limit
/// and the sandbox is known.
pub proof fn law_manner_is_accepted(
    body: JsonView,
    issue: Option<JsonView>,
    defaults: (Seq<char>, Seq<char>),
)
    ensures
        ai_threads::manner(body, issue, defaults) is Ok <==> {
            &&& fits(body, "title"@, 160)
            &&& fits(body, "model"@, 128)
            &&& fits(body, "reasoningEffort"@, 64)
            &&& fits(body, "sandbox"@, 64)
            &&& json::field(body, "sandbox"@) matches Some(JsonView::Text(s)) ==> {
                let sandbox = text::trimmed(s);
                sandbox == "read-only"@ || sandbox == "workspace-write"@ || sandbox
                    == "danger-full-access"@
            }
        },
{
}

/// The changes of a thread are accepted exactly where each of those that are named is.
pub proof fn law_thread_changes_are_accepted(body: JsonView)
    ensures
        ai_threads::thread_changes(body) is Ok <==> {
            &&& may_be_filled(body, "title"@, 160)
            &&& may_be_filled(body, "model"@, 128)
            &&& may_be_filled(body, "reasoningEffort"@, 64)
            &&& may_be_filled(body, "sandbox"@, 64)
            &&& json::field(body, "sandbox"@) matches Some(JsonView::Text(s)) ==> {
                let sandbox = text::trimmed(s);
                sandbox == "read-only"@ || sandbox == "workspace-write"@ || sandbox
                    == "danger-full-access"@
            }
        },
{
    reveal_strlit("read-only");
    reveal_strlit("workspace-write");
    reveal_strlit("danger-full-access");
}

/// A new thread goes on to its project exactly where that is named, and is written exactly where the
/// identifier of Codex keeps its limit.
pub proof fn law_thread_is_accepted(
    replies: Seq<ReplyView>,
    at: int,
    workspace: AiWorkspaceView,
    issue: Option<JsonView>,
    body: JsonView,
    manner: MannerView,
    id: Seq<char>,
    time: Seq<char>,
)
    requires
        at >= 0,
        replies.len() == at + 2,
        store::id_at(replies, at) == Ok::<Seq<char>, StepView>(id),
        store::now_at(replies, at + 1) == Ok::<Seq<char>, StepView>(time),
    ensures
        !is_filled(body, "projectId"@, 64) <==> ai_threads::thread_created(Seq::empty(), body)
            matches Err(StepView::Fail(_)),
        fits(body, "codexThreadId"@, 256) <==> ai_threads::thread_stored(
            replies,
            at,
            workspace,
            issue,
            body,
            manner,
        ) matches Err(StepView::Ask(_)),
{
}

/// A comment is written, once its task is known, exactly where its text and its thread keep their
/// limits; and so is a change of one.
pub proof fn law_comment_is_accepted(
    replies: Seq<ReplyView>,
    key: Seq<char>,
    body: JsonView,
    actor: ActorView,
    task: JsonView,
    next: int,
    id: Seq<char>,
    time: Seq<char>,
    version: int,
)
    requires
        next >= 0,
    ensures
        ({
            let accepted = fits(body, "body"@, 100_000) && fits(body, "threadId"@, 256);
            &&& tasks::task_at(replies, 0, key) == Ok::<(Option<JsonView>, int), StepView>(
                (Some(task), next),
            ) && json::text_field(task, "id"@) is Some && store::id_at(replies, next) == Ok::<
                Seq<char>,
                StepView,
            >(id) && store::now_at(replies, next + 1) == Ok::<Seq<char>, StepView>(time)
                && replies.len() == next + 2 ==> (accepted <==> comments::comment_created(
                replies,
                key,
                body,
                actor,
            ) matches Err(StepView::Ask(ActionView::Write(_))))
            &&& comments::current_comment(replies, key, body) == Ok::<(int, int), StepView>(
                (version, next),
            ) && replies.len() == next ==> (accepted <==> comments::comment_updated(
                replies,
                key,
                body,
            ) matches Err(StepView::Ask(_)))
        }),
{
}

/// A project is written exactly where its name is there, and its identifier and its directory keep
/// their limits, once the identifier has the form of one.
pub proof fn law_project_is_accepted(body: JsonView)
    ensures
        projects::project_created(Seq::empty(), body) matches Err(StepView::Fail(_)) ==> !(
        is_filled(body, "name"@, 120) && fits(body, "id"@, 64) && fits(
            body,
            "workspacePath"@,
            4096,
        )),
        !is_filled(body, "name"@, 120) || !fits(body, "id"@, 64) ==> projects::project_created(
            Seq::empty(),
            body,
        ) matches Err(StepView::Fail(_)),
{
}

/// A move is refused, once the task is known, for an archived task, and fails where the project or
/// the state that it names cannot be read; a relation fails where its thread cannot.
pub proof fn law_move_and_archiving_are_accepted(
    replies: Seq<ReplyView>,
    key: Seq<char>,
    body: JsonView,
    task: JsonView,
    version: int,
    next: int,
    archived: bool,
    pair: relations::PairView,
    at: int,
)
    requires
        task_edits::current_task(replies, key, body) == Ok::<(JsonView, int, int), StepView>(
            (task, version, next),
        ),
        json::text_field(task, "id"@) is Some,
        replies.len() == next,
    ensures
        ({
            let stays = json::field(task, "archivedAt"@) is None || json::field(task, "archivedAt"@)
                == Some(JsonView::Null);
            &&& !stays ==> task_edits::task_moved(replies, key, body) == Ok::<
                ResponseView,
                StepView,
            >(exchange::refusal(409, "TASK_ARCHIVED"@, "Archived tasks cannot be moved"@))
            &&& stays ==> (fits(body, "projectId"@, 64) <==> task_edits::task_moved(
                replies,
                key,
                body,
            ) matches Err(StepView::Ask(_)))
            &&& stays && !archived ==> task_edits::task_archived(replies, key, body, archived)
                == Ok::<ResponseView, StepView>(
                exchange::refusal(
                    409,
                    "TASK_NOT_ARCHIVED"@,
                    "Only archived tasks can be restored"@,
                ),
            )
            &&& !stays || archived ==> (fits(body, "threadId"@, 256) <==> task_edits::task_archived(
                replies,
                key,
                body,
                archived,
            ) matches Err(StepView::Ask(_)))
        }),
        at >= replies.len() ==> (fits(body, "threadId"@, 256) <==> relations::relation_shown(
            replies,
            at,
            pair,
            body,
        ) matches Err(StepView::Ask(_))),
{
    reveal(task_edits::task_moved);
    reveal(task_edits::task_archived);
}

/// A task is placed exactly where the body names a state of one and its thread keeps its limit.
pub proof fn law_place_is_accepted(
    replies: Seq<ReplyView>,
    at: int,
    id: Seq<char>,
    version: int,
    project_id: Seq<char>,
    body: JsonView,
)
    requires
        at >= replies.len(),
        fields::real_of(json::field(body, "sortOrder"@)) is Some,
    ensures
        json::text_field(body, "status"@) is Some && has_state(body) && fits(body, "threadId"@, 256)
            <==> task_edits::task_placed(replies, at, id, version, project_id, body) matches Err(
            StepView::Ask(_),
        ),
{
}

} // verus!
