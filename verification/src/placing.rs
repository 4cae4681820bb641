//! Where tasks are placed, and what is written when they move, are archived or go.
use crate::exchange::{ActionView, ReplyView, ResponseView, SqlView, StatementView, StepView};
use crate::fields::ActorView;
use crate::json;
use crate::json::JsonView;
use crate::sending;
use crate::store;
use crate::task_edits;
use crate::tasks;
use vstd::prelude::*;

verus! {

/// A new task whose place is not named is placed behind the tasks of its project and its status that
/// are not archived: the greatest place among these is asked for.
pub proof fn law_new_task_is_placed_behind_its_likes(
    replies: Seq<ReplyView>,
    body: JsonView,
    actor: ActorView,
    q: StatementView,
)
    requires
        task_edits::task_created(replies, body, actor) == Err::<ResponseView, StepView>(
            StepView::Ask(ActionView::NextSortOrder(q)),
        ),
    ensures
        q.sql
            == "SELECT COALESCE(MAX(sort_order), 0) FROM tasks WHERE project_id = ?1 AND status = ?2 AND archived_at IS NULL"@,
        q.params.len() == 2,
        q.params[0] is Text && (sending::is_said(
            body,
            "projectId"@,
            64,
            Some(q.params[0]->Text_0),
        ) || (sending::is_said(body, "projectId"@, 64, None) && q.params[0]->Text_0 == "local"@)),
        q.params[1] == SqlView::Text(
            match json::text_field(body, "status"@) {
                Some(s) => s,
                None => "backlog"@,
            },
        ),
        !(json::field(body, "sortOrder"@) is Some && (json::field(body, "sortOrder"@)->0 is Integer
            || json::field(body, "sortOrder"@)->0 is Real || json::field(body, "sortOrder"@)->0
            is Unsigned)),
{
    reveal(task_edits::task_created);
    sending::law_text_is_read_as_said(body, "projectId"@, 64);
}

/// A task that moves without a named place is placed behind the other tasks of the project and the
/// status that it moves to.
pub proof fn law_moved_task_is_placed_behind_its_likes(
    replies: Seq<ReplyView>,
    key: Seq<char>,
    body: JsonView,
    q: StatementView,
)
    requires
        task_edits::task_moved(replies, key, body) == Err::<ResponseView, StepView>(
            StepView::Ask(ActionView::NextSortOrder(q)),
        ),
    ensures
        ({
            let task = tasks::task_at(replies, 0, key);
            &&& task is Ok && (task->Ok_0).0 is Some
            &&& q.sql
                == "SELECT COALESCE(MAX(sort_order), 0) FROM tasks WHERE project_id = ?1 AND status = ?2 AND archived_at IS NULL AND id != ?3"@
            &&& q.params.len() == 3
            &&& is_destination(body, (task->Ok_0).0->0, q.params[0])
            &&& json::text_field(body, "status"@) is Some && q.params[1] == SqlView::Text(
                json::text_field(body, "status"@)->0,
            )
            &&& json::text_field((task->Ok_0).0->0, "id"@) is Some && q.params[2] == SqlView::Text(
                json::text_field((task->Ok_0).0->0, "id"@)->0,
            )
        }),
{
    reveal(task_edits::task_moved);
    sending::law_text_is_read_as_said(body, "projectId"@, 64);
}

/// Whether a value names the project to which a body moves a task: the one that is said, or else the
/// one that the task is in.
pub open spec fn is_destination(body: JsonView, task: JsonView, project: SqlView) -> bool {
    &&& project is Text
    &&& {
        ||| sending::is_said(body, "projectId"@, 64, Some(project->Text_0))
        ||| sending::is_said(body, "projectId"@, 64, None) && (json::text_field(task, "projectId"@)
            == Some(project->Text_0) || json::text_field(task, "projectId"@) is None)
    }
}

/// The end of what changes a task names it by its identifier and the version that the body names.
pub open spec fn names_task(w: StatementView, task: JsonView, body: JsonView, at: int) -> bool {
    &&& w.params.len() == at + 2
    &&& json::text_field(task, "id"@) is Some
    &&& w.params[at] == SqlView::Text(json::text_field(task, "id"@)->0)
    &&& json::integer_field(body, "version"@) is Some
    &&& w.params[at + 1] == SqlView::Integer(json::integer_field(body, "version"@)->0)
    &&& json::integer_field(task, "version"@) == json::integer_field(body, "version"@)
}

/// A task is moved to the project and the status that the body says, to the place that it names or
/// that was told; a thread is kept unless another is named. It is moved only in the version that is
/// named, and where it is not archived.
pub proof fn law_move_is_written_as_said(
    replies: Seq<ReplyView>,
    key: Seq<char>,
    body: JsonView,
    w: StatementView,
)
    requires
        task_edits::task_moved(replies, key, body) == Err::<ResponseView, StepView>(
            StepView::Ask(ActionView::Write(w)),
        ),
    ensures
        ({
            let read = tasks::task_at(replies, 0, key);
            let task = (read->Ok_0).0->0;
            &&& read is Ok && (read->Ok_0).0 is Some
            &&& w.sql
                == "UPDATE tasks SET project_id = ?1, status = ?2, sort_order = ?3, thread_id = COALESCE(?4, thread_id), version = version + 1, updated_at = ?5 WHERE id = ?6 AND version = ?7"@
            &&& names_task(w, task, body, 5)
            &&& is_destination(body, task, w.params[0])
            &&& json::text_field(body, "status"@) is Some && w.params[1] == SqlView::Text(
                json::text_field(body, "status"@)->0,
            )
            &&& w.params[2] is Real
            &&& w.params[3] == sending::cell(sending::held(w.params[3])) && sending::is_said(
                body,
                "threadId"@,
                256,
                sending::held(w.params[3]),
            )
            &&& w.params[4] is Text
            &&& json::absent(task, "archivedAt"@)
        }),
{
    reveal(task_edits::task_moved);
    sending::law_text_is_read_as_said(body, "projectId"@, 64);
    sending::law_text_is_read_as_said(body, "threadId"@, 256);
}

/// A task is archived at the time of the request, and restored by taking that time away, in the
/// version that is named; a thread is kept unless another is named.
pub proof fn law_archiving_is_written_as_said(
    replies: Seq<ReplyView>,
    key: Seq<char>,
    body: JsonView,
    archived: bool,
    w: StatementView,
)
    requires
        task_edits::task_archived(replies, key, body, archived) == Err::<ResponseView, StepView>(
            StepView::Ask(ActionView::Write(w)),
        ),
    ensures
        ({
            let read = tasks::task_at(replies, 0, key);
            let task = (read->Ok_0).0->0;
            &&& read is Ok && (read->Ok_0).0 is Some
            &&& w.sql
                == "UPDATE tasks SET archived_at = ?1, thread_id = COALESCE(?2, thread_id), version = version + 1, updated_at = ?3 WHERE id = ?4 AND version = ?5"@
            &&& names_task(w, task, body, 3)
            &&& w.params[2] is Text
            &&& w.params[0] == if archived {
                w.params[2]
            } else {
                SqlView::Null
            }
            &&& w.params[1] == sending::cell(sending::held(w.params[1])) && sending::is_said(
                body,
                "threadId"@,
                256,
                sending::held(w.params[1]),
            )
            &&& !archived ==> !json::absent(task, "archivedAt"@)
        }),
{
    reveal(task_edits::task_archived);
    sending::law_text_is_read_as_said(body, "threadId"@, 256);
}

/// A task is deleted in the version that is named, and then the files of the attachments that were
/// found for it are removed.
pub proof fn law_deletion_is_written_as_said(
    replies: Seq<ReplyView>,
    key: Seq<char>,
    body: JsonView,
    action: ActionView,
)
    requires
        task_edits::task_deleted(replies, key, body) == Err::<ResponseView, StepView>(
            StepView::Ask(action),
        ),
    ensures
        ({
            let read = tasks::task_at(replies, 0, key);
            let task = (read->Ok_0).0->0;
            &&& action is Write ==> {
                &&& read is Ok && (read->Ok_0).0 is Some
                &&& action->Write_0.sql == "DELETE FROM tasks WHERE id = ?1 AND version = ?2"@
                &&& names_task(action->Write_0, task, body, 0)
            }
            &&& action is RemoveAttachments ==> {
                &&& read is Ok && (read->Ok_0).0 is Some
                &&& replies.len() > 2 && replies[2] is Tables
                &&& store::first_texts(replies[2]->Tables_0[0]) == Ok::<Seq<Seq<char>>, Seq<char>>(
                    action->RemoveAttachments_0,
                )
            }
            &&& replies.len() == 2 && read is Ok && (read->Ok_0).0 is Some ==> action
                == ActionView::Read(
                seq![
                    StatementView {
                        sql: "SELECT id FROM attachments WHERE task_id = ?1"@,
                        params: seq![SqlView::Text(json::text_field(task, "id"@)->0)],
                    },
                ],
            )
        }),
{
    reveal(task_edits::task_deleted);
    let read = tasks::task_at(replies, 0, key);
    if read is Ok && (read->Ok_0).0 is Some {
        let id = json::text_field((read->Ok_0).0->0, "id"@)->0;
        assert(store::params().push(store::text_param(id)) =~= seq![SqlView::Text(id)]);
    }
}

} // verus!
