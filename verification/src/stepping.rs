//! What operations do step by step, out of the replies so far.
use crate::ai_runs;
use crate::ai_runs::EventView;
use crate::ai_turns;
use crate::asking;
use crate::comments;
use crate::exchange;
use crate::exchange::{ActionView, ReplyView, ResponseView, SqlView, StatementView, StepView};
use crate::fields;
use crate::fields::ActorView;
use crate::ids;
use crate::json;
use crate::json::JsonView;
use crate::projects;
use crate::relations;
use crate::rows;
use crate::rows::Kind;
use crate::store;
use crate::task_edits;
use crate::tasks;
use vstd::prelude::*;

verus! {

/// Whether a reply holds the rows of one statement, which did not fail.
pub open spec fn tells_rows(reply: ReplyView, found: Seq<Seq<(Seq<char>, SqlView)>>) -> bool {
    reply == ReplyView::Tables(Seq::empty().push(found)) && (found.len() == 0 || exchange::lost(
        found[0],
    ) is None)
}

/// Where a comment is deleted, its files are asked for, it is deleted, its files are removed, and
/// nothing is shown.
pub proof fn law_files_of_a_comment_are_removed(
    replies: Seq<ReplyView>,
    id: Seq<char>,
    body: JsonView,
    version: int,
    next: int,
    found: Seq<Seq<(Seq<char>, SqlView)>>,
    files: Seq<Seq<char>>,
    changed: int,
)
    requires
        comments::current_comment(replies, id, body) == Ok::<(int, int), StepView>((version, next)),
        0 <= next <= replies.len(),
        store::first_texts(found) == Ok::<Seq<Seq<char>>, Seq<char>>(files),
    ensures
        replies.len() == next ==> (comments::comment_deleted(replies, id, body) matches Err(step)
            && asking::asks(
            step,
            "SELECT id FROM attachments WHERE comment_id = ?1"@,
            asking::only(id),
        )),
        replies.len() > next + 1 && tells_rows(replies[next], found) && replies[next + 1]
            == ReplyView::Changed(changed) ==> {
            &&& replies.len() == next + 2 ==> comments::comment_deleted(replies, id, body) == Err::<
                ResponseView,
                StepView,
            >(StepView::Ask(ActionView::RemoveAttachments(files)))
            &&& replies.len() > next + 2 && replies[next + 2] == ReplyView::Done
                ==> comments::comment_deleted(replies, id, body) == Ok::<ResponseView, StepView>(
                ResponseView::Empty(204),
            )
        },
{
}

/// The first cells of rows are read as texts, one for each row.
pub proof fn law_first_cells_are_read(
    found: Seq<Seq<(Seq<char>, SqlView)>>,
    row: Seq<(Seq<char>, SqlView)>,
    name: Seq<char>,
    s: Seq<char>,
    texts: Seq<Seq<char>>,
)
    requires
        store::first_texts(found) == Ok::<Seq<Seq<char>>, Seq<char>>(texts),
        row.len() > 0,
        row[0] == (name, SqlView::Text(s)),
    ensures
        store::first_texts(found.push(row)) == Ok::<Seq<Seq<char>>, Seq<char>>(texts.push(s)),
        store::first_texts(Seq::empty()) == Ok::<Seq<Seq<char>>, Seq<char>>(Seq::empty()),
        store::single_text(Seq::empty().push(row)) == Ok::<Seq<char>, Seq<char>>(s),
{
    assert(found.push(row).drop_last() =~= found);
    assert(rows::cell_index(row, name) == 0);
    assert(rows::column_value(row, name, Kind::Text) == Ok::<JsonView, Seq<char>>(JsonView::Text(s)));
}

/// A number is read from the first cell of the first row, and there is none without a row.
pub proof fn law_number_is_read(
    found: Seq<Seq<(Seq<char>, SqlView)>>,
    name: Seq<char>,
    n: int,
)
    requires
        found.len() > 0,
        found[0].len() > 0,
        found[0][0] == (name, SqlView::Integer(n)),
    ensures
        store::single_integer(found) == Ok::<Option<int>, Seq<char>>(Some(n)),
        store::single_integer(Seq::empty()) == Ok::<Option<int>, Seq<char>>(None),
{
    assert(rows::cell_index(found[0], name) == 0);
}

/// Where a turn could not be started, its files are removed once that is noted, in the directory
/// that they were stored in.
pub proof fn law_files_of_a_failed_start_are_removed(
    replies: Seq<ReplyView>,
    at: int,
    thread_id: Seq<char>,
    run_id: Seq<char>,
    message: Seq<char>,
    directory: Option<Seq<char>>,
    event: JsonView,
    next: int,
    time: Seq<char>,
    run: JsonView,
    behind: int,
)
    requires
        ai_runs::event_inserted(
            replies,
            at,
            thread_id,
            Some(run_id),
            ai_turns::error_event(message),
        ) == Ok::<(JsonView, int), StepView>((event, next)),
        store::now_at(replies, next) == Ok::<Seq<char>, StepView>(time),
        ai_runs::run_updated(
            replies,
            next + 1,
            run_id,
            "failed"@,
            None,
            Some(message),
            Some(time),
        ) == Ok::<(JsonView, int), StepView>((run, behind)),
    ensures
        ({
            let r = ai_turns::start_failed(replies, at, thread_id, run_id, message, directory);
            &&& directory is None ==> r == Ok::<int, StepView>(behind)
            &&& directory is Some && replies.len() <= behind ==> r == Err::<int, StepView>(
                StepView::Ask(ActionView::RemoveTurnFiles(directory->0)),
            )
            &&& directory is Some && replies.len() > behind ==> r == Ok::<int, StepView>(behind + 1)
        }),
{
}

/// A recurrence is shown where both its interval and its unit are stored, and where a task is worked
/// on is shown as a worktree where its path is stored, and else as a branch where one is.
pub proof fn law_recurrence_and_development_are_shown(
    row: Seq<(Seq<char>, SqlView)>,
    interval: JsonView,
    unit: JsonView,
    path: JsonView,
    branch: JsonView,
    own: JsonView,
)
    requires
        rows::column_value(row, "worktree_branch"@, Kind::OptionalText) == Ok::<
            JsonView,
            Seq<char>,
        >(own),
    ensures
        interval is Null || unit is Null ==> tasks::recurrence_of(interval, unit) is Null,
        !(interval is Null) && !(unit is Null) ==> tasks::recurrence_of(interval, unit)
            == JsonView::Object(
            json::members().push(("interval"@, interval)).push(("unit"@, unit)),
        ),
        !(path is Null) ==> tasks::development_of(row, path, branch) == Ok::<JsonView, Seq<char>>(
            JsonView::Object(
                json::members().push(("type"@, JsonView::Text("worktree"@))).push(
                    ("path"@, path),
                ).push(("branch"@, own)),
            ),
        ),
        path is Null && !(branch is Null) ==> tasks::development_of(row, path, branch) == Ok::<
            JsonView,
            Seq<char>,
        >(
            JsonView::Object(
                json::members().push(("type"@, JsonView::Text("branch"@))).push(
                    ("branch"@, branch),
                ),
            ),
        ),
        path is Null && branch is Null ==> tasks::development_of(row, path, branch) == Ok::<
            JsonView,
            Seq<char>,
        >(JsonView::Null),
{
}

/// Whether a step is one of the words of a transaction.
pub open spec fn says(step: StepView, word: Seq<char>) -> bool {
    step == StepView::Ask(ActionView::Batch(word))
}

/// A run is added in one transaction with the mark of its thread: that is begun before the first
/// change and committed behind the second, and rolled back where one of both fails, with whose
/// message the whole then fails.
pub proof fn law_run_is_added_in_one_transaction(
    replies: Seq<ReplyView>,
    at: int,
    thread_id: Seq<char>,
    id: Seq<char>,
    time: Seq<char>,
    m: Seq<char>,
    changed: int,
    other: int,
)
    requires
        at >= 0,
        store::id_at(replies, at) == Ok::<Seq<char>, StepView>(id),
        store::now_at(replies, at + 1) == Ok::<Seq<char>, StepView>(time),
    ensures
        ({
            let r = ai_runs::run_created(replies, at, thread_id);
            let begun = replies.len() > at + 2 && replies[at + 2] == ReplyView::Done;
            let added = begun && replies.len() > at + 3 && replies[at + 3] == ReplyView::Changed(
                changed,
            );
            let marked = added && replies.len() > at + 4 && replies[at + 4] == ReplyView::Changed(
                other,
            );
            &&& replies.len() == at + 2 ==> (r matches Err(step) && says(step, "BEGIN IMMEDIATE"@))
            &&& begun && replies.len() == at + 4 && replies[at + 3] == ReplyView::Failed(m) ==> (r
                matches Err(step) && says(step, "ROLLBACK"@))
            &&& begun && replies.len() > at + 4 && replies[at + 3] == ReplyView::Failed(m) ==> r
                == Err::<(JsonView, int), StepView>(StepView::Fail(m))
            &&& added && replies.len() == at + 5 && replies[at + 4] == ReplyView::Failed(m) ==> (r
                matches Err(step) && says(step, "ROLLBACK"@))
            &&& added && replies.len() > at + 5 && replies[at + 4] == ReplyView::Failed(m) ==> r
                == Err::<(JsonView, int), StepView>(StepView::Fail(m))
            &&& marked && replies.len() == at + 5 ==> (r matches Err(step) && says(step, "COMMIT"@))
            &&& marked && replies.len() == at + 6 && replies[at + 5] == ReplyView::Done ==> (r
                matches Err(step) && asking::asks(
                step,
                "SELECT * FROM ai_chat_runs WHERE id = ?1"@,
                asking::only(id),
            ))
        }),
{
}

/// A run is ended in one transaction with the mark of its thread, which is the one that the store
/// tells.
pub proof fn law_run_is_ended_in_one_transaction(
    replies: Seq<ReplyView>,
    at: int,
    run_id: Seq<char>,
    status: Seq<char>,
    exit_code: Option<i32>,
    error: Option<Seq<char>>,
    time: Option<Seq<char>>,
    m: Seq<char>,
    changed: int,
    other: int,
    found: Seq<Seq<(Seq<char>, SqlView)>>,
    thread_id: Seq<char>,
)
    requires
        0 <= at <= replies.len(),
        status != "running"@,
        store::single_text(found) == Ok::<Seq<char>, Seq<char>>(thread_id),
    ensures
        ({
            let r = ai_runs::run_updated(replies, at, run_id, status, exit_code, error, time);
            let begun = replies.len() > at && replies[at] == ReplyView::Done;
            let ended = begun && replies.len() > at + 1 && replies[at + 1] == ReplyView::Changed(
                changed,
            );
            let told = ended && replies.len() > at + 2 && tells_rows(replies[at + 2], found);
            let marked = told && replies.len() > at + 3 && replies[at + 3] == ReplyView::Changed(
                other,
            );
            &&& replies.len() == at ==> (r matches Err(step) && says(step, "BEGIN IMMEDIATE"@))
            &&& begun && replies.len() == at + 2 && replies[at + 1] == ReplyView::Failed(m) ==> (r
                matches Err(step) && says(step, "ROLLBACK"@))
            &&& begun && replies.len() > at + 2 && replies[at + 1] == ReplyView::Failed(m) ==> r
                == Err::<(JsonView, int), StepView>(StepView::Fail(m))
            &&& ended && replies.len() == at + 2 ==> (r matches Err(step) && asking::asks(
                step,
                "SELECT thread_id FROM ai_chat_runs WHERE id = ?1"@,
                asking::only(run_id),
            ))
            &&& told && replies.len() == at + 3 ==> r == Err::<(JsonView, int), StepView>(
                StepView::Ask(ActionView::Write(ai_runs::thread_rests(thread_id, status, time))),
            )
            &&& told && replies.len() == at + 4 && replies[at + 3] == ReplyView::Failed(m) ==> (r
                matches Err(step) && says(step, "ROLLBACK"@))
            &&& marked && replies.len() == at + 4 ==> (r matches Err(step) && says(step, "COMMIT"@))
            &&& marked && replies.len() == at + 5 && replies[at + 4] == ReplyView::Done ==> (r
                matches Err(step) && asking::asks(
                step,
                "SELECT * FROM ai_chat_runs WHERE id = ?1"@,
                asking::only(run_id),
            ))
        }),
{
}

/// An event is read back by its identifier once it is written.
pub proof fn law_event_is_read_back(
    replies: Seq<ReplyView>,
    at: int,
    thread_id: Seq<char>,
    run_id: Option<Seq<char>>,
    event: EventView,
    id: Seq<char>,
    time: Seq<char>,
    changed: int,
)
    requires
        at >= 0,
        replies.len() == at + 3,
        store::id_at(replies, at) == Ok::<Seq<char>, StepView>(id),
        store::now_at(replies, at + 1) == Ok::<Seq<char>, StepView>(time),
        replies[at + 2] == ReplyView::Changed(changed),
    ensures
        ai_runs::event_inserted(replies, at, thread_id, run_id, event) matches Err(step)
            && asking::asks(step, "SELECT * FROM ai_chat_events WHERE id = ?1"@, asking::only(id)),
{
}

/// The number of a new task is that of its project, which must not be archived: the one that the
/// body names, or else the one that is always there.
pub proof fn law_number_of_a_task_is_asked_for(
    body: JsonView,
    actor: ActorView,
    asked: Option<Seq<char>>,
)
    requires
        fields::text_of(body, "projectId"@, 64) == Ok::<Option<Seq<char>>, Seq<char>>(asked),
    ensures
        ({
            let project_id = if asked is Some {
                asked->0
            } else {
                "local"@
            };
            let r = task_edits::task_created(Seq::empty(), body, actor);
            &&& ids::project_id_form(project_id) ==> (r matches Err(step) && asking::asks(
                step,
                "SELECT next_task_number FROM projects WHERE id = ?1 AND archived_at IS NULL"@,
                asking::only(project_id),
            ))
            &&& !ids::project_id_form(project_id) ==> r == Ok::<ResponseView, StepView>(
                exchange::refusal(400, "INVALID_FIELD"@, "Project id is invalid"@),
            )
        }),
{
    reveal(task_edits::task_created);
}

/// A workflow is read of a project that is there, and its version before it is stored.
pub proof fn law_workflow_is_read_by_its_statements(
    replies: Seq<ReplyView>,
    at: int,
    project_id: Seq<char>,
    found: Seq<Seq<(Seq<char>, SqlView)>>,
    one: int,
    body: JsonView,
    project: JsonView,
    version: int,
)
    requires
        at >= 0,
        store::single_integer(found) == Ok::<Option<int>, Seq<char>>(Some(one)),
    ensures
        replies.len() == at + 1 && tells_rows(replies[at], found) ==> (projects::workflow_at(
            replies,
            at,
            project_id,
        ) matches Err(step) && asking::asks(
            step,
            "SELECT workspace, version, updated_at FROM workflow_workspaces WHERE project_id = ?1"@,
            asking::only(project_id),
        )),
        replies.len() == 1 && projects::project_at(replies, 0, project_id, false) == Ok::<
            Option<JsonView>,
            StepView,
        >(Some(project)) && fields::expected_version(body) == Ok::<int, Seq<char>>(version) ==> (
        projects::workflow_saved(replies, project_id, body) matches Err(step) && asking::asks(
            step,
            "SELECT version FROM workflow_workspaces WHERE project_id = ?1"@,
            asking::only(project_id),
        )),
{
}

/// Whether a task is above another is asked of the store with both: the task that would get the
/// parent, and the parent.
pub proof fn law_cycle_is_asked_for(child: Seq<char>, parent: Seq<char>)
    ensures
        relations::cycle_query(child, parent) == (StatementView {
            sql: "
            WITH RECURSIVE ancestors(id) AS (
              SELECT source_task_id
              FROM task_relations
              WHERE relation_type = 'parent' AND target_task_id = ?1
              UNION
              SELECT task_relations.source_task_id
              FROM task_relations
              JOIN ancestors ON task_relations.target_task_id = ancestors.id
              WHERE task_relations.relation_type = 'parent'
            )
            SELECT 1 FROM ancestors WHERE id = ?2
            "@,
            params: Seq::empty().push(SqlView::Text(parent)).push(SqlView::Text(child)),
        }),
{
}

} // verus!
