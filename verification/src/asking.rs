//! What is asked of the store where nothing of it is known yet.
use crate::ai_runs;
use crate::ai_threads;
use crate::comments;
use crate::exchange;
use crate::exchange::{ActionView, ReplyView, SqlView, StatementView, StepView};
use crate::json::JsonView;
use crate::projects;
use crate::responses;
use crate::schema;
use crate::store;
use crate::tasks;
use vstd::prelude::*;

verus! {

/// Whether a step is the question for the rows of one statement.
pub open spec fn asks(step: StepView, sql: Seq<char>, params: Seq<SqlView>) -> bool {
    step == StepView::Ask(ActionView::Read(seq![StatementView { sql, params }]))
}

/// A text as the one parameter of a statement.
pub open spec fn only(s: Seq<char>) -> Seq<SqlView> {
    Seq::empty().push(SqlView::Text(s))
}

/// Comments are read by the identifier of the comment or of its task, and attachments by that of the
/// attachment.
pub proof fn law_comments_are_read_by_their_statements(
    replies: Seq<ReplyView>,
    at: int,
    id: Seq<char>,
)
    requires
        at >= replies.len(),
    ensures
        comments::comment_at(replies, at, id) matches Err(step) && asks(
            step,
            "SELECT * FROM comments WHERE id = ?1"@,
            only(id),
        ),
        comments::comments_at(replies, at, id) matches Err(step) && asks(
            step,
            "
        SELECT * FROM comments
        WHERE task_id = ?1
        ORDER BY created_at, id
        "@,
            only(id),
        ),
        comments::attachment_at(replies, at, id) matches Err(step) && asks(
            step,
            "SELECT * FROM attachments WHERE id = ?1"@,
            only(id),
        ),
{
}

/// Projects are read by statements that count their tasks: all that are not archived, or one, archived
/// or not; a workflow is read of a project that is not archived.
pub proof fn law_projects_are_read_by_their_statements(
    replies: Seq<ReplyView>,
    at: int,
    id: Seq<char>,
)
    requires
        at >= replies.len(),
    ensures
        projects::projects_at(replies, at) matches Err(step) && asks(
            step,
            "
        SELECT
          projects.id,
          projects.name,
          projects.workspace_path,
          projects.archived_at,
          projects.created_at,
          projects.updated_at,
          COUNT(tasks.id) AS issue_count
        FROM projects
        LEFT JOIN tasks
          ON tasks.project_id = projects.id
          AND tasks.archived_at IS NULL
        WHERE projects.archived_at IS NULL
        GROUP BY
          projects.id,
          projects.name,
          projects.workspace_path,
          projects.archived_at,
          projects.created_at,
          projects.updated_at
        ORDER BY projects.created_at, projects.id
        "@,
            Seq::empty(),
        ),
        projects::project_at(replies, at, id, false) matches Err(step) && asks(
            step,
            "
                SELECT
                  projects.id,
                  projects.name,
                  projects.workspace_path,
                  projects.archived_at,
                  projects.created_at,
                  projects.updated_at,
                  COUNT(tasks.id) AS issue_count
                FROM projects
                LEFT JOIN tasks
                  ON tasks.project_id = projects.id
                  AND tasks.archived_at IS NULL
                WHERE projects.id = ?1 AND projects.archived_at IS NULL
                GROUP BY
                  projects.id,
                  projects.name,
                  projects.workspace_path,
                  projects.archived_at,
                  projects.created_at,
                  projects.updated_at
                "@,
            only(id),
        ),
        projects::project_at(replies, at, id, true) matches Err(step) && asks(
            step,
            "
                SELECT
                  projects.id,
                  projects.name,
                  projects.workspace_path,
                  projects.archived_at,
                  projects.created_at,
                  projects.updated_at,
                  COUNT(tasks.id) AS issue_count
                FROM projects
                LEFT JOIN tasks
                  ON tasks.project_id = projects.id
                  AND tasks.archived_at IS NULL
                WHERE projects.id = ?1 
                GROUP BY
                  projects.id,
                  projects.name,
                  projects.workspace_path,
                  projects.archived_at,
                  projects.created_at,
                  projects.updated_at
                "@,
            only(id),
        ),
        projects::workflow_at(replies, at, id) matches Err(step) && asks(
            step,
            "SELECT 1 FROM projects WHERE id = ?1 AND archived_at IS NULL"@,
            only(id),
        ),
{
}

/// A task is read by its identifier, of either form.
pub proof fn law_tasks_are_read_by_their_statements(
    replies: Seq<ReplyView>,
    at: int,
    id: Seq<char>,
)
    requires
        at >= replies.len(),
    ensures
        tasks::task_at(replies, at, id) matches Err(step) && asks(
            step,
            "SELECT * FROM tasks WHERE id = ?1 OR identifier = ?1"@,
            only(id),
        ),
{
}

/// Threads are read by the latest change, or by their identifier; their runs and events by that of the
/// thread, in the order in which they came, and a run by its own.
pub proof fn law_threads_are_read_by_their_statements(
    replies: Seq<ReplyView>,
    at: int,
    id: Seq<char>,
)
    requires
        at >= replies.len(),
    ensures
        ai_threads::thread_at(replies, at, id) matches Err(step) && asks(
            step,
            "SELECT * FROM ai_chat_threads WHERE id = ?1"@,
            only(id),
        ),
        ai_runs::run_at(replies, at, id) matches Err(step) && asks(
            step,
            "SELECT * FROM ai_chat_runs WHERE id = ?1"@,
            only(id),
        ),
        ai_runs::runs_at(replies, at, id) matches Err(step) && asks(
            step,
            "SELECT * FROM ai_chat_runs WHERE thread_id = ?1 ORDER BY started_at, id"@,
            only(id),
        ),
        ai_runs::events_at(replies, at, id) matches Err(step) && asks(
            step,
            "SELECT * FROM ai_chat_events WHERE thread_id = ?1 ORDER BY created_at, rowid"@,
            only(id),
        ),
        store::now_at(replies, at) matches Err(step) && asks(
            step,
            "SELECT strftime('%Y-%m-%dT%H:%M:%fZ', 'now')"@,
            Seq::empty(),
        ),
{
}

/// The threads are read by the latest change.
pub proof fn law_all_threads_are_read_by_their_statement()
    ensures
        ai_threads::threads_at(Seq::empty()) matches Err(step) && asks(
            step,
            "
        SELECT * FROM ai_chat_threads
        ORDER BY updated_at DESC, id
        "@,
            Seq::empty(),
        ),
{
}

/// How far a thread is, is read from its last event and from the states of its runs.
pub proof fn law_progress_is_read_by_its_statements(
    first: Seq<Seq<(Seq<char>, SqlView)>>,
    last: int,
    id: Seq<char>,
)
    requires
        first.len() > 0,
        exchange::lost(first[0]) is None,
        store::single_integer(first) == Ok::<Option<int>, Seq<char>>(Some(last)),
    ensures
        responses::cursor_at(Seq::empty(), id) matches Err(step) && asks(
            step,
            "SELECT COALESCE(MAX(rowid), 0) FROM ai_chat_events WHERE thread_id = ?1"@,
            only(id),
        ),
        responses::cursor_at(Seq::empty().push(ReplyView::Tables(Seq::empty().push(first))), id)
            matches Err(step) && asks(
            step,
            "
        SELECT COALESCE(GROUP_CONCAT(id || ':' || status || ':' || COALESCE(finished_at, ''), '|'), '')
        FROM (
          SELECT id, status, finished_at
          FROM ai_chat_runs
          WHERE thread_id = ?1
          ORDER BY started_at, id
        )
        "@,
            only(id),
        ),
{
}

/// The run that a thread shows is the one that is running, by the identifier of the thread.
pub proof fn law_current_run_is_read_by_its_statement(thread: JsonView)
    ensures
        ai_threads::current_run_query(thread) == (StatementView {
            sql: "
            SELECT * FROM ai_chat_runs
            WHERE thread_id = ?1 AND status = 'running'
            ORDER BY started_at DESC, id DESC
            LIMIT 1
            "@,
            params: only(tasks::key_of(thread, "id"@)),
        }),
{
}

/// The rows of a reply are those of the statement that was asked for, unless it failed before its
/// first row; a reply that tells of a failure fails with its message.
pub proof fn law_rows_are_those_of_the_reply(
    replies: Seq<ReplyView>,
    at: int,
    statement: StatementView,
    found: Seq<Seq<(Seq<char>, SqlView)>>,
    message: Seq<char>,
)
    requires
        0 <= at < replies.len(),
    ensures
        replies[at] == ReplyView::Tables(Seq::empty().push(found)) && (found.len() == 0
            || exchange::lost(found[0]) is None) ==> exchange::rows_at(replies, at, statement)
            == Ok::<Seq<Seq<(Seq<char>, SqlView)>>, StepView>(found),
        replies[at] == ReplyView::Tables(Seq::empty().push(found)) && found.len() > 0
            && exchange::lost(found[0]) == Some(message) ==> exchange::rows_at(
            replies,
            at,
            statement,
        ) == Err::<Seq<Seq<(Seq<char>, SqlView)>>, StepView>(StepView::Fail(message)),
        replies[at] == ReplyView::Failed(message) ==> exchange::rows_at(replies, at, statement)
            == Err::<Seq<Seq<(Seq<char>, SqlView)>>, StepView>(StepView::Fail(message)),
        replies[at] == ReplyView::Failed(message) ==> exchange::changed_at(replies, at, statement)
            == Err::<int, StepView>(StepView::Fail(message)),
{
}

/// A store is opened with its settings, and the project that is always there is added where it is
/// missing, without a directory and with its first task still to come.
pub proof fn law_store_is_opened_with_its_project()
    ensures
        schema::pragmas() == seq![
            ("foreign_keys"@, "ON"@),
            ("busy_timeout"@, "5000"@),
            ("journal_mode"@, "WAL"@),
        ],
        schema::seed() == (StatementView {
            sql: "INSERT INTO projects (id, name, workspace_path, next_task_number, created_at, updated_at)
         VALUES (?1, ?2, NULL, 1, strftime('%Y-%m-%dT%H:%M:%fZ', 'now'), strftime('%Y-%m-%dT%H:%M:%fZ', 'now'))
         ON CONFLICT(id) DO NOTHING"@,
            params: Seq::empty().push(SqlView::Text("local"@)).push(
                SqlView::Text("\u{65e0}\u{9879}\u{76ee}"@),
            ),
        }),
{
}

} // verus!
