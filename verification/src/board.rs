//! A model of the store as far as tasks go: what the statements of the library make of it, and what
//! its replies tell.
//!
//! A task is the sequence of the values in its columns, in the order of the schema. The model reads
//! each statement as its text says it, and a value is read back as it was stored. No statement fails
//! but the one that adds a task, which a constraint of the schema may refuse.
use crate::exchange;
use crate::exchange::{ActionView, ReplyView, ResponseView, SqlView, StatementView, StepView};
use crate::fields;
use crate::history;
use crate::json;
use crate::json::JsonView;
use crate::parents;
use crate::projects;
use crate::relations;
use crate::showing;
use crate::store;
use crate::task_edits;
use crate::tasks;
use crate::text;
use vstd::prelude::*;

verus! {

/// The tasks of a store, with what belongs to them: the number of the next task of each project that
/// is not archived, the identifiers that were given so far, each with the project of its task, and
/// the parents of tasks. A task has at most one parent, since `task_relations_one_parent` in the
/// schema is a unique index.
pub struct Board {
    pub next: Map<Seq<char>, int>,
    pub given: Set<(Seq<char>, Seq<char>)>,
    pub tasks: Map<Seq<char>, Seq<SqlView>>,
    pub parents: Map<Seq<char>, Seq<char>>,
}

impl Board {
    /// Whether the tasks are stored as tasks, each under its identifier.
    pub open spec fn is_sound(self) -> bool {
        forall|id: Seq<char>| #[trigger]
            self.tasks.contains_key(id) ==> showing::is_stored_task(self.tasks[id])
                && self.tasks[id][0] == SqlView::Text(id)
    }

    /// Whether a key is the identifier or the short identifier of a task.
    pub open spec fn is_named(self, key: Seq<char>, id: Seq<char>) -> bool {
        self.tasks.contains_key(id) && (id == key || self.tasks[id][1] == SqlView::Text(key))
    }

    /// Whether a key names the task with an identifier, and no other.
    pub open spec fn names(self, key: Seq<char>, id: Seq<char>) -> bool {
        self.is_named(key, id) && forall|other: Seq<char>| #[trigger]
            self.is_named(key, other) ==> other == id
    }

    /// A board with other values in one of its tasks.
    pub open spec fn with_task(self, id: Seq<char>, values: Seq<SqlView>) -> Board {
        Board { tasks: self.tasks.insert(id, values), ..self }
    }

    /// Whether a statement that names a task by these values of its identifier and its version finds
    /// it.
    pub open spec fn finds(self, id: SqlView, version: SqlView) -> bool {
        id is Text && self.tasks.contains_key(id->Text_0) && self.tasks[id->Text_0][26] == version
    }
}

/// Other values for a task, under its identifier and its short identifier, leave a board sound, and
/// the same keys name the same tasks.
pub proof fn lemma_with_task(board: Board, id: Seq<char>, values: Seq<SqlView>)
    requires
        board.is_sound(),
        board.tasks.contains_key(id),
        showing::is_stored_task(values),
        values[0] == board.tasks[id][0],
        values[1] == board.tasks[id][1],
    ensures
        board.with_task(id, values).is_sound(),
        forall|key: Seq<char>, other: Seq<char>| #[trigger]
            board.names(key, other) ==> board.with_task(id, values).names(key, other),
{
    let after = board.with_task(id, values);
    assert forall|other: Seq<char>| #[trigger] after.tasks.contains_key(other) implies
        showing::is_stored_task(after.tasks[other]) && after.tasks[other][0] == SqlView::Text(
        other,
    ) by {
        assert(board.tasks.contains_key(other));
    }
    assert forall|key: Seq<char>, other: Seq<char>| #[trigger] board.names(key, other) implies
        after.names(key, other) by {
        assert(board.is_named(key, other));
        assert forall|third: Seq<char>| #[trigger] after.is_named(key, third) implies third
            == other by {
            assert(board.is_named(key, third));
        }
    }
}

/// The values of the task that the statement with these parameters adds.
pub open spec fn inserted(p: Seq<SqlView>) -> Seq<SqlView> {
    p.take(25).push(SqlView::Null).push(SqlView::Integer(1)).push(p[25]).push(p[25])
}

/// A value, or another where it is null.
pub open spec fn coalesced(value: SqlView, other: SqlView) -> SqlView {
    if value is Null {
        other
    } else {
        value
    }
}

/// One more than an integer.
pub open spec fn counted(value: SqlView) -> SqlView {
    match value {
        SqlView::Integer(i) => SqlView::Integer(i + 1),
        other => other,
    }
}

/// The values of a task that is counted one version up at a time and keeps its thread unless another
/// is named.
pub open spec fn touched(values: Seq<SqlView>, thread_id: SqlView, time: SqlView) -> Seq<SqlView> {
    values.update(9, coalesced(thread_id, values[9])).update(26, counted(values[26])).update(28, time)
}

/// The assignments in the text of an update: what its commas part between the start and the end that
/// every update has.
pub open spec fn assignments_of(sql: Seq<char>) -> Seq<Seq<char>> {
    let start = "UPDATE tasks SET "@.len() as int;
    let end = sql.len() - " WHERE id = ? AND version = ?"@.len();
    let parts = text::split_spec(sql.subrange(start, end), ',');
    Seq::new(
        parts.len(),
        |i: int|
            if i == 0 {
                parts[0]
            } else {
                parts[i].skip(1)
            },
    )
}

/// The column that an assignment of a parameter names.
pub open spec fn assigned_column(assignment: Seq<char>) -> int {
    choose|k: int| 0 <= k < 29 && #[trigger] showing::task_columns()[k] + " = ?"@ == assignment
}

/// Values with parameters assigned to columns, one after the other.
pub open spec fn assigned(
    values: Seq<SqlView>,
    assignments: Seq<Seq<char>>,
    params: Seq<SqlView>,
) -> Seq<SqlView>
    decreases assignments.len(),
{
    if assignments.len() == 0 {
        values
    } else {
        let before = assigned(values, assignments.drop_last(), params);
        before.update(
            assigned_column(assignments.last()),
            params[assignments.len() - 1],
        )
    }
}

/// Whether a statement is an update of a task: its text ends as every update does.
pub open spec fn is_update(statement: StatementView) -> bool {
    text::has_suffix(statement.sql, " WHERE id = ? AND version = ?"@)
}

/// What an update makes of the values of the task that it finds: the parameters are assigned, the
/// task is counted one version up, and the time is noted.
pub open spec fn updated(values: Seq<SqlView>, statement: StatementView) -> Seq<SqlView> {
    let named = assignments_of(statement.sql);
    let n = named.len() - 2;
    assigned(values, named.take(n), statement.params).update(26, counted(values[26])).update(
        28,
        statement.params[n],
    )
}

/// No statement but an update of a task ends as one does.
pub proof fn lemma_other_statements()
    ensures
        task_edits::ARCHIVE_TASK@ != task_edits::INSERT_TASK@,
        task_edits::TOUCH_TASK@ != task_edits::INSERT_TASK@,
        task_edits::MOVE_TASK@ != task_edits::INSERT_TASK@,
        task_edits::COUNT_TASK@ != task_edits::INSERT_TASK@,
        relations::DELETE_PARENT@ != task_edits::INSERT_TASK@,
        relations::INSERT_RELATION@ != task_edits::INSERT_TASK@,
        relations::DELETE_RELATION@ != task_edits::INSERT_TASK@,
        task_edits::TOUCH_TASK@ != relations::INSERT_RELATION@,
        task_edits::DELETE_TASK@ != task_edits::INSERT_TASK@,
        task_edits::DELETE_TASK@ != task_edits::COUNT_TASK@,
        !text::has_suffix(task_edits::DELETE_TASK@, " WHERE id = ? AND version = ?"@),
        !text::has_suffix(task_edits::INSERT_TASK@, " WHERE id = ? AND version = ?"@),
        !text::has_suffix(task_edits::COUNT_TASK@, " WHERE id = ? AND version = ?"@),
        !text::has_suffix(task_edits::ARCHIVE_TASK@, " WHERE id = ? AND version = ?"@),
        !text::has_suffix(task_edits::MOVE_TASK@, " WHERE id = ? AND version = ?"@),
        !text::has_suffix(task_edits::TOUCH_TASK@, " WHERE id = ? AND version = ?"@),
        !text::has_suffix(relations::DELETE_PARENT@, " WHERE id = ? AND version = ?"@),
        !text::has_suffix(relations::INSERT_RELATION@, " WHERE id = ? AND version = ?"@),
        !text::has_suffix(relations::DELETE_RELATION@, " WHERE id = ? AND version = ?"@),
{
    let end = " WHERE id = ? AND version = ?"@;
    reveal_strlit(" WHERE id = ? AND version = ?");
    assert(end.last() == '?');
    assert(task_edits::INSERT_TASK@.last() == ' ') by {
        reveal_strlit(
            "
        INSERT INTO tasks (
          id, identifier, project_id, title, description, status, priority, labels,
          sort_order, thread_id, creator_type, creator_id, creator_name, creator_avatar_url,
          assignee_type, assignee_id, assignee_name, assignee_avatar_url,
          workflow_id, git_branch, worktree_path, worktree_branch,
          due_date, recurrence_interval, recurrence_unit,
          archived_at, version, created_at, updated_at
        ) VALUES (?1, ?2, ?3, ?4, ?5, ?6, ?7, ?8, ?9, ?10, ?11, ?12, ?13, ?14,
          ?15, ?16, ?17, ?18, ?19, ?20, ?21, ?22, ?23, ?24, ?25, NULL, 1, ?26, ?26)
        ",
        );
    }
    assert(task_edits::DELETE_TASK@.last() == '2' && task_edits::DELETE_TASK@[0] == 'D') by {
        reveal_strlit("DELETE FROM tasks WHERE id = ?1 AND version = ?2");
    }
    assert(task_edits::COUNT_TASK@.last() == '2' && task_edits::COUNT_TASK@[0] == 'U') by {
        reveal_strlit(
            "UPDATE projects SET next_task_number = next_task_number + 1, updated_at = ?1 WHERE id = ?2",
        );
    }
    assert(task_edits::ARCHIVE_TASK@.last() == '5') by {
        reveal_strlit(
            "UPDATE tasks SET archived_at = ?1, thread_id = COALESCE(?2, thread_id), version = version + 1, updated_at = ?3 WHERE id = ?4 AND version = ?5",
        );
    }
    assert(task_edits::MOVE_TASK@.last() == '7') by {
        reveal_strlit(
            "UPDATE tasks SET project_id = ?1, status = ?2, sort_order = ?3, thread_id = COALESCE(?4, thread_id), version = version + 1, updated_at = ?5 WHERE id = ?6 AND version = ?7",
        );
    }
    assert(task_edits::TOUCH_TASK@.last() == '4') by {
        reveal_strlit(
            "UPDATE tasks SET thread_id = COALESCE(?1, thread_id), version = version + 1, updated_at = ?2 WHERE id = ?3 AND version = ?4",
        );
    }
    assert(relations::DELETE_PARENT@.last() == '1') by {
        reveal_strlit(
            "DELETE FROM task_relations WHERE relation_type = 'parent' AND target_task_id = ?1",
        );
    }
    assert(relations::INSERT_RELATION@.last() == ')') by {
        reveal_strlit(
            "INSERT OR IGNORE INTO task_relations (relation_type, source_task_id, target_task_id, created_at) VALUES (?1, ?2, ?3, ?4)",
        );
    }
    assert(relations::DELETE_RELATION@.last() == '3') by {
        reveal_strlit(
            "DELETE FROM task_relations WHERE relation_type = ?1 AND source_task_id = ?2 AND target_task_id = ?3",
        );
    }
    assert forall|sql: Seq<char>| #[trigger] text::has_suffix(sql, end) implies sql.last()
        == '?' by {
        assert(sql.skip(sql.len() - end.len()).last() == sql.last());
    }
}

/// What a statement makes of a board.
#[verifier::opaque]
pub open spec fn board_after(board: Board, w: StatementView) -> Board {
    let p = w.params;
    let n = p.len() as int;
    if is_update(w) {
        if n >= 3 && board.finds(p[n - 2], p[n - 1]) {
            board.with_task(p[n - 2]->Text_0, updated(board.tasks[p[n - 2]->Text_0], w))
        } else {
            board
        }
    } else if w.sql == task_edits::INSERT_TASK@ && n == 26 && p[0] is Text && p[1] is Text && p[2]
        is Text {
        Board {
            given: board.given.insert((p[2]->Text_0, p[1]->Text_0)),
            ..board.with_task(p[0]->Text_0, inserted(p))
        }
    } else if w.sql == task_edits::COUNT_TASK@ && n == 2 && p[1] is Text {
        let project_id = p[1]->Text_0;
        Board {
            next: board.next.insert(project_id, board.next[project_id] + 1),
            ..board
        }
    } else if w.sql == task_edits::ARCHIVE_TASK@ && n == 5 && board.finds(p[3], p[4]) {
        let id = p[3]->Text_0;
        board.with_task(id, touched(board.tasks[id].update(25, p[0]), p[1], p[2]))
    } else if w.sql == task_edits::MOVE_TASK@ && n == 7 && board.finds(p[5], p[6]) {
        let id = p[5]->Text_0;
        board.with_task(
            id,
            touched(
                board.tasks[id].update(2, p[0]).update(5, p[1]).update(8, p[2]),
                p[3],
                p[4],
            ),
        )
    } else if w.sql == task_edits::TOUCH_TASK@ && n == 4 && board.finds(p[2], p[3]) {
        let id = p[2]->Text_0;
        board.with_task(id, touched(board.tasks[id], p[0], p[1]))
    } else if w.sql == task_edits::DELETE_TASK@ && n == 2 && board.finds(p[0], p[1]) {
        let id = p[0]->Text_0;
        Board {
            tasks: board.tasks.remove(id),
            parents: board.parents.restrict(
                board.parents.dom().filter(
                    |child: Seq<char>| child != id && board.parents[child] != id,
                ),
            ),
            ..board
        }
    } else {
        Board { parents: parents::parents_after(board.parents, w), ..board }
    }
}

/// The effect of an action on a board.
pub open spec fn board_effect() -> spec_fn(Board, ActionView) -> Board {
    |board: Board, action: ActionView|
        match action {
            ActionView::Write(w) => board_after(board, w),
            _ => board,
        }
}

/// Whether a reply is the table that a single query has.
pub open spec fn is_table(reply: ReplyView, table: Seq<Seq<(Seq<char>, SqlView)>>) -> bool {
    reply == ReplyView::Tables(seq![table])
}

/// The only query that is read, where there is only one.
pub open spec fn single_query(action: ActionView) -> Option<StatementView> {
    match action {
        ActionView::Read(queries) => if queries.len() == 1 {
            Some(queries[0])
        } else {
            None
        },
        _ => None,
    }
}

/// Whether a reply tells a time: it is a table of one text.
pub open spec fn tells_time(reply: ReplyView) -> bool {
    &&& reply is Tables && reply->Tables_0.len() == 1
    &&& reply->Tables_0[0].len() == 1 && reply->Tables_0[0][0].len() == 1
    &&& reply->Tables_0[0][0][0].1 is Text
}

/// Whether a table holds the row of a task that a key names, or nothing where it names none.
pub open spec fn tells_task(board: Board, key: Seq<char>, reply: ReplyView) -> bool {
    if exists|id: Seq<char>| board.is_named(key, id) {
        exists|id: Seq<char>| #[trigger]
            board.is_named(key, id) && is_table(
                reply,
                seq![showing::task_row(board.tasks[id])],
            )
    } else {
        is_table(reply, Seq::empty())
    }
}

/// Whether a reply is one that the store can give to an action, where it holds a board.
pub open spec fn board_tells() -> spec_fn(Board, ActionView, ReplyView) -> bool {
    |board: Board, action: ActionView, reply: ReplyView| tells(board, action, reply)
}

/// What the replies to the actions of the library tell of a board: the number of the next task of a
/// project, the time, a fresh identifier, a task by a key, five tables of tasks that are related to
/// one, a project that is not archived, the attachments of a task, whether a task is an ancestor of
/// another, and how many rows a change of parents changed.
#[verifier::opaque]
pub open spec fn tells(board: Board, action: ActionView, reply: ReplyView) -> bool {
    let query = single_query(action);
    let p = query->0.params;
    &&& action is NewId ==> reply is Text && !board.tasks.contains_key(reply->Text_0)
        && forall|id: Seq<char>|
        #![trigger board.tasks.contains_key(id)]
        board.tasks.contains_key(id) ==> board.tasks[id][1] != SqlView::Text(reply->Text_0)
    &&& action is NextSortOrder ==> reply is Text
    &&& action is RemoveAttachments ==> reply is Done
    &&& query is Some && query->0.sql == projects::ACTIVE_PROJECT@ && p.len() == 1 && p[0] is Text
        ==> reply is Tables && reply->Tables_0.len() == 1 && if board.next.contains_key(
        p[0]->Text_0,
    ) {
        reply->Tables_0[0].len() > 0 && exchange::lost(reply->Tables_0[0][0]) is None
            && projects::project_of_row(reply->Tables_0[0][0]) is Ok
    } else {
        reply->Tables_0[0].len() == 0
    }
    &&& query is Some && query->0.sql == task_edits::TASK_ATTACHMENTS@ ==> reply is Tables
        && reply->Tables_0.len() == 1 && store::first_texts(reply->Tables_0[0]) is Ok && (
    reply->Tables_0[0].len() > 0 ==> exchange::lost(reply->Tables_0[0][0]) is None)
    &&& query is Some && query->0.sql == store::NOW@ ==> tells_time(reply)
    &&& query is Some && query->0.sql == task_edits::NEXT_NUMBER@ && p.len() == 1 && p[0] is Text
        ==> is_table(
        reply,
        if board.next.contains_key(p[0]->Text_0) {
            seq![
                seq![
                    ("next_task_number"@, SqlView::Integer(board.next[p[0]->Text_0])),
                ],
            ]
        } else {
            Seq::empty()
        },
    )
    &&& query is Some && query->0.sql == tasks::TASK_BY_ID@ && p.len() == 1 && p[0] is Text
        ==> tells_task(board, p[0]->Text_0, reply)
    &&& action is Read && action->Read_0.len() == 5 ==> reply is Tables && reply->Tables_0.len() == 5
        && tasks::relations_in(reply->Tables_0, 0) is Ok
    &&& query is Some && query->0.sql == relations::PARENT_CYCLE@ && p.len() == 2 && p[0] is Text
        && p[1] is Text ==> reply is Tables && reply->Tables_0.len() == 1 && (if parents::is_ancestor(
        board.parents,
        p[1]->Text_0,
        p[0]->Text_0,
    ) {
        reply->Tables_0[0].len() > 0 && exchange::lost(reply->Tables_0[0][0]) is None
    } else {
        reply->Tables_0[0].len() == 0
    })
    &&& action is Write ==> reply is Changed || (reply is Failed && action->Write_0.sql
        == task_edits::INSERT_TASK@)
    &&& action is Write && action->Write_0.sql == relations::INSERT_RELATION@
        && action->Write_0.params.len() == 4 && action->Write_0.params[0] == SqlView::Text(
        "parent"@,
    ) && action->Write_0.params[2] is Text ==> reply == ReplyView::Changed(
        if board.parents.contains_key(action->Write_0.params[2]->Text_0) {
            0
        } else {
            1
        },
    )
}

/// A reply that tells a time is read as one.
pub proof fn lemma_time_is_read(replies: Seq<ReplyView>, at: int)
    requires
        0 <= at < replies.len(),
        tells_time(replies[at]),
    ensures
        store::now_at(replies, at) is Ok,
        store::now_at(replies, at)->Ok_0 == replies[at]->Tables_0[0][0][0].1->Text_0,
{
    let row = replies[at]->Tables_0[0][0];
    crate::rows::lemma_cell_index(row, row[0].0, 0);
}

/// The query for a task by a key.
pub open spec fn task_query(key: Seq<char>) -> StatementView {
    store::stated(tasks::TASK_BY_ID@, store::params().push(store::text_param(key)))
}

proof fn lemma_row_is_read(replies: Seq<ReplyView>, at: int, key: Seq<char>, values: Seq<SqlView>)
    requires
        0 <= at < replies.len(),
        showing::is_stored_task(values),
        is_table(replies[at], seq![showing::task_row(values)]),
    ensures
        exchange::rows_at(replies, at, task_query(key)) == Ok::<
            Seq<Seq<(Seq<char>, SqlView)>>,
            StepView,
        >(seq![showing::task_row(values)]),
{
    let row = showing::task_row(values);
    showing::lemma_row_is_there(values);
    let tables = seq![seq![row]];
    assert(replies[at]->Tables_0 == tables);
    assert(tables[0][0] == row);
}

/// The row of a stored task is read as that task, with the relations that the next reply tells.
pub proof fn lemma_row_makes_a_task(
    replies: Seq<ReplyView>,
    at: int,
    key: Seq<char>,
    values: Seq<SqlView>,
)
    requires
        0 <= at < replies.len(),
        showing::is_stored_task(values),
        values[0] is Text,
        is_table(replies[at], seq![showing::task_row(values)]),
        at + 1 < replies.len() ==> ({
            let found = replies[at + 1];
            found is Tables && found->Tables_0.len() == 5 && tasks::relations_in(
                found->Tables_0,
                0,
            ) is Ok
        }),
    ensures
        ({
            let read = tasks::task_at(replies, at, key);
            if at + 1 < replies.len() {
                read == Ok::<(Option<JsonView>, int), StepView>(
                    (
                        Some(
                            tasks::extended(
                                showing::shown_task(values),
                                "relations"@,
                                tasks::relations_in(replies[at + 1]->Tables_0, 0)->Ok_0,
                            ),
                        ),
                        at + 2,
                    ),
                )
            } else {
                read == Err::<(Option<JsonView>, int), StepView>(
                    StepView::Ask(
                        ActionView::Read(tasks::relation_queries(values[0]->Text_0)),
                    ),
                )
            }
        }),
{
    lemma_row_is_read(replies, at, key, values);
    showing::law_task_is_shown_as_stored(values);
    showing::lemma_shown_members(values, ""@, JsonView::Null);
    assert(seq![showing::task_row(values)][0] == showing::task_row(values));
}

/// The query for a task by a key that names it finds its row.
pub proof fn lemma_tells_task(board: Board, key: Seq<char>, id: Seq<char>, reply: ReplyView)
    requires
        board.names(key, id),
        tells(board, ActionView::Read(seq![task_query(key)]), reply),
    ensures
        is_table(reply, seq![showing::task_row(board.tasks[id])]),
{
    reveal(tells);
    let asked = seq![task_query(key)];
    assert(asked[0] == task_query(key));
    assert(board.is_named(key, id));
    assert(tells_task(board, key, reply));
}

/// A fresh identifier is a text that is neither the identifier nor the short identifier of a task.
pub proof fn lemma_tells_new_id(board: Board, reply: ReplyView)
    requires
        tells(board, ActionView::NewId, reply),
    ensures
        reply is Text,
        !board.tasks.contains_key(reply->Text_0),
        forall|id: Seq<char>|
            #![trigger board.tasks.contains_key(id)]
            board.tasks.contains_key(id) ==> board.tasks[id][1] != SqlView::Text(reply->Text_0),
{
    reveal(tells);
}

/// A sort order is told as a text.
pub proof fn lemma_tells_order(board: Board, query: StatementView, reply: ReplyView)
    requires
        tells(board, ActionView::NextSortOrder(query), reply),
    ensures
        reply is Text,
{
    reveal(tells);
}

/// The query for the number of the next task of a project.
pub open spec fn number_query(project_id: Seq<char>) -> StatementView {
    store::stated(
        task_edits::NEXT_NUMBER@,
        store::params().push(store::text_param(project_id)),
    )
}

/// The number of the next task of a project is read as it is on the board.
pub proof fn lemma_tells_number(
    board: Board,
    project_id: Seq<char>,
    replies: Seq<ReplyView>,
    at: int,
)
    requires
        0 <= at < replies.len(),
        tells(board, ActionView::Read(seq![number_query(project_id)]), replies[at]),
    ensures
        ({
            let found = exchange::rows_at(replies, at, number_query(project_id));
            &&& found is Ok
            &&& store::single_integer(found->Ok_0) == Ok::<Option<int>, Seq<char>>(
                if board.next.contains_key(project_id) {
                    Some(board.next[project_id])
                } else {
                    None
                },
            )
        }),
{
    reveal(tells);
    let asked = seq![number_query(project_id)];
    assert(asked[0] == number_query(project_id));
    let row = seq![("next_task_number"@, SqlView::Integer(board.next[project_id]))];
    let rows = seq![row];
    assert(rows[0] == row);
    assert(row[0].0 == "next_task_number"@);
    crate::rows::lemma_cell_index(row, row[0].0, 0);
    let table = if board.next.contains_key(project_id) {
        rows
    } else {
        Seq::empty()
    };
    let tables = seq![table];
    assert(tables[0] == table);
    assert(replies[at] == ReplyView::Tables(tables));
}

/// The statement that adds a task is carried out or refused.
pub proof fn lemma_tells_insertion(board: Board, w: StatementView, reply: ReplyView)
    requires
        tells(board, ActionView::Write(w), reply),
    ensures
        reply is Changed || reply is Failed,
{
    reveal(tells);
}

/// The query that looks for a task among the ancestors of another is read as the parents are.
pub proof fn lemma_tells_cycle(
    board: Board,
    child: Seq<char>,
    parent: Seq<char>,
    replies: Seq<ReplyView>,
    at: int,
)
    requires
        0 <= at < replies.len(),
        tells(board, ActionView::Read(seq![relations::cycle_query(child, parent)]), replies[at]),
    ensures
        ({
            let found = exchange::rows_at(replies, at, relations::cycle_query(child, parent));
            &&& found is Ok
            &&& found->Ok_0.len() > 0 <==> parents::is_ancestor(board.parents, child, parent)
        }),
{
    reveal(tells);
    let asked = seq![relations::cycle_query(child, parent)];
    assert(asked[0] == relations::cycle_query(child, parent));
}

/// The statement that gives a task a parent changes one row where the task has none.
pub proof fn lemma_tells_parent(
    board: Board,
    child: Seq<char>,
    parent: Seq<char>,
    time: Seq<char>,
    reply: ReplyView,
)
    requires
        tells(
            board,
            ActionView::Write(relations::relation_insert(("parent"@, parent, child), time)),
            reply,
        ),
    ensures
        reply == ReplyView::Changed(
            if board.parents.contains_key(child) {
                0
            } else {
                1
            },
        ),
{
    reveal(tells);
}

/// A project is read where it is there and not archived.
pub proof fn lemma_tells_project(
    board: Board,
    project_id: Seq<char>,
    replies: Seq<ReplyView>,
    at: int,
)
    requires
        0 <= at < replies.len(),
        tells(board, ActionView::Read(seq![project_query(project_id)]), replies[at]),
    ensures
        projects::project_at(replies, at, project_id, false) is Ok,
        projects::project_at(replies, at, project_id, false)->Ok_0 is Some
            <==> board.next.contains_key(project_id),
{
    reveal(tells);
    let asked = seq![project_query(project_id)];
    assert(asked[0] == project_query(project_id));
}

/// The query for a project that is not archived.
pub open spec fn project_query(project_id: Seq<char>) -> StatementView {
    store::stated(projects::ACTIVE_PROJECT@, store::params().push(store::text_param(project_id)))
}

/// The query for the attachments of a task.
pub open spec fn attachments_query(id: Seq<char>) -> StatementView {
    store::stated(task_edits::TASK_ATTACHMENTS@, store::params().push(store::text_param(id)))
}

/// The attachments of a task are told as texts.
pub proof fn lemma_tells_attachments(
    board: Board,
    id: Seq<char>,
    replies: Seq<ReplyView>,
    at: int,
)
    requires
        0 <= at < replies.len(),
        tells(board, ActionView::Read(seq![attachments_query(id)]), replies[at]),
    ensures
        ({
            let found = exchange::rows_at(replies, at, attachments_query(id));
            &&& found == Ok::<Seq<Seq<(Seq<char>, SqlView)>>, StepView>(replies[at]->Tables_0[0])
            &&& store::first_texts(replies[at]->Tables_0[0]) is Ok
        }),
{
    reveal(tells);
    let asked = seq![attachments_query(id)];
    assert(asked[0] == attachments_query(id));
}

/// Attachments are removed.
pub proof fn lemma_tells_removal(board: Board, ids: Seq<Seq<char>>, reply: ReplyView)
    requires
        tells(board, ActionView::RemoveAttachments(ids), reply),
    ensures
        reply is Done,
{
    reveal(tells);
}

/// A task that no key names is not found.
pub proof fn lemma_tells_no_task(board: Board, key: Seq<char>, replies: Seq<ReplyView>, at: int)
    requires
        0 <= at < replies.len(),
        forall|id: Seq<char>| !(#[trigger] board.is_named(key, id)),
        tells(board, ActionView::Read(seq![task_query(key)]), replies[at]),
    ensures
        tasks::task_at(replies, at, key) == Ok::<(Option<JsonView>, int), StepView>(
            (None, at + 1),
        ),
{
    reveal(tells);
    let asked = seq![task_query(key)];
    assert(asked[0] == task_query(key));
    assert(tells_task(board, key, replies[at]));
    let tables = seq![Seq::<Seq<(Seq<char>, SqlView)>>::empty()];
    assert(tables[0].len() == 0);
}

/// The five queries for the relatives of a task find tables that can be read.
pub proof fn lemma_tells_relations(board: Board, queries: Seq<StatementView>, reply: ReplyView)
    requires
        queries.len() == 5,
        tells(board, ActionView::Read(queries), reply),
    ensures
        reply is Tables,
        reply->Tables_0.len() == 5,
        tasks::relations_in(reply->Tables_0, 0) is Ok,
{
    reveal(tells);
}

/// The query for the time.
pub open spec fn time_query() -> ActionView {
    ActionView::Read(seq![store::stated(store::NOW@, store::params())])
}

/// The time is told as one.
pub proof fn lemma_tells_time(board: Board, reply: ReplyView)
    requires
        tells(board, time_query(), reply),
    ensures
        tells_time(reply),
{
    reveal(tells);
    let asked = seq![store::stated(store::NOW@, store::params())];
    assert(asked[0].sql == store::NOW@);
}

/// A statement that adds no task is carried out.
pub proof fn lemma_tells_write(board: Board, w: StatementView, reply: ReplyView)
    requires
        tells(board, ActionView::Write(w), reply),
        w.sql != task_edits::INSERT_TASK@,
    ensures
        reply is Changed,
{
    reveal(tells);
}

/// A task that a key names is read with its relations, and nothing becomes of the board.
pub proof fn lemma_task_is_read<V>(
    handler: spec_fn(Seq<ReplyView>) -> Result<V, StepView>,
    before: Board,
    replies: Seq<ReplyView>,
    at: int,
    key: Seq<char>,
    id: Seq<char>,
)
    requires
        history::is_course(handler, board_effect(), board_tells(), before, replies),
        0 <= at <= replies.len(),
        ({
            let board = history::became(handler, board_effect(), before, replies.take(at));
            board.is_sound() && board.names(key, id)
        }),
        handler(replies.take(at)) == Err::<V, StepView>(
            StepView::Ask(ActionView::Read(seq![task_query(key)])),
        ),
        at + 1 <= replies.len() && tasks::task_at(replies.take(at + 1), at, key) is Err
            ==> handler(replies.take(at + 1)) == Err::<V, StepView>(
            tasks::task_at(replies.take(at + 1), at, key)->Err_0,
        ),
    ensures
        at + 2 <= replies.len(),
        ({
            let board = history::became(handler, board_effect(), before, replies.take(at));
            let related = tasks::relations_in(replies[at + 1]->Tables_0, 0);
            &&& related is Ok
            &&& forall|n: int|
                at + 2 <= n <= replies.len() ==> #[trigger] tasks::task_at(
                    replies.take(n),
                    at,
                    key,
                ) == Ok::<(Option<JsonView>, int), StepView>(
                    (
                        Some(
                            tasks::extended(
                                showing::shown_task(board.tasks[id]),
                                "relations"@,
                                related->Ok_0,
                            ),
                        ),
                        at + 2,
                    ),
                )
            &&& history::became(handler, board_effect(), before, replies.take(at + 2)) == board
        }),
{
    let e = board_effect();
    let t = board_tells();
    let board = history::became(handler, e, before, replies.take(at));
    let values = board.tasks[id];
    history::lemma_told(handler, e, t, before, replies, at);
    assert(board.is_named(key, id));
    lemma_tells_task(board, key, id, replies[at]);
    assert(replies.take(at + 1)[at] == replies[at]);
    lemma_row_makes_a_task(replies.take(at + 1), at, key, values);
    history::lemma_step(handler, e, before, replies, at);
    history::lemma_told(handler, e, t, before, replies, at + 1);
    lemma_tells_relations(
        board,
        tasks::relation_queries(values[0]->Text_0),
        replies[at + 1],
    );
    history::lemma_step(handler, e, before, replies, at + 1);
    assert forall|n: int| at + 2 <= n <= replies.len() implies #[trigger] tasks::task_at(
        replies.take(n),
        at,
        key,
    ) == Ok::<(Option<JsonView>, int), StepView>(
        (
            Some(
                tasks::extended(
                    showing::shown_task(values),
                    "relations"@,
                    tasks::relations_in(replies[at + 1]->Tables_0, 0)->Ok_0,
                ),
            ),
            at + 2,
        ),
    ) by {
        assert(replies.take(n)[at] == replies[at]);
        assert(replies.take(n)[at + 1] == replies[at + 1]);
        lemma_row_makes_a_task(replies.take(n), at, key, values);
    }
}

/// The relations of a task that the reply at `at` tells.
pub open spec fn related_at(replies: Seq<ReplyView>, at: int) -> JsonView {
    tasks::relations_in(replies[at]->Tables_0, 0)->Ok_0
}

/// A task of a board as it is shown with the relations that the reply at `at` tells.
pub open spec fn task_shown(
    board: Board,
    id: Seq<char>,
    replies: Seq<ReplyView>,
    at: int,
) -> JsonView {
    tasks::extended(showing::shown_task(board.tasks[id]), "relations"@, related_at(replies, at))
}

/// What a request that names a task has in hand once the task is read.
pub open spec fn task_in_hand(task: JsonView, body: JsonView) -> Result<
    (JsonView, int, int),
    StepView,
> {
    match fields::expected_version(body) {
        Err(m) => Err(StepView::Fail(m)),
        Ok(version) => if json::integer_field(task, "version"@) != Some(version) {
            Err(StepView::Answer(task_edits::task_conflict()))
        } else {
            Ok((task, version, 2))
        },
    }
}

/// A request that starts with the task it names has it in hand after two replies, and nothing has
/// become of the board by then.
pub proof fn lemma_task_in_hand<V>(
    handler: spec_fn(Seq<ReplyView>) -> Result<V, StepView>,
    before: Board,
    replies: Seq<ReplyView>,
    key: Seq<char>,
    id: Seq<char>,
    body: JsonView,
)
    requires
        history::is_course(handler, board_effect(), board_tells(), before, replies),
        before.is_sound(),
        before.names(key, id),
        forall|n: int|
            0 <= n <= replies.len() && #[trigger] task_edits::current_task(
                replies.take(n),
                key,
                body,
            ) is Err ==> handler(replies.take(n)) == Err::<V, StepView>(
                task_edits::current_task(replies.take(n), key, body)->Err_0,
            ),
    ensures
        replies.len() >= 2,
        history::became(handler, board_effect(), before, replies.take(2)) == before,
        forall|n: int|
            2 <= n <= replies.len() ==> #[trigger] task_edits::current_task(
                replies.take(n),
                key,
                body,
            ) == task_in_hand(task_shown(before, id, replies, 1), body),
{
    history::lemma_start(handler, board_effect(), before, replies);
    assert(task_edits::current_task(replies.take(0), key, body) is Err);
    if replies.len() >= 1 && tasks::task_at(replies.take(1), 0, key) is Err {
        assert(task_edits::current_task(replies.take(1), key, body) is Err);
    }
    lemma_task_is_read(handler, before, replies, 0, key, id);
    assert forall|n: int| 2 <= n <= replies.len() implies #[trigger] task_edits::current_task(
        replies.take(n),
        key,
        body,
    ) == task_in_hand(task_shown(before, id, replies, 1), body) by {
        assert(tasks::task_at(replies.take(n), 0, key) is Ok);
    }
}

/// What is left of a request that changes a task with a statement and shows it: the replies from
/// `at` on tell the time, take the statement, and tell the task.
pub open spec fn change_at(
    replies: Seq<ReplyView>,
    at: int,
    task_id: Seq<char>,
    write: spec_fn(Seq<char>) -> StatementView,
) -> Result<ResponseView, StepView> {
    match store::now_at(replies, at) {
        Err(s) => Err(s),
        Ok(time) => match exchange::changed_at(replies, at + 1, write(time)) {
            Err(s) => Err(s),
            Ok(_) => task_edits::shown_task(replies, at + 2, task_id),
        },
    }
}

/// The time that the reply at `at` tells.
pub open spec fn time_at(replies: Seq<ReplyView>, at: int) -> Seq<char> {
    replies[at]->Tables_0[0][0][0].1->Text_0
}

/// A request that changes a task with a statement and shows it comes to that end: the statement is
/// carried out, and the task is shown as it has become.
pub proof fn lemma_change_is_shown(
    handler: spec_fn(Seq<ReplyView>) -> Result<ResponseView, StepView>,
    before: Board,
    replies: Seq<ReplyView>,
    at: int,
    task_id: Seq<char>,
    write: spec_fn(Seq<char>) -> StatementView,
)
    requires
        history::is_course(handler, board_effect(), board_tells(), before, replies),
        0 <= at <= replies.len(),
        forall|n: int|
            at <= n <= replies.len() ==> handler(#[trigger] replies.take(n)) == change_at(
                replies.take(n),
                at,
                task_id,
                write,
            ),
        forall|time: Seq<char>| (#[trigger] write(time)).sql != task_edits::INSERT_TASK@,
        ({
            let board = history::became(handler, board_effect(), before, replies.take(at));
            forall|time: Seq<char>| {
                let after = board_after(board, #[trigger] write(time));
                after.is_sound() && after.names(task_id, task_id)
            }
        }),
    ensures
        replies.len() >= at + 4,
        ({
            let board = history::became(handler, board_effect(), before, replies.take(at));
            let after = board_after(board, write(time_at(replies, at)));
            &&& history::became(handler, board_effect(), before, replies) == after
            &&& handler(replies) == Ok::<ResponseView, StepView>(
                task_edits::task_response(200, task_shown(after, task_id, replies, at + 3)),
            )
        }),
{
    let e = board_effect();
    let t = board_tells();
    let n = replies.len() as int;
    let board = history::became(handler, e, before, replies.take(at));
    let time = time_at(replies, at);
    history::lemma_start(handler, e, before, replies);
    assert(handler(replies.take(at)) is Err);
    history::lemma_told(handler, e, t, before, replies, at);
    lemma_tells_time(board, replies[at]);
    history::lemma_step(handler, e, before, replies, at);
    assert forall|m: int| at + 1 <= m <= n implies store::now_at(#[trigger] replies.take(m), at)
        == Ok::<Seq<char>, StepView>(time) by {
        assert(replies.take(m)[at] == replies[at]);
        lemma_time_is_read(replies.take(m), at);
    }
    assert(store::now_at(replies.take(at + 1), at) is Ok);
    assert(handler(replies.take(at + 1)) == Err::<ResponseView, StepView>(
        StepView::Ask(ActionView::Write(write(time))),
    ));
    history::lemma_told(handler, e, t, before, replies, at + 1);
    lemma_tells_write(board, write(time), replies[at + 1]);
    history::lemma_step(handler, e, before, replies, at + 1);
    let after = board_after(board, write(time));
    assert(history::became(handler, e, before, replies.take(at + 2)) == after);
    assert forall|m: int| at + 2 <= m <= n implies handler(#[trigger] replies.take(m))
        == task_edits::shown_task(replies.take(m), at + 2, task_id) by {
        assert(store::now_at(replies.take(m), at) is Ok);
        assert(replies.take(m)[at + 1] == replies[at + 1]);
    }
    assert(handler(replies.take(at + 2)) is Err);
    if at + 3 <= n {
        assert(handler(replies.take(at + 3)) == task_edits::shown_task(
            replies.take(at + 3),
            at + 2,
            task_id,
        ));
    }
    lemma_task_is_read(handler, before, replies, at + 2, task_id, task_id);
    assert forall|m: int| at + 4 <= m < n implies #[trigger] history::is_quiet(
        handler,
        e,
        replies,
        m,
    ) by {
        assert(tasks::task_at(replies.take(m), at + 2, task_id) is Ok);
        assert(handler(replies.take(m)) is Ok);
    }
    history::lemma_quiet(handler, e, before, replies, at + 4, n);
    assert(tasks::task_at(replies.take(n), at + 2, task_id) is Ok);
}

/// A request that has failed changes nothing on the board any more.
pub proof fn lemma_failure_is_quiet(
    handler: spec_fn(Seq<ReplyView>) -> Result<ResponseView, StepView>,
    before: Board,
    replies: Seq<ReplyView>,
    at: int,
    failed: Result<ResponseView, StepView>,
)
    requires
        0 <= at <= replies.len(),
        history::has_ended(failed),
        history::became(handler, board_effect(), before, replies.take(at)) == before,
        forall|m: int| at <= m <= replies.len() ==> handler(#[trigger] replies.take(m)) == failed,
    ensures
        handler(replies) == failed,
        history::became(handler, board_effect(), before, replies) == before,
{
    let e = board_effect();
    let n = replies.len() as int;
    history::lemma_start(handler, e, before, replies);
    assert forall|m: int| at <= m < n implies #[trigger] history::is_quiet(
        handler,
        e,
        replies,
        m,
    ) by {
        assert(handler(replies.take(m)) == failed);
    }
    history::lemma_quiet(handler, e, before, replies, at, n);
    assert(handler(replies.take(n)) == failed);
}

} // verus!
