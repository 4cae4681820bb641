//! That an update sets the fields of a task that the request names, and leaves the rest alone.
use crate::board;
use crate::board::Board;
use crate::exchange;
use crate::exchange::{ReplyView, ResponseView, SqlView, StatementView, StepView};
use crate::fields;
use crate::fields::ActorView;
use crate::history;
use crate::json;
use crate::json::JsonView;
use crate::numbering;
use crate::rows;
use crate::showing;
use crate::store;
use crate::task_edits;
use crate::task_edits::ChangesView;
use crate::tasks;
use crate::text;
use vstd::prelude::*;

verus! {

/// The values of a task with the title, description, status, priority and labels that a request
/// names.
pub open spec fn with_outline(values: Seq<SqlView>, body: JsonView) -> Seq<SqlView> {
    let titled = if json::field(body, "title"@) is None {
        values
    } else {
        values.update(3, SqlView::Text(fields::required_text(body, "title"@, 240)->Ok_0))
    };
    let described = if json::field(body, "description"@) is None {
        titled
    } else {
        titled.update(
            4,
            SqlView::Text(
                task_edits::text_or(
                    fields::text_of(body, "description"@, 100_000)->Ok_0,
                    Seq::empty(),
                ),
            ),
        )
    };
    let placed = match json::text_field(body, "status"@) {
        None => described,
        Some(status) => described.update(5, SqlView::Text(status)),
    };
    let weighed = match json::text_field(body, "priority"@) {
        None => placed,
        Some(priority) => placed.update(6, SqlView::Text(priority)),
    };
    if json::field(body, "labels"@) is None {
        weighed
    } else {
        weighed.update(
            7,
            SqlView::Text(fields::labels_stored(json::field(body, "labels"@))->Ok_0),
        )
    }
}

/// The values of a task with the workflow, the place of development, the due date and the recurrence
/// that a request names.
pub open spec fn with_plan(values: Seq<SqlView>, body: JsonView) -> Seq<SqlView> {
    let routed = if json::field(body, "workflowId"@) is None {
        values
    } else {
        values.update(18, store::optional_param(fields::text_of(body, "workflowId"@, 128)->Ok_0))
    };
    let located = if json::field(body, "developmentContext"@) is None {
        routed
    } else {
        let (branch, path, worktree) = fields::development(
            json::field(body, "developmentContext"@),
        )->Ok_0;
        routed.update(19, store::optional_param(branch)).update(
            20,
            store::optional_param(path),
        ).update(21, store::optional_param(worktree))
    };
    let due = if json::field(body, "dueDate"@) is None {
        located
    } else {
        located.update(
            22,
            store::optional_param(fields::due(json::field(body, "dueDate"@))->Ok_0),
        )
    };
    if json::field(body, "recurrence"@) is None {
        due
    } else {
        let recurrence = fields::recurring(json::field(body, "recurrence"@))->Ok_0;
        due.update(23, task_edits::interval_param(recurrence)).update(
            24,
            task_edits::unit_param(recurrence),
        )
    }
}

/// The values of a task with the thread and the assignee that a request names.
pub open spec fn with_people(values: Seq<SqlView>, body: JsonView, actor: ActorView) -> Seq<
    SqlView,
> {
    let threaded = match fields::text_of(body, "threadId"@, 256)->Ok_0 {
        None => values,
        Some(thread_id) => values.update(9, SqlView::Text(thread_id)),
    };
    if json::field(body, "assigneeTarget"@) is None {
        threaded
    } else {
        let assignee = fields::assignee(body, actor)->Ok_0;
        threaded.update(14, SqlView::Text(assignee.kind)).update(
            15,
            SqlView::Text(assignee.id),
        ).update(16, SqlView::Text(assignee.name)).update(
            17,
            store::optional_param(assignee.avatar_url),
        )
    }
}

/// The values of a task with the fields that a request names, one version up, at a time.
pub open spec fn edited(
    values: Seq<SqlView>,
    body: JsonView,
    actor: ActorView,
    time: Seq<char>,
) -> Seq<SqlView> {
    with_people(with_plan(with_outline(values, body), body), body, actor).update(
        26,
        board::counted(values[26]),
    ).update(28, SqlView::Text(time))
}

/// The assignment of a parameter to a column.
pub open spec fn assignment_of(k: int) -> Seq<char> {
    showing::task_columns()[k] + " = ?"@
}

/// Whether an assignment of a value is one to a column of a task that holds values of its kind.
pub open spec fn is_assignment(assignment: Seq<char>, value: SqlView) -> bool {
    exists|k: int|
        2 < k < 26 && #[trigger] assignment_of(k) == assignment && rows::of_kind(
            value,
            showing::task_kinds()[k],
        ) is Some
}

/// Whether changes assign one value each to columns of a task.
pub open spec fn are_assignments(changes: ChangesView) -> bool {
    &&& changes.assignments.len() == changes.values.len()
    &&& forall|i: int|
        0 <= i < changes.assignments.len() ==> is_assignment(
            #[trigger] changes.assignments[i],
            changes.values[i],
        )
}

/// What changes make of the values of a task.
pub open spec fn placed(values: Seq<SqlView>, changes: ChangesView) -> Seq<SqlView> {
    board::assigned(values, changes.assignments, changes.values)
}

proof fn lemma_assigned_column(k: int)
    requires
        0 <= k < 29,
    ensures
        board::assigned_column(assignment_of(k)) == k,
{
    let j = board::assigned_column(assignment_of(k));
    assert(showing::task_columns()[k] + " = ?"@ == assignment_of(k));
    assert(0 <= j < 29 && showing::task_columns()[j] + " = ?"@ == assignment_of(k));
    let a = showing::task_columns()[k];
    let b = showing::task_columns()[j];
    assert(a =~= assignment_of(k).take(assignment_of(k).len() - " = ?"@.len()));
    assert(b =~= assignment_of(k).take(assignment_of(k).len() - " = ?"@.len()));
    if j < k {
        showing::lemma_columns_differ(k, j);
    } else if k < j {
        showing::lemma_columns_differ(j, k);
    }
}

proof fn lemma_assigned_alike(
    values: Seq<SqlView>,
    assignments: Seq<Seq<char>>,
    params: Seq<SqlView>,
    others: Seq<SqlView>,
)
    requires
        assignments.len() <= params.len(),
        assignments.len() <= others.len(),
        forall|i: int| 0 <= i < assignments.len() ==> #[trigger] params[i] == others[i],
    ensures
        board::assigned(values, assignments, params) == board::assigned(
            values,
            assignments,
            others,
        ),
    decreases assignments.len(),
{
    if assignments.len() > 0 {
        lemma_assigned_alike(values, assignments.drop_last(), params, others);
        assert(params[assignments.len() - 1] == others[assignments.len() - 1]);
    }
}

proof fn lemma_with(values: Seq<SqlView>, changes: ChangesView, k: int, value: SqlView)
    requires
        are_assignments(changes),
        2 < k < 26,
        rows::of_kind(value, showing::task_kinds()[k]) is Some,
    ensures
        are_assignments(changes.with(assignment_of(k), value)),
        placed(values, changes.with(assignment_of(k), value)) == placed(values, changes).update(
            k,
            value,
        ),
{
    let more = changes.with(assignment_of(k), value);
    let n = changes.assignments.len() as int;
    assert(more.assignments.drop_last() =~= changes.assignments);
    lemma_assigned_alike(values, changes.assignments, more.values, changes.values);
    lemma_assigned_column(k);
    assert(more.assignments.last() == assignment_of(k));
    assert(more.values[n] == value);
    assert(assignment_of(k) == assignment_of(k));
    assert forall|i: int| 0 <= i < more.assignments.len() implies is_assignment(
        #[trigger] more.assignments[i],
        more.values[i],
    ) by {
        if i < n {
            assert(is_assignment(changes.assignments[i], changes.values[i]));
        }
    }
}

proof fn lemma_assignments_are_named()
    ensures
        assignment_of(3) == "title = ?"@,
        assignment_of(4) == "description = ?"@,
        assignment_of(5) == "status = ?"@,
        assignment_of(6) == "priority = ?"@,
        assignment_of(7) == "labels = ?"@,
        assignment_of(9) == "thread_id = ?"@,
        assignment_of(14) == "assignee_type = ?"@,
        assignment_of(15) == "assignee_id = ?"@,
        assignment_of(16) == "assignee_name = ?"@,
        assignment_of(17) == "assignee_avatar_url = ?"@,
        assignment_of(18) == "workflow_id = ?"@,
        assignment_of(19) == "git_branch = ?"@,
        assignment_of(20) == "worktree_path = ?"@,
        assignment_of(21) == "worktree_branch = ?"@,
        assignment_of(22) == "due_date = ?"@,
        assignment_of(23) == "recurrence_interval = ?"@,
        assignment_of(24) == "recurrence_unit = ?"@,
{
    reveal_strlit(" = ?");
    assert(assignment_of(3) =~= "title = ?"@) by {
        reveal_strlit("title");
        reveal_strlit("title = ?");
    }
    assert(assignment_of(4) =~= "description = ?"@) by {
        reveal_strlit("description");
        reveal_strlit("description = ?");
    }
    assert(assignment_of(5) =~= "status = ?"@) by {
        reveal_strlit("status");
        reveal_strlit("status = ?");
    }
    assert(assignment_of(6) =~= "priority = ?"@) by {
        reveal_strlit("priority");
        reveal_strlit("priority = ?");
    }
    assert(assignment_of(7) =~= "labels = ?"@) by {
        reveal_strlit("labels");
        reveal_strlit("labels = ?");
    }
    assert(assignment_of(9) =~= "thread_id = ?"@) by {
        reveal_strlit("thread_id");
        reveal_strlit("thread_id = ?");
    }
    assert(assignment_of(14) =~= "assignee_type = ?"@) by {
        reveal_strlit("assignee_type");
        reveal_strlit("assignee_type = ?");
    }
    assert(assignment_of(15) =~= "assignee_id = ?"@) by {
        reveal_strlit("assignee_id");
        reveal_strlit("assignee_id = ?");
    }
    assert(assignment_of(16) =~= "assignee_name = ?"@) by {
        reveal_strlit("assignee_name");
        reveal_strlit("assignee_name = ?");
    }
    assert(assignment_of(17) =~= "assignee_avatar_url = ?"@) by {
        reveal_strlit("assignee_avatar_url");
        reveal_strlit("assignee_avatar_url = ?");
    }
    assert(assignment_of(18) =~= "workflow_id = ?"@) by {
        reveal_strlit("workflow_id");
        reveal_strlit("workflow_id = ?");
    }
    assert(assignment_of(19) =~= "git_branch = ?"@) by {
        reveal_strlit("git_branch");
        reveal_strlit("git_branch = ?");
    }
    assert(assignment_of(20) =~= "worktree_path = ?"@) by {
        reveal_strlit("worktree_path");
        reveal_strlit("worktree_path = ?");
    }
    assert(assignment_of(21) =~= "worktree_branch = ?"@) by {
        reveal_strlit("worktree_branch");
        reveal_strlit("worktree_branch = ?");
    }
    assert(assignment_of(22) =~= "due_date = ?"@) by {
        reveal_strlit("due_date");
        reveal_strlit("due_date = ?");
    }
    assert(assignment_of(23) =~= "recurrence_interval = ?"@) by {
        reveal_strlit("recurrence_interval");
        reveal_strlit("recurrence_interval = ?");
    }
    assert(assignment_of(24) =~= "recurrence_unit = ?"@) by {
        reveal_strlit("recurrence_unit");
        reveal_strlit("recurrence_unit = ?");
    }
}

proof fn lemma_outline_is_placed(values: Seq<SqlView>, body: JsonView)
    ensures
        task_edits::outline_changes(body) is Ok ==> are_assignments(
            task_edits::outline_changes(body)->Ok_0,
        ) && placed(values, task_edits::outline_changes(body)->Ok_0) == with_outline(values, body),
{
    lemma_assignments_are_named();
    let none = ChangesView::none();
    assert(placed(values, none) == values);
    if task_edits::outline_changes(body) is Ok {
        let titled = task_edits::with_required(none, body, "title"@, 240, "title = ?"@)->Ok_0;
        if json::field(body, "title"@) is Some {
            lemma_with(
                values,
                none,
                3,
                SqlView::Text(fields::required_text(body, "title"@, 240)->Ok_0),
            );
        }
        let described = task_edits::with_description(titled, body)->Ok_0;
        if json::field(body, "description"@) is Some {
            lemma_with(
                values,
                titled,
                4,
                SqlView::Text(
                    task_edits::text_or(
                        fields::text_of(body, "description"@, 100_000)->Ok_0,
                        Seq::empty(),
                    ),
                ),
            );
        }
        let staged = task_edits::with_status(described, body)->Ok_0;
        if json::text_field(body, "status"@) is Some {
            lemma_with(
                values,
                described,
                5,
                SqlView::Text(json::text_field(body, "status"@)->0),
            );
        }
        let weighed = task_edits::with_priority(staged, body)->Ok_0;
        if json::text_field(body, "priority"@) is Some {
            lemma_with(
                values,
                staged,
                6,
                SqlView::Text(json::text_field(body, "priority"@)->0),
            );
        }
        if json::field(body, "labels"@) is Some {
            lemma_with(
                values,
                weighed,
                7,
                SqlView::Text(fields::labels_stored(json::field(body, "labels"@))->Ok_0),
            );
        }
    }
}

/// The changes of the workflow, the place of development, the due date and the recurrence that a
/// request names.
pub open spec fn plan_changes(changes: ChangesView, body: JsonView) -> Result<
    ChangesView,
    Seq<char>,
> {
    match task_edits::with_workflow(changes, body) {
        Err(m) => Err(m),
        Ok(routed) => match task_edits::with_development(routed, body) {
            Err(m) => Err(m),
            Ok(located) => match task_edits::with_due(located, body) {
                Err(m) => Err(m),
                Ok(due) => task_edits::with_recurrence(due, body),
            },
        },
    }
}

proof fn lemma_plan_is_placed(values: Seq<SqlView>, changes: ChangesView, body: JsonView)
    requires
        are_assignments(changes),
    ensures
        plan_changes(changes, body) is Ok ==> are_assignments(plan_changes(changes, body)->Ok_0)
            && placed(values, plan_changes(changes, body)->Ok_0) == with_plan(
            placed(values, changes),
            body,
        ),
{
    lemma_assignments_are_named();
    if plan_changes(changes, body) is Ok {
        let routed = task_edits::with_workflow(changes, body)->Ok_0;
        if json::field(body, "workflowId"@) is Some {
            lemma_with(
                values,
                changes,
                18,
                store::optional_param(fields::text_of(body, "workflowId"@, 128)->Ok_0),
            );
        }
        let located = task_edits::with_development(routed, body)->Ok_0;
        if json::field(body, "developmentContext"@) is Some {
            let d = fields::development(json::field(body, "developmentContext"@))->Ok_0;
            let branch = store::optional_param(d.0);
            let path = store::optional_param(d.1);
            lemma_with(values, routed, 19, branch);
            let one = routed.with(assignment_of(19), branch);
            lemma_with(values, one, 20, path);
            let two = one.with(assignment_of(20), path);
            lemma_with(values, two, 21, store::optional_param(d.2));
        }
        let due = task_edits::with_due(located, body)->Ok_0;
        if json::field(body, "dueDate"@) is Some {
            lemma_with(
                values,
                located,
                22,
                store::optional_param(fields::due(json::field(body, "dueDate"@))->Ok_0),
            );
        }
        if json::field(body, "recurrence"@) is Some {
            let r = fields::recurring(json::field(body, "recurrence"@))->Ok_0;
            lemma_with(values, due, 23, task_edits::interval_param(r));
            let one = due.with(assignment_of(23), task_edits::interval_param(r));
            lemma_with(values, one, 24, task_edits::unit_param(r));
        }
    }
}

/// The changes of the thread and the assignee that a request names.
pub open spec fn people_changes(changes: ChangesView, body: JsonView, actor: ActorView) -> Result<
    ChangesView,
    Seq<char>,
> {
    match task_edits::with_thread(changes, body) {
        Err(m) => Err(m),
        Ok(threaded) => task_edits::with_assignee(threaded, body, actor),
    }
}

proof fn lemma_people_are_placed(
    values: Seq<SqlView>,
    changes: ChangesView,
    body: JsonView,
    actor: ActorView,
)
    requires
        are_assignments(changes),
    ensures
        people_changes(changes, body, actor) is Ok ==> are_assignments(
            people_changes(changes, body, actor)->Ok_0,
        ) && placed(values, people_changes(changes, body, actor)->Ok_0) == with_people(
            placed(values, changes),
            body,
            actor,
        ),
{
    lemma_assignments_are_named();
    if people_changes(changes, body, actor) is Ok {
        let threaded = task_edits::with_thread(changes, body)->Ok_0;
        let thread_id = fields::text_of(body, "threadId"@, 256)->Ok_0;
        if thread_id is Some {
            lemma_with(values, changes, 9, SqlView::Text(thread_id->0));
        }
        if json::field(body, "assigneeTarget"@) is Some {
            let a = fields::assignee(body, actor)->Ok_0;
            lemma_with(values, threaded, 14, SqlView::Text(a.kind));
            let one = threaded.with(assignment_of(14), SqlView::Text(a.kind));
            lemma_with(values, one, 15, SqlView::Text(a.id));
            let two = one.with(assignment_of(15), SqlView::Text(a.id));
            lemma_with(values, two, 16, SqlView::Text(a.name));
            let three = two.with(assignment_of(16), SqlView::Text(a.name));
            lemma_with(values, three, 17, store::optional_param(a.avatar_url));
        }
    }
}

proof fn lemma_changes_are_placed(values: Seq<SqlView>, body: JsonView, actor: ActorView)
    requires
        task_edits::task_changes(body, actor) is Ok,
    ensures
        are_assignments(task_edits::task_changes(body, actor)->Ok_0),
        placed(values, task_edits::task_changes(body, actor)->Ok_0) == with_people(
            with_plan(with_outline(values, body), body),
            body,
            actor,
        ),
{
    reveal(task_edits::task_changes);
    lemma_outline_is_placed(values, body);
    let head = task_edits::outline_changes(body)->Ok_0;
    lemma_plan_is_placed(values, head, body);
    assert(task_edits::details_changes(head, body, actor) is Ok);
    assert(plan_changes(head, body) is Ok);
    let plan = plan_changes(head, body)->Ok_0;
    lemma_people_are_placed(values, plan, body, actor);
    assert(task_edits::details_changes(head, body, actor) == people_changes(plan, body, actor));
}
/// The parts of a joined text: the first as it is, each other behind a space.
pub open spec fn spaced(parts: Seq<Seq<char>>) -> Seq<Seq<char>> {
    Seq::new(
        parts.len(),
        |i: int|
            if i == 0 {
                parts[0]
            } else {
                " "@ + parts[i]
            },
    )
}

proof fn lemma_joined_splits(parts: Seq<Seq<char>>)
    requires
        parts.len() > 0,
        forall|i: int| 0 <= i < parts.len() ==> !(#[trigger] parts[i]).contains(','),
    ensures
        text::split_spec(text::joined(parts, ", "@), ',') == spaced(parts),
    decreases parts.len(),
{
    let last = parts.last();
    assert(!parts[parts.len() - 1].contains(','));
    if parts.len() == 1 {
        text::lemma_split_plain(parts[0], ',');
        assert(spaced(parts) =~= seq![parts[0]]);
    } else {
        let less = parts.drop_last();
        assert forall|i: int| 0 <= i < less.len() implies !(#[trigger] less[i]).contains(',') by {
            assert(less[i] == parts[i]);
        }
        lemma_joined_splits(less);
        let x = text::joined(less, ", "@).push(',');
        let y = " "@ + last;
        reveal_strlit(", ");
        reveal_strlit(" ");
        assert(text::joined(parts, ", "@) =~= x + y);
        assert(x.drop_last() =~= text::joined(less, ", "@));
        assert(text::split_spec(x, ',') == spaced(less).push(Seq::empty()));
        text::lemma_split_joins(x, y, ',');
        assert(!y.contains(',')) by {
            if y.contains(',') {
                let k = choose|k: int| 0 <= k < y.len() && y[k] == ',';
                assert(k > 0);
                assert(last[k - 1] == ',');
            }
        }
        text::lemma_split_plain(y, ',');
        assert(spaced(less).push(Seq::<char>::empty()).drop_last() =~= spaced(less));
        assert(spaced(less) + seq![y] =~= spaced(parts));
    }
}

proof fn lemma_column_has_no_comma(k: int)
    requires
        0 <= k < 29,
    ensures
        !assignment_of(k).contains(','),
{
    reveal_strlit(" = ?");
    reveal_strlit("id");
    reveal_strlit("identifier");
    reveal_strlit("project_id");
    reveal_strlit("title");
    reveal_strlit("description");
    reveal_strlit("status");
    reveal_strlit("priority");
    reveal_strlit("labels");
    reveal_strlit("sort_order");
    reveal_strlit("thread_id");
    reveal_strlit("creator_type");
    reveal_strlit("creator_id");
    reveal_strlit("creator_name");
    reveal_strlit("creator_avatar_url");
    reveal_strlit("assignee_type");
    reveal_strlit("assignee_id");
    reveal_strlit("assignee_name");
    reveal_strlit("assignee_avatar_url");
    reveal_strlit("workflow_id");
    reveal_strlit("git_branch");
    reveal_strlit("worktree_path");
    reveal_strlit("worktree_branch");
    reveal_strlit("due_date");
    reveal_strlit("recurrence_interval");
    reveal_strlit("recurrence_unit");
    reveal_strlit("archived_at");
    reveal_strlit("version");
    reveal_strlit("created_at");
    reveal_strlit("updated_at");
    let a = assignment_of(k);
    let column = showing::task_columns()[k];
    assert(forall|i: int| 0 <= i < column.len() ==> #[trigger] column[i] != ',');
    if a.contains(',') {
        let i = choose|i: int| 0 <= i < a.len() && a[i] == ',';
        if i < column.len() {
            assert(column[i] == ',');
        } else {
            assert(" = ?"@[i - column.len()] == ',');
        }
    }
}

proof fn lemma_update_statement(
    values: Seq<SqlView>,
    changes: ChangesView,
    id: Seq<char>,
    version: int,
    time: Seq<char>,
)
    requires
        are_assignments(changes),
        values.len() == 29,
    ensures
        ({
            let w = task_edits::task_update(changes, id, version, time);
            &&& board::is_update(w)
            &&& board::updated(values, w) == placed(values, changes).update(
                26,
                board::counted(values[26]),
            ).update(28, SqlView::Text(time))
        }),
{
    let w = task_edits::task_update(changes, id, version, time);
    let parts = changes.assignments.push(task_edits::COUNT_UP@).push("updated_at = ?"@);
    let start = "UPDATE tasks SET "@;
    let end = " WHERE id = ? AND version = ?"@;
    let middle = text::joined(parts, ", "@);
    assert(w.sql == start + middle + end);
    assert(w.sql.skip(w.sql.len() - end.len()) =~= end);
    assert(w.sql.subrange(start.len() as int, w.sql.len() - end.len()) =~= middle);
    assert forall|i: int| 0 <= i < parts.len() implies !(#[trigger] parts[i]).contains(',') by {
        if i < changes.assignments.len() {
            assert(is_assignment(changes.assignments[i], changes.values[i]));
            let k = choose|k: int|
                2 < k < 26 && #[trigger] assignment_of(k) == changes.assignments[i]
                    && rows::of_kind(changes.values[i], showing::task_kinds()[k]) is Some;
            lemma_column_has_no_comma(k);
        } else {
            reveal_strlit("version = version + 1");
            reveal_strlit("updated_at = ?");
        }
    }
    lemma_joined_splits(parts);
    let named = board::assignments_of(w.sql);
    assert(named =~= parts) by {
        reveal_strlit(" ");
        assert forall|i: int| 0 <= i < parts.len() implies #[trigger] named[i] == parts[i] by {
            if i > 0 {
                assert((" "@ + parts[i]).skip(1) =~= parts[i]);
            }
        }
    }
    let n = changes.assignments.len() as int;
    assert(named.take(n) =~= changes.assignments);
    lemma_assigned_alike(values, changes.assignments, w.params, changes.values);
    assert(w.params[n] == SqlView::Text(time));
}

/// The update of a task.
pub open spec fn editing(key: Seq<char>, body: JsonView, actor: ActorView) -> spec_fn(
    Seq<ReplyView>,
) -> Result<ResponseView, StepView> {
    |replies: Seq<ReplyView>| task_edits::task_updated(replies, key, body, actor)
}

/// The statement of the update of a task, by the time that it notes.
pub open spec fn update_statement(changes: ChangesView, id: Seq<char>, version: int) -> spec_fn(
    Seq<char>,
) -> StatementView {
    |time: Seq<char>| task_edits::task_update(changes, id, version, time)
}

proof fn lemma_placed_is_stored(values: Seq<SqlView>, assignments: Seq<Seq<char>>, params: Seq<SqlView>)
    requires
        showing::is_stored_task(values),
        are_assignments(ChangesView { assignments, values: params }),
    ensures
        showing::is_stored_task(board::assigned(values, assignments, params)),
        board::assigned(values, assignments, params)[0] == values[0],
        board::assigned(values, assignments, params)[1] == values[1],
        board::assigned(values, assignments, params)[26] == values[26],
    decreases assignments.len(),
{
    if assignments.len() > 0 {
        let n = assignments.len() - 1;
        let less = ChangesView { assignments: assignments.drop_last(), values: params.drop_last() };
        let whole = ChangesView { assignments, values: params };
        assert forall|i: int| 0 <= i < n implies is_assignment(
            #[trigger] less.assignments[i],
            less.values[i],
        ) by {
            assert(is_assignment(whole.assignments[i], whole.values[i]));
        }
        lemma_placed_is_stored(values, less.assignments, less.values);
        lemma_assigned_alike(values, less.assignments, params, less.values);
        assert(is_assignment(whole.assignments[n], whole.values[n]));
        let k = choose|k: int|
            2 < k < 26 && #[trigger] assignment_of(k) == whole.assignments[n]
                && rows::of_kind(whole.values[n], showing::task_kinds()[k]) is Some;
        lemma_assigned_column(k);
        let before = board::assigned(values, less.assignments, params);
        let after = board::assigned(values, assignments, params);
        assert(after == before.update(k, params[n]));
        assert forall|i: int| 0 <= i < 29 implies rows::of_kind(
            #[trigger] after[i],
            showing::task_kinds()[i],
        ) is Some by {
            assert(rows::of_kind(before[i], showing::task_kinds()[i]) is Some);
        }
    }
}

proof fn lemma_update_of_a_board(
    before: Board,
    id: Seq<char>,
    body: JsonView,
    actor: ActorView,
    version: int,
    time: Seq<char>,
)
    requires
        before.is_sound(),
        before.tasks.contains_key(id),
        before.tasks[id][26] == SqlView::Integer(version),
        task_edits::task_changes(body, actor) is Ok,
    ensures
        ({
            let changes = task_edits::task_changes(body, actor)->Ok_0;
            let w = update_statement(changes, id, version)(time);
            let after = board::board_after(before, w);
            &&& w.sql != task_edits::INSERT_TASK@
            &&& after == before.with_task(id, edited(before.tasks[id], body, actor, time))
            &&& after.is_sound()
            &&& forall|key: Seq<char>| #[trigger] before.names(key, id) ==> after.names(key, id)
        }),
{
    let changes = task_edits::task_changes(body, actor)->Ok_0;
    let w = task_edits::task_update(changes, id, version, time);
    let values = before.tasks[id];
    assert(showing::is_stored_task(values));
    lemma_changes_are_placed(values, body, actor);
    lemma_update_statement(values, changes, id, version, time);
    lemma_placed_is_stored(values, changes.assignments, changes.values);
    let placed_values = placed(values, changes);
    let edited_values = edited(values, body, actor, time);
    assert forall|i: int| 0 <= i < 29 implies rows::of_kind(
        #[trigger] edited_values[i],
        showing::task_kinds()[i],
    ) is Some by {
        assert(rows::of_kind(placed_values[i], showing::task_kinds()[i]) is Some);
    }
    board::lemma_with_task(before, id, edited_values);
    board::lemma_other_statements();
    reveal(board::board_after);
    let n = w.params.len() as int;
    assert(w.params[n - 2] == SqlView::Text(id));
    assert(w.params[n - 1] == SqlView::Integer(version));
}

proof fn lemma_editing_goes_on(
    replies: Seq<ReplyView>,
    key: Seq<char>,
    id: Seq<char>,
    body: JsonView,
    actor: ActorView,
    values: Seq<SqlView>,
    related: JsonView,
)
    requires
        showing::is_stored_task(values),
        values[0] == SqlView::Text(id),
        task_edits::current_task(replies, key, body) == board::task_in_hand(
            tasks::extended(showing::shown_task(values), "relations"@, related),
            body,
        ),
    ensures
        task_edits::task_updated(replies, key, body, actor) == editing_goes_on(
            replies,
            id,
            body,
            actor,
            values,
        ),
{
    reveal(task_edits::task_updated);
    showing::lemma_shown_members(values, "relations"@, related);
    assert(rows::of_kind(values[26], showing::task_kinds()[26]) is Some);
}

/// What is left of an update once the task is read.
pub open spec fn editing_goes_on(
    replies: Seq<ReplyView>,
    id: Seq<char>,
    body: JsonView,
    actor: ActorView,
    values: Seq<SqlView>,
) -> Result<ResponseView, StepView> {
    match editing_fails(body, actor, values) {
        Some(s) => s,
        None => board::change_at(
            replies,
            2,
            id,
            update_statement(
                task_edits::task_changes(body, actor)->Ok_0,
                id,
                fields::expected_version(body)->Ok_0,
            ),
        ),
    }
}

/// How an update of a task fails: the version that it expects is none, or not that of the task; a
/// field that it names is invalid; or it names none.
pub open spec fn editing_fails(body: JsonView, actor: ActorView, values: Seq<SqlView>) -> Option<
    Result<ResponseView, StepView>,
> {
    match fields::expected_version(body) {
        Err(m) => Some(Err(StepView::Fail(m))),
        Ok(version) => if values[26] != SqlView::Integer(version) {
            Some(Err(StepView::Answer(task_edits::task_conflict())))
        } else {
            match task_edits::task_changes(body, actor) {
                Err(m) => Some(Err(StepView::Fail(m))),
                Ok(changes) => if changes.assignments.len() == 0 {
                    Some(
                        Ok(
                            exchange::refusal(
                                400,
                                "INVALID_BODY"@,
                                "PATCH requires at least one task field"@,
                            ),
                        ),
                    )
                } else {
                    None
                },
            }
        },
    }
}

/// An update of a task sets the fields that the request names, counts the task one version up, notes
/// the time, and leaves every other field, every other task, the numbering and the parents as they
/// are; it is answered with the task as it has become. An update that fails changes nothing.
pub proof fn law_update_leaves_the_rest_alone(
    before: Board,
    key: Seq<char>,
    id: Seq<char>,
    body: JsonView,
    actor: ActorView,
    replies: Seq<ReplyView>,
)
    requires
        before.is_sound(),
        before.names(key, id),
        before.names(id, id),
        history::is_course(
            editing(key, body, actor),
            board::board_effect(),
            board::board_tells(),
            before,
            replies,
        ),
    ensures
        ({
            let result = task_edits::task_updated(replies, key, body, actor);
            let after = history::became(
                editing(key, body, actor),
                board::board_effect(),
                before,
                replies,
            );
            let time = board::time_at(replies, 2);
            match editing_fails(body, actor, before.tasks[id]) {
                Some(failed) => result == failed && after == before,
                None => {
                    &&& after == before.with_task(id, edited(before.tasks[id], body, actor, time))
                    &&& after.is_sound()
                    &&& result == Ok::<ResponseView, StepView>(
                        task_edits::task_response(200, board::task_shown(after, id, replies, 5)),
                    )
                },
            }
        }),
{
    let h = editing(key, body, actor);
    let e = board::board_effect();
    let n = replies.len() as int;
    let values = before.tasks[id];
    assert forall|m: int|
        0 <= m <= n && #[trigger] task_edits::current_task(replies.take(m), key, body) is Err implies h(
        replies.take(m),
    ) == Err::<ResponseView, StepView>(
        task_edits::current_task(replies.take(m), key, body)->Err_0,
    ) by {
        reveal(task_edits::task_updated);
    }
    board::lemma_task_in_hand(h, before, replies, key, id, body);
    history::lemma_start(h, e, before, replies);
    assert forall|m: int| 2 <= m <= n implies h(#[trigger] replies.take(m)) == editing_goes_on(
        replies.take(m),
        id,
        body,
        actor,
        values,
    ) by {
        assert(task_edits::current_task(replies.take(m), key, body) == board::task_in_hand(
            board::task_shown(before, id, replies, 1),
            body,
        ));
        lemma_editing_goes_on(
            replies.take(m),
            key,
            id,
            body,
            actor,
            values,
            board::related_at(replies, 1),
        );
    }
    if editing_fails(body, actor, values) is Some {
        assert forall|m: int| 2 <= m < n implies #[trigger] history::is_quiet(h, e, replies, m) by {
            assert(h(replies.take(m)) == editing_fails(body, actor, values)->0);
        }
        history::lemma_quiet(h, e, before, replies, 2, n);
        assert(h(replies.take(n)) == editing_fails(body, actor, values)->0);
    } else {
        let changes = task_edits::task_changes(body, actor)->Ok_0;
        let version = fields::expected_version(body)->Ok_0;
        let write = update_statement(changes, id, version);
        assert forall|time: Seq<char>| (#[trigger] write(time)).sql
            != task_edits::INSERT_TASK@ by {
            lemma_update_of_a_board(before, id, body, actor, version, time);
        }
        assert forall|time: Seq<char>| {
            let after = board::board_after(before, #[trigger] write(time));
            after.is_sound() && after.names(id, id)
        } by {
            lemma_update_of_a_board(before, id, body, actor, version, time);
        }
        board::lemma_change_is_shown(h, before, replies, 2, id, write);
        lemma_update_of_a_board(
            before,
            id,
            body,
            actor,
            version,
            board::time_at(replies, 2),
        );
    }
}

/// The members of a task as it is shown.
pub open spec fn members_of(values: Seq<SqlView>) -> Seq<(Seq<char>, JsonView)> {
    showing::shown_task(values)->Object_0
}

/// The columns of a task that is updated, one by one.
#[verifier::spinoff_prover]
#[verifier::rlimit(30)]
pub proof fn lemma_edited_cells(values: Seq<SqlView>, body: JsonView, actor: ActorView, time: Seq<char>)
    requires
        showing::is_stored_task(values),
    ensures
        ({
            let e = edited(values, body, actor, time);
            &&& e.len() == 29
            &&& forall|k: int|
                0 <= k < 3 || k == 8 || 10 <= k < 14 || k == 25 || k == 27 ==> #[trigger] e[k]
                    == values[k]
            &&& e[3] == if json::field(body, "title"@) is None {
                values[3]
            } else {
                SqlView::Text(fields::required_text(body, "title"@, 240)->Ok_0)
            }
            &&& e[4] == if json::field(body, "description"@) is None {
                values[4]
            } else {
                SqlView::Text(
                    task_edits::text_or(
                        fields::text_of(body, "description"@, 100_000)->Ok_0,
                        Seq::empty(),
                    ),
                )
            }
            &&& e[5] == match json::text_field(body, "status"@) {
                None => values[5],
                Some(status) => SqlView::Text(status),
            }
            &&& e[6] == match json::text_field(body, "priority"@) {
                None => values[6],
                Some(priority) => SqlView::Text(priority),
            }
            &&& e[7] == if json::field(body, "labels"@) is None {
                values[7]
            } else {
                SqlView::Text(fields::labels_stored(json::field(body, "labels"@))->Ok_0)
            }
            &&& e[9] == match fields::text_of(body, "threadId"@, 256)->Ok_0 {
                None => values[9],
                Some(thread_id) => SqlView::Text(thread_id),
            }
            &&& json::field(body, "assigneeTarget"@) is None ==> e.subrange(14, 18)
                == values.subrange(14, 18)
            &&& json::field(body, "assigneeTarget"@) is Some ==> ({
                let assignee = fields::assignee(body, actor)->Ok_0;
                &&& e[14] == SqlView::Text(assignee.kind)
                &&& e[15] == SqlView::Text(assignee.id)
                &&& e[16] == SqlView::Text(assignee.name)
                &&& e[17] == store::optional_param(assignee.avatar_url)
            })
            &&& e[18] == if json::field(body, "workflowId"@) is None {
                values[18]
            } else {
                store::optional_param(fields::text_of(body, "workflowId"@, 128)->Ok_0)
            }
            &&& json::field(body, "developmentContext"@) is None ==> e.subrange(19, 22)
                == values.subrange(19, 22)
            &&& json::field(body, "developmentContext"@) is Some ==> ({
                let place = fields::development(json::field(body, "developmentContext"@))->Ok_0;
                &&& e[19] == store::optional_param(place.0)
                &&& e[20] == store::optional_param(place.1)
                &&& e[21] == store::optional_param(place.2)
            })
            &&& e[22] == if json::field(body, "dueDate"@) is None {
                values[22]
            } else {
                store::optional_param(fields::due(json::field(body, "dueDate"@))->Ok_0)
            }
            &&& json::field(body, "recurrence"@) is None ==> e.subrange(23, 25)
                == values.subrange(23, 25)
            &&& json::field(body, "recurrence"@) is Some ==> ({
                let recurrence = fields::recurring(json::field(body, "recurrence"@))->Ok_0;
                &&& e[23] == task_edits::interval_param(recurrence)
                &&& e[24] == task_edits::unit_param(recurrence)
            })
            &&& e[26] == board::counted(values[26])
            &&& e[28] == SqlView::Text(time)
        }),
{
    let o = with_outline(values, body);
    let q = with_plan(o, body);
    let r = with_people(q, body, actor);
    let e = edited(values, body, actor, time);
    assert(o.len() == 29 && q.len() == 29 && r.len() == 29);
    if json::field(body, "assigneeTarget"@) is None {
        assert(e.subrange(14, 18) =~= values.subrange(14, 18));
    }
    if json::field(body, "developmentContext"@) is None {
        assert(e.subrange(19, 22) =~= values.subrange(19, 22));
    }
    if json::field(body, "recurrence"@) is None {
        assert(e.subrange(23, 25) =~= values.subrange(23, 25));
    }
}

/// A task that is updated is shown with the fields that the request names as they were sent, one
/// version up, and with every other field as before.
#[verifier::spinoff_prover]
#[verifier::rlimit(30)]
pub proof fn law_update_is_shown_as_sent(
    values: Seq<SqlView>,
    body: JsonView,
    actor: ActorView,
    time: Seq<char>,
)
    requires
        showing::is_stored_task(values),
        task_edits::task_changes(body, actor) is Ok,
    ensures
        ({
            let before = members_of(values);
            let after = members_of(edited(values, body, actor, time));
            &&& after.len() == 23 && before.len() == 23
            &&& forall|k: int|
                0 <= k < 3 || k == 8 || 10 <= k < 14 || k == 19 || k == 21 ==> #[trigger] after[k]
                    == before[k]
            &&& after[3] == if json::field(body, "title"@) is None {
                before[3]
            } else {
                (
                    "title"@,
                    JsonView::Text(fields::required_text(body, "title"@, 240)->Ok_0),
                )
            }
            &&& after[4] == if json::field(body, "description"@) is None {
                before[4]
            } else {
                (
                    "description"@,
                    JsonView::Text(
                        task_edits::text_or(
                            fields::text_of(body, "description"@, 100_000)->Ok_0,
                            Seq::empty(),
                        ),
                    ),
                )
            }
            &&& after[5] == match json::text_field(body, "status"@) {
                None => before[5],
                Some(status) => ("status"@, JsonView::Text(status)),
            }
            &&& after[6] == match json::text_field(body, "priority"@) {
                None => before[6],
                Some(priority) => ("priority"@, JsonView::Text(priority)),
            }
            &&& after[7] == if json::field(body, "labels"@) is None {
                before[7]
            } else {
                (
                    "labels"@,
                    tasks::shown_labels(
                        JsonView::Text(
                            fields::labels_stored(json::field(body, "labels"@))->Ok_0,
                        ),
                    ),
                )
            }
            &&& after[9] == match fields::text_of(body, "threadId"@, 256)->Ok_0 {
                None => before[9],
                Some(thread_id) => ("threadId"@, JsonView::Text(thread_id)),
            }
            &&& after[14] == if json::field(body, "assigneeTarget"@) is None {
                before[14]
            } else {
                ("assignee"@, numbering::sent_assignee(fields::assignee(body, actor)->Ok_0))
            }
            &&& after[15] == if json::field(body, "workflowId"@) is None {
                before[15]
            } else {
                (
                    "workflowId"@,
                    rows::shown_text(fields::text_of(body, "workflowId"@, 128)->Ok_0),
                )
            }
            &&& after[16] == if json::field(body, "developmentContext"@) is None {
                before[16]
            } else {
                let place = fields::development(json::field(body, "developmentContext"@))->Ok_0;
                (
                    "developmentContext"@,
                    numbering::sent_development(place.0, place.1, place.2),
                )
            }
            &&& after[17] == if json::field(body, "dueDate"@) is None {
                before[17]
            } else {
                (
                    "dueDate"@,
                    rows::shown_text(fields::due(json::field(body, "dueDate"@))->Ok_0),
                )
            }
            &&& after[18] == if json::field(body, "recurrence"@) is None {
                before[18]
            } else {
                (
                    "recurrence"@,
                    numbering::sent_recurrence(
                        fields::recurring(json::field(body, "recurrence"@))->Ok_0,
                    ),
                )
            }
            &&& after[20] == ("version"@, JsonView::Integer(values[26]->Integer_0 + 1))
            &&& after[22] == ("updatedAt"@, JsonView::Text(time))
        }),
{
    lemma_edited_cells(values, body, actor, time);
    reveal(showing::shown_task);
    let e = edited(values, body, actor, time);
    let before = members_of(values);
    let after = members_of(e);
    assert(rows::of_kind(values[26], showing::task_kinds()[26]) is Some);
    if json::field(body, "assigneeTarget"@) is None {
        assert forall|k: int| 14 <= k < 18 implies #[trigger] e[k] == values[k] by {
            assert(e.subrange(14, 18)[k - 14] == values.subrange(14, 18)[k - 14]);
        }
        assert(showing::shown_assignee(e) == showing::shown_assignee(values));
    } else {
        assert(showing::shown_assignee(e)->Object_0 =~= numbering::sent_assignee(
            fields::assignee(body, actor)->Ok_0,
        )->Object_0);
    }
    if json::field(body, "developmentContext"@) is None {
        assert forall|k: int| 19 <= k < 22 implies #[trigger] e[k] == values[k] by {
            assert(e.subrange(19, 22)[k - 19] == values.subrange(19, 22)[k - 19]);
        }
    } else {
        let place = fields::development(json::field(body, "developmentContext"@))->Ok_0;
        let sent = numbering::sent_development(place.0, place.1, place.2);
        if sent is Object {
            assert(showing::shown_development(e)->Object_0 =~= sent->Object_0);
        }
    }
    if json::field(body, "recurrence"@) is None {
        assert forall|k: int| 23 <= k < 25 implies #[trigger] e[k] == values[k] by {
            assert(e.subrange(23, 25)[k - 23] == values.subrange(23, 25)[k - 23]);
        }
    } else {
        let sent = numbering::sent_recurrence(
            fields::recurring(json::field(body, "recurrence"@))->Ok_0,
        );
        if sent is Object {
            assert(tasks::recurrence_of(
                showing::shown_cell(e, 23),
                showing::shown_cell(e, 24),
            )->Object_0 =~= sent->Object_0);
        }
    }
    assert forall|k: int|
        0 <= k < 3 || k == 8 || 10 <= k < 14 || k == 19 || k == 21 implies #[trigger] after[k]
        == before[k] by {
        assert(e[0] == values[0] && e[1] == values[1] && e[2] == values[2] && e[8] == values[8]);
        assert(e[10] == values[10] && e[11] == values[11] && e[12] == values[12] && e[13]
            == values[13]);
        assert(e[25] == values[25] && e[27] == values[27]);
    }
}

} // verus!
