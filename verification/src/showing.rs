//! That a task is shown as it is stored.
//!
//! A stored task is the sequence of the values in its columns, in the order of the schema.
use crate::exchange;
use crate::exchange::SqlView;
use crate::json;
use crate::json::JsonView;
use crate::rows;
use crate::rows::Kind;
use crate::tasks;
use vstd::prelude::*;

verus! {

/// The columns of a task, in the order of the schema.
pub open spec fn task_columns() -> Seq<Seq<char>> {
    seq![
        "id"@,
        "identifier"@,
        "project_id"@,
        "title"@,
        "description"@,
        "status"@,
        "priority"@,
        "labels"@,
        "sort_order"@,
        "thread_id"@,
        "creator_type"@,
        "creator_id"@,
        "creator_name"@,
        "creator_avatar_url"@,
        "assignee_type"@,
        "assignee_id"@,
        "assignee_name"@,
        "assignee_avatar_url"@,
        "workflow_id"@,
        "git_branch"@,
        "worktree_path"@,
        "worktree_branch"@,
        "due_date"@,
        "recurrence_interval"@,
        "recurrence_unit"@,
        "archived_at"@,
        "version"@,
        "created_at"@,
        "updated_at"@,
    ]
}

/// What the columns of a task hold.
pub open spec fn task_kinds() -> Seq<Kind> {
    seq![
        Kind::Text,
        Kind::Text,
        Kind::Text,
        Kind::Text,
        Kind::Text,
        Kind::Text,
        Kind::Text,
        Kind::Text,
        Kind::Real,
        Kind::OptionalText,
        Kind::Text,
        Kind::Text,
        Kind::Text,
        Kind::OptionalText,
        Kind::Text,
        Kind::Text,
        Kind::Text,
        Kind::OptionalText,
        Kind::OptionalText,
        Kind::OptionalText,
        Kind::OptionalText,
        Kind::OptionalText,
        Kind::OptionalText,
        Kind::OptionalInteger,
        Kind::OptionalText,
        Kind::OptionalText,
        Kind::Integer,
        Kind::Text,
        Kind::Text,
    ]
}

/// The row of a task with these values in its columns.
#[verifier::opaque]
pub open spec fn task_row(values: Seq<SqlView>) -> Seq<(Seq<char>, SqlView)> {
    Seq::new(29, |i: int| (task_columns()[i], values[i]))
}

/// Whether values are those of a task: each column holds what it is meant to.
pub open spec fn is_stored_task(values: Seq<SqlView>) -> bool {
    &&& values.len() == 29
    &&& forall|k: int|
        0 <= k < 29 ==> rows::of_kind(#[trigger] values[k], task_kinds()[k]) is Some
}

/// What a column of a task shows.
pub open spec fn shown_cell(values: Seq<SqlView>, k: int) -> JsonView {
    rows::of_kind(values[k], task_kinds()[k])->0
}

/// No two columns of a task have one name.
pub proof fn lemma_columns_differ(i: int, j: int)
    requires
        0 <= j < i < 29,
    ensures
        task_columns()[i] != task_columns()[j],
{
    reveal_strlit("id");
    reveal_strlit("identifier");
    reveal_strlit("project_id");
    reveal_strlit("title");
    reveal_strlit("description");
    reveal_strlit("status");
    reveal_strlit("priority");
    reveal_strlit("labels");
    reveal_strlit("sort_order");
    reveal_strlit("thread_id");
    reveal_strlit("creator_type");
    reveal_strlit("creator_id");
    reveal_strlit("creator_name");
    reveal_strlit("creator_avatar_url");
    reveal_strlit("assignee_type");
    reveal_strlit("assignee_id");
    reveal_strlit("assignee_name");
    reveal_strlit("assignee_avatar_url");
    reveal_strlit("workflow_id");
    reveal_strlit("git_branch");
    reveal_strlit("worktree_path");
    reveal_strlit("worktree_branch");
    reveal_strlit("due_date");
    reveal_strlit("recurrence_interval");
    reveal_strlit("recurrence_unit");
    reveal_strlit("archived_at");
    reveal_strlit("version");
    reveal_strlit("created_at");
    reveal_strlit("updated_at");
    let a = task_columns()[i];
    let b = task_columns()[j];
    assert(a.len() != b.len() || a[0] != b[0] || a.last() != b.last() || a[a.len() - 4] != b[b.len()
        - 4]);
}

/// A column of a stored task holds its value.
pub proof fn lemma_column(values: Seq<SqlView>, k: int)
    requires
        is_stored_task(values),
        0 <= k < 29,
    ensures
        rows::column_value(task_row(values), task_columns()[k], task_kinds()[k]) == Ok::<
            JsonView,
            Seq<char>,
        >(shown_cell(values, k)),
{
    reveal(task_row);
    let row = task_row(values);
    assert forall|j: int| 0 <= j < k implies (#[trigger] row[j]).0 != task_columns()[k] by {
        lemma_columns_differ(k, j);
    }
    rows::lemma_cell_index(row, task_columns()[k], k);
    assert(rows::of_kind(values[k], task_kinds()[k]) is Some);
    assert(rows::of_kind(values[0], task_kinds()[0]) is Some);
    assert(row[0].1 == values[0]);
}

/// Where a stored task is worked on, as it is shown: in a worktree where it has one, else on a
/// branch.
pub open spec fn shown_development(values: Seq<SqlView>) -> JsonView {
    if !(shown_cell(values, 20) is Null) {
        JsonView::Object(
            json::members().push(("type"@, JsonView::Text("worktree"@))).push(
                ("path"@, shown_cell(values, 20)),
            ).push(("branch"@, shown_cell(values, 21))),
        )
    } else if !(shown_cell(values, 19) is Null) {
        JsonView::Object(
            json::members().push(("type"@, JsonView::Text("branch"@))).push(
                ("branch"@, shown_cell(values, 19)),
            ),
        )
    } else {
        JsonView::Null
    }
}

/// Who a stored task is assigned to, as it is shown.
pub open spec fn shown_assignee(values: Seq<SqlView>) -> JsonView {
    JsonView::Object(
        seq![
            ("type"@, shown_cell(values, 14)),
            ("id"@, shown_cell(values, 15)),
            ("name"@, shown_cell(values, 16)),
            ("avatarUrl"@, shown_cell(values, 17)),
        ],
    )
}

/// A stored task as it is shown, but for its relations.
#[verifier::opaque]
pub open spec fn shown_task(values: Seq<SqlView>) -> JsonView {
    JsonView::Object(
        seq![
            ("id"@, shown_cell(values, 0)),
            ("identifier"@, shown_cell(values, 1)),
            ("projectId"@, shown_cell(values, 2)),
            ("title"@, shown_cell(values, 3)),
            ("description"@, shown_cell(values, 4)),
            ("status"@, shown_cell(values, 5)),
            ("priority"@, shown_cell(values, 6)),
            ("labels"@, tasks::shown_labels(shown_cell(values, 7))),
            ("sortOrder"@, shown_cell(values, 8)),
            ("threadId"@, shown_cell(values, 9)),
            ("creatorType"@, shown_cell(values, 10)),
            ("creatorId"@, shown_cell(values, 11)),
            ("creatorName"@, shown_cell(values, 12)),
            ("creatorAvatarUrl"@, shown_cell(values, 13)),
            ("assignee"@, shown_assignee(values)),
            ("workflowId"@, shown_cell(values, 18)),
            ("developmentContext"@, shown_development(values)),
            ("dueDate"@, shown_cell(values, 22)),
            ("recurrence"@, tasks::recurrence_of(shown_cell(values, 23), shown_cell(values, 24))),
            ("archivedAt"@, shown_cell(values, 25)),
            ("version"@, shown_cell(values, 26)),
            ("createdAt"@, shown_cell(values, 27)),
            ("updatedAt"@, shown_cell(values, 28)),
        ],
    )
}

/// A task shows each column of its row, whatever values stand there.
#[verifier::spinoff_prover]
#[verifier::rlimit(30)]
pub proof fn law_task_is_shown_as_stored(values: Seq<SqlView>)
    requires
        is_stored_task(values),
    ensures
        tasks::task_of_row(task_row(values)) == Ok::<JsonView, Seq<char>>(shown_task(values)),
{
    reveal(shown_task);
    reveal(tasks::task_of_row);
    let row = task_row(values);
    let lead = tasks::lead_plan();
    let head = tasks::head_plan();
    let creator = tasks::creator_plan();
    let assignee = tasks::assignee_plan();
    let tail = tasks::tail_plan();
    let lead_at = seq![7int, 20, 19];
    lemma_plan(values, lead, lead_at);
    let head_at = Seq::new(7, |i: int| i);
    lemma_plan(values, head, head_at);
    let creator_at = Seq::new(6, |i: int| i + 8);
    lemma_plan(values, creator, creator_at);
    let assignee_at = Seq::new(4, |i: int| i + 14);
    lemma_plan(values, assignee, assignee_at);
    let tail_at = Seq::new(4, |i: int| i + 25);
    lemma_plan(values, tail, tail_at);
    lemma_column(values, 18);
    lemma_column(values, 21);
    lemma_column(values, 22);
    lemma_column(values, 23);
    lemma_column(values, 24);
    assert(rows::row_object(row, assignee)->Ok_0->Object_0 =~= shown_assignee(values)->Object_0);
    let shown = tasks::task_of_row(row);
    assert(shown is Ok);
    assert(shown->Ok_0->Object_0 =~= shown_task(values)->Object_0);
}

/// A plan over the columns of a task is read from its row.
pub proof fn lemma_plan(
    values: Seq<SqlView>,
    plan: Seq<(Seq<char>, Seq<char>, Kind)>,
    places: Seq<int>,
)
    requires
        is_stored_task(values),
        places.len() == plan.len(),
        forall|i: int|
            0 <= i < plan.len() ==> 0 <= #[trigger] places[i] < 29 && plan[i].1
                == task_columns()[places[i]] && plan[i].2 == task_kinds()[places[i]],
    ensures
        rows::planned(task_row(values), plan) == Ok::<Seq<(Seq<char>, JsonView)>, Seq<char>>(
            Seq::new(plan.len(), |i: int| (plan[i].0, shown_cell(values, places[i]))),
        ),
{
    let found = Seq::new(plan.len(), |i: int| shown_cell(values, places[i]));
    assert forall|i: int| 0 <= i < plan.len() implies rows::column_value(
        task_row(values),
        (#[trigger] plan[i]).1,
        plan[i].2,
    ) == Ok::<JsonView, Seq<char>>(found[i]) by {
        lemma_column(values, places[i]);
    }
    rows::lemma_planned_values(task_row(values), plan, found);
    assert(Seq::new(plan.len(), |i: int| (plan[i].0, found[i])) =~= Seq::new(
        plan.len(),
        |i: int| (plan[i].0, shown_cell(values, places[i])),
    ));
}

/// The keys of a task, in the order in which they are shown.
pub open spec fn task_keys() -> Seq<Seq<char>> {
    seq![
        "id"@,
        "identifier"@,
        "projectId"@,
        "title"@,
        "description"@,
        "status"@,
        "priority"@,
        "labels"@,
        "sortOrder"@,
        "threadId"@,
        "creatorType"@,
        "creatorId"@,
        "creatorName"@,
        "creatorAvatarUrl"@,
        "assignee"@,
        "workflowId"@,
        "developmentContext"@,
        "dueDate"@,
        "recurrence"@,
        "archivedAt"@,
        "version"@,
        "createdAt"@,
        "updatedAt"@,
    ]
}

proof fn lemma_keys_differ(i: int, j: int)
    requires
        0 <= j < i < 23,
    ensures
        task_keys()[i] != task_keys()[j],
{
    reveal_strlit("id");
    reveal_strlit("identifier");
    reveal_strlit("projectId");
    reveal_strlit("title");
    reveal_strlit("description");
    reveal_strlit("status");
    reveal_strlit("priority");
    reveal_strlit("labels");
    reveal_strlit("sortOrder");
    reveal_strlit("threadId");
    reveal_strlit("creatorType");
    reveal_strlit("creatorId");
    reveal_strlit("creatorName");
    reveal_strlit("creatorAvatarUrl");
    reveal_strlit("assignee");
    reveal_strlit("workflowId");
    reveal_strlit("developmentContext");
    reveal_strlit("dueDate");
    reveal_strlit("recurrence");
    reveal_strlit("archivedAt");
    reveal_strlit("version");
    reveal_strlit("createdAt");
    reveal_strlit("updatedAt");
    let a = task_keys()[i];
    let b = task_keys()[j];
    assert(a.len() != b.len() || a[0] != b[0] || a.last() != b.last() || a[a.len() - 4] != b[b.len()
        - 4]);
}

/// A stored task has each of its members under its key, also where more are added.
pub proof fn lemma_shown_field(values: Seq<SqlView>, added: Seq<char>, member: JsonView, k: int)
    requires
        0 <= k < 23,
    ensures
        json::field(shown_task(values), task_keys()[k]) == Some(
            (shown_task(values)->Object_0)[k].1,
        ),
        json::field(tasks::extended(shown_task(values), added, member), task_keys()[k]) == Some(
            (shown_task(values)->Object_0)[k].1,
        ),
{
    reveal(shown_task);
    let members = shown_task(values)->Object_0;
    assert forall|j: int| 0 <= j < k implies (#[trigger] members[j]).0 != task_keys()[k] by {
        assert(members[j].0 == task_keys()[j]);
        lemma_keys_differ(k, j);
    }
    assert(members[k].0 == task_keys()[k]);
    json::lemma_lookup(members, task_keys()[k], k);
    lemma_extended_keeps(shown_task(values), added, member, task_keys()[k]);
}

proof fn lemma_lookup_stays(
    members: Seq<(Seq<char>, JsonView)>,
    last: (Seq<char>, JsonView),
    key: Seq<char>,
)
    requires
        json::lookup(members, key) is Some,
    ensures
        json::lookup(members.push(last), key) == json::lookup(members, key),
    decreases members.len(),
{
    if members[0].0 != key {
        assert(members.push(last).drop_first() =~= members.drop_first().push(last));
        lemma_lookup_stays(members.drop_first(), last, key);
    }
}

/// A member that is added to a value hides none that was there.
pub proof fn lemma_extended_keeps(
    value: JsonView,
    added: Seq<char>,
    member: JsonView,
    key: Seq<char>,
)
    requires
        json::field(value, key) is Some,
    ensures
        json::field(tasks::extended(value, added, member), key) == json::field(value, key),
{
    lemma_lookup_stays(value->Object_0, (added, member), key);
}

/// A member that is added to a stored task stands under its key.
pub proof fn lemma_added_field(values: Seq<SqlView>, added: Seq<char>, member: JsonView)
    requires
        added == "relations"@,
    ensures
        json::field(tasks::extended(shown_task(values), added, member), added) == Some(member),
{
    reveal(shown_task);
    let members = shown_task(values)->Object_0.push((added, member));
    assert forall|j: int| 0 <= j < 23 implies (#[trigger] members[j]).0 != added by {
        assert(members[j].0 == task_keys()[j]);
        lemma_no_relations_yet(j);
    }
    json::lemma_lookup(members, added, 23);
}

proof fn lemma_no_relations_yet(j: int)
    requires
        0 <= j < 23,
    ensures
        task_keys()[j] != "relations"@,
{
    reveal_strlit("relations");
    reveal_strlit("id");
    reveal_strlit("identifier");
    reveal_strlit("projectId");
    reveal_strlit("title");
    reveal_strlit("description");
    reveal_strlit("status");
    reveal_strlit("priority");
    reveal_strlit("labels");
    reveal_strlit("sortOrder");
    reveal_strlit("threadId");
    reveal_strlit("creatorType");
    reveal_strlit("creatorId");
    reveal_strlit("creatorName");
    reveal_strlit("creatorAvatarUrl");
    reveal_strlit("assignee");
    reveal_strlit("workflowId");
    reveal_strlit("developmentContext");
    reveal_strlit("dueDate");
    reveal_strlit("recurrence");
    reveal_strlit("archivedAt");
    reveal_strlit("version");
    reveal_strlit("createdAt");
    reveal_strlit("updatedAt");
    let a = task_keys()[j];
    let b = "relations"@;
    assert(a.len() != b.len() || a[0] != b[0]);
}

/// The row of a stored task is not lost.
pub proof fn lemma_row_is_there(values: Seq<SqlView>)
    requires
        is_stored_task(values),
    ensures
        exchange::lost(task_row(values)) is None,
        task_row(values).len() == 29,
{
    reveal(task_row);
    assert(rows::of_kind(values[0], task_kinds()[0]) is Some);
    assert(task_row(values)[0].1 == values[0]);
}

/// What a stored task shows under each of the keys by which requests look at it.
pub proof fn lemma_shown_members(values: Seq<SqlView>, added: Seq<char>, member: JsonView)
    ensures
        ({
            let shown = tasks::extended(shown_task(values), added, member);
            &&& json::field(shown_task(values), "id"@) == Some(shown_cell(values, 0))
            &&& json::field(shown, "id"@) == Some(shown_cell(values, 0))
            &&& json::field(shown, "projectId"@) == Some(shown_cell(values, 2))
            &&& json::field(shown, "archivedAt"@) == Some(shown_cell(values, 25))
            &&& json::field(shown, "version"@) == Some(shown_cell(values, 26))
        }),
{
    reveal(shown_task);
    lemma_shown_field(values, added, member, 0);
    lemma_shown_field(values, added, member, 2);
    lemma_shown_field(values, added, member, 19);
    lemma_shown_field(values, added, member, 20);
}

} // verus!
