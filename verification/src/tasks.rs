//! Tasks as they stand in the store, with the tasks that they are related to.
use crate::exchange;
use crate::exchange::{Reply, ReplyView, Row, SqlValue, SqlView, Statement, StatementView, Step, StepView};
use crate::json;
use crate::json::{Json, JsonView};
use crate::request::Fields;
use crate::rows;
use crate::rows::{Column, Kind};
use crate::store;
use crate::text;
use vstd::prelude::*;

verus! {

/// A task by its identifier, of either form.
pub const TASK_BY_ID: &'static str = "SELECT * FROM tasks WHERE id = ?1 OR identifier = ?1";

/// The parent of a task.
pub const PARENT: &'static str = "
        SELECT tasks.*
        FROM task_relations
        JOIN tasks ON tasks.id = task_relations.source_task_id
        WHERE task_relations.relation_type = 'parent'
          AND task_relations.target_task_id = ?1
        ";

/// The tasks whose parent a task is.
pub const SUB_ISSUES: &'static str = "
        SELECT tasks.*
        FROM task_relations
        JOIN tasks ON tasks.id = task_relations.target_task_id
        WHERE task_relations.relation_type = 'parent'
          AND task_relations.source_task_id = ?1
        ORDER BY tasks.sort_order, tasks.created_at, tasks.id
        ";

/// The tasks that block a task.
pub const BLOCKED_BY: &'static str = "
        SELECT tasks.*
        FROM task_relations
        JOIN tasks ON tasks.id = task_relations.source_task_id
        WHERE task_relations.relation_type = 'blocks'
          AND task_relations.target_task_id = ?1
        ORDER BY tasks.sort_order, tasks.created_at, tasks.id
        ";

/// The tasks that a task blocks.
pub const BLOCKS: &'static str = "
        SELECT tasks.*
        FROM task_relations
        JOIN tasks ON tasks.id = task_relations.target_task_id
        WHERE task_relations.relation_type = 'blocks'
          AND task_relations.source_task_id = ?1
        ORDER BY tasks.sort_order, tasks.created_at, tasks.id
        ";

/// The tasks that a task is related to in no direction.
pub const RELATED: &'static str = "
        SELECT tasks.*
        FROM task_relations
        JOIN tasks ON tasks.id = CASE
          WHEN task_relations.source_task_id = ?1 THEN task_relations.target_task_id
          ELSE task_relations.source_task_id
        END
        WHERE task_relations.relation_type = 'related'
          AND (task_relations.source_task_id = ?1 OR task_relations.target_task_id = ?1)
        ORDER BY tasks.sort_order, tasks.created_at, tasks.id
        ";

/// What the listing of tasks starts with.
pub const LIST_HEAD: &'static str = "
        SELECT * FROM tasks
        ";

/// What the listing of tasks ends with.
pub const LIST_TAIL: &'static str = "
        ORDER BY
          CASE status
            WHEN 'backlog' THEN 1
            WHEN 'todo' THEN 2
            WHEN 'in_progress' THEN 3
            WHEN 'in_review' THEN 4
            WHEN 'blocked' THEN 5
            WHEN 'done' THEN 6
            WHEN 'canceled' THEN 7
          END,
          sort_order,
          created_at,
          id
        ";

/// The columns that a task is read from first.
pub open spec fn lead_plan() -> Seq<(Seq<char>, Seq<char>, Kind)> {
    seq![
        ("labels"@, "labels"@, Kind::Text),
        ("worktreePath"@, "worktree_path"@, Kind::OptionalText),
        ("gitBranch"@, "git_branch"@, Kind::OptionalText),
    ]
}

fn lead_columns() -> (r: Vec<Column>)
    ensures
        r.deep_view() == lead_plan(),
{
    let r = vec![
        rows::column("labels", "labels", Kind::Text),
        rows::column("worktreePath", "worktree_path", Kind::OptionalText),
        rows::column("gitBranch", "git_branch", Kind::OptionalText),
    ];
    proof {
        assert(r.deep_view() =~= lead_plan());
    }
    r
}

/// What identifies a task and says where it stands.
pub open spec fn head_plan() -> Seq<(Seq<char>, Seq<char>, Kind)> {
    seq![
        ("id"@, "id"@, Kind::Text),
        ("identifier"@, "identifier"@, Kind::Text),
        ("projectId"@, "project_id"@, Kind::Text),
        ("title"@, "title"@, Kind::Text),
        ("description"@, "description"@, Kind::Text),
        ("status"@, "status"@, Kind::Text),
        ("priority"@, "priority"@, Kind::Text),
    ]
}

fn head_columns() -> (r: Vec<Column>)
    ensures
        r.deep_view() == head_plan(),
{
    let r = vec![
        rows::column("id", "id", Kind::Text),
        rows::column("identifier", "identifier", Kind::Text),
        rows::column("projectId", "project_id", Kind::Text),
        rows::column("title", "title", Kind::Text),
        rows::column("description", "description", Kind::Text),
        rows::column("status", "status", Kind::Text),
        rows::column("priority", "priority", Kind::Text),
    ];
    proof {
        assert(r.deep_view() =~= head_plan());
    }
    r
}

/// Where a task is sorted in and who created it.
pub open spec fn creator_plan() -> Seq<(Seq<char>, Seq<char>, Kind)> {
    seq![
        ("sortOrder"@, "sort_order"@, Kind::Real),
        ("threadId"@, "thread_id"@, Kind::OptionalText),
        ("creatorType"@, "creator_type"@, Kind::Text),
        ("creatorId"@, "creator_id"@, Kind::Text),
        ("creatorName"@, "creator_name"@, Kind::Text),
        ("creatorAvatarUrl"@, "creator_avatar_url"@, Kind::OptionalText),
    ]
}

fn creator_columns() -> (r: Vec<Column>)
    ensures
        r.deep_view() == creator_plan(),
{
    let r = vec![
        rows::column("sortOrder", "sort_order", Kind::Real),
        rows::column("threadId", "thread_id", Kind::OptionalText),
        rows::column("creatorType", "creator_type", Kind::Text),
        rows::column("creatorId", "creator_id", Kind::Text),
        rows::column("creatorName", "creator_name", Kind::Text),
        rows::column("creatorAvatarUrl", "creator_avatar_url", Kind::OptionalText),
    ];
    proof {
        assert(r.deep_view() =~= creator_plan());
    }
    r
}

/// Who a task is assigned to.
pub open spec fn assignee_plan() -> Seq<(Seq<char>, Seq<char>, Kind)> {
    seq![
        ("type"@, "assignee_type"@, Kind::Text),
        ("id"@, "assignee_id"@, Kind::Text),
        ("name"@, "assignee_name"@, Kind::Text),
        ("avatarUrl"@, "assignee_avatar_url"@, Kind::OptionalText),
    ]
}

fn assignee_columns() -> (r: Vec<Column>)
    ensures
        r.deep_view() == assignee_plan(),
{
    let r = vec![
        rows::column("type", "assignee_type", Kind::Text),
        rows::column("id", "assignee_id", Kind::Text),
        rows::column("name", "assignee_name", Kind::Text),
        rows::column("avatarUrl", "assignee_avatar_url", Kind::OptionalText),
    ];
    proof {
        assert(r.deep_view() =~= assignee_plan());
    }
    r
}

/// What ends a task.
pub open spec fn tail_plan() -> Seq<(Seq<char>, Seq<char>, Kind)> {
    seq![
        ("archivedAt"@, "archived_at"@, Kind::OptionalText),
        ("version"@, "version"@, Kind::Integer),
        ("createdAt"@, "created_at"@, Kind::Text),
        ("updatedAt"@, "updated_at"@, Kind::Text),
    ]
}

fn tail_columns() -> (r: Vec<Column>)
    ensures
        r.deep_view() == tail_plan(),
{
    let r = vec![
        rows::column("archivedAt", "archived_at", Kind::OptionalText),
        rows::column("version", "version", Kind::Integer),
        rows::column("createdAt", "created_at", Kind::Text),
        rows::column("updatedAt", "updated_at", Kind::Text),
    ];
    proof {
        assert(r.deep_view() =~= tail_plan());
    }
    r
}

/// Where a task is worked on: in a worktree where it has one, else on a branch.
pub open spec fn development_of(
    row: Seq<(Seq<char>, SqlView)>,
    worktree_path: JsonView,
    git_branch: JsonView,
) -> Result<JsonView, Seq<char>> {
    if !(worktree_path is Null) {
        match rows::column_value(row, "worktree_branch"@, Kind::OptionalText) {
            Err(m) => Err(m),
            Ok(branch) => Ok(
                JsonView::Object(
                    json::members().push(("type"@, JsonView::Text("worktree"@))).push(
                        ("path"@, worktree_path),
                    ).push(("branch"@, branch)),
                ),
            ),
        }
    } else if !(git_branch is Null) {
        Ok(
            JsonView::Object(
                json::members().push(("type"@, JsonView::Text("branch"@))).push(
                    ("branch"@, git_branch),
                ),
            ),
        )
    } else {
        Ok(JsonView::Null)
    }
}

fn read_development(row: &Row, worktree_path: &Json, git_branch: &Json) -> (r: Result<Json, String>)
    ensures
        exchange::says(r, development_of(row@, worktree_path@, git_branch@)),
{
    if !worktree_path.is_null() {
        let branch = rows::read_column(row, "worktree_branch", Kind::OptionalText)?;
        let mut members = json::no_members();
        json::member(&mut members, "type", json::text_value("worktree"));
        json::member(&mut members, "path", worktree_path.copy());
        json::member(&mut members, "branch", branch);
        Ok(json::object(members))
    } else if !git_branch.is_null() {
        let mut members = json::no_members();
        json::member(&mut members, "type", json::text_value("branch"));
        json::member(&mut members, "branch", git_branch.copy());
        Ok(json::object(members))
    } else {
        Ok(Json::Null)
    }
}

/// How often a task recurs, where both an interval and a unit are known.
pub open spec fn recurrence_of(interval: JsonView, unit: JsonView) -> JsonView {
    if !(interval is Null) && !(unit is Null) {
        JsonView::Object(json::members().push(("interval"@, interval)).push(("unit"@, unit)))
    } else {
        JsonView::Null
    }
}

fn make_recurrence(interval: Json, unit: Json) -> (r: Json)
    ensures
        r@ == recurrence_of(interval@, unit@),
{
    if !interval.is_null() && !unit.is_null() {
        let mut members = json::no_members();
        json::member(&mut members, "interval", interval);
        json::member(&mut members, "unit", unit);
        json::object(members)
    } else {
        Json::Null
    }
}

/// The text of a stored value, empty where it is none.
pub open spec fn text_or_empty(value: JsonView) -> Seq<char> {
    match value {
        JsonView::Text(s) => s,
        _ => Seq::empty(),
    }
}

/// Labels as they are shown: what is stored, or none where that cannot be read.
pub open spec fn shown_labels(stored: JsonView) -> JsonView {
    json::stored_value(text_or_empty(stored), JsonView::Array(Seq::empty()))
}

fn show_labels(stored: &Json) -> (r: Json)
    ensures
        r@ == shown_labels(stored@),
{
    let none = json::array(json::none());
    match stored {
        Json::Text(s) => json::stored(s, none),
        _ => json::stored(&String::new(), none),
    }
}

/// What stands before the columns of a task that end it.
pub open spec fn task_body(
    row: Seq<(Seq<char>, SqlView)>,
    labels: JsonView,
    development: JsonView,
    recurrence: JsonView,
) -> Result<Seq<(Seq<char>, JsonView)>, Seq<char>> {
    match rows::planned(row, head_plan()) {
        Err(m) => Err(m),
        Ok(head) => match rows::planned(row, creator_plan()) {
            Err(m) => Err(m),
            Ok(creator) => match rows::row_object(row, assignee_plan()) {
                Err(m) => Err(m),
                Ok(assignee) => match rows::column_value(row, "workflow_id"@, Kind::OptionalText) {
                    Err(m) => Err(m),
                    Ok(workflow) => match rows::column_value(
                        row,
                        "due_date"@,
                        Kind::OptionalText,
                    ) {
                        Err(m) => Err(m),
                        Ok(due) => Ok(
                            (head.push(("labels"@, labels)) + creator).push(
                                ("assignee"@, assignee),
                            ).push(("workflowId"@, workflow)).push(
                                ("developmentContext"@, development),
                            ).push(("dueDate"@, due)).push(("recurrence"@, recurrence)),
                        ),
                    },
                },
            },
        },
    }
}

fn read_task_body(row: &Row, labels: Json, development: Json, recurrence: Json) -> (r: Result<
    Vec<(String, Json)>,
    String,
>)
    ensures
        match r {
            Ok(members) => task_body(row@, labels@, development@, recurrence@) == Ok::<
                Seq<(Seq<char>, JsonView)>,
                Seq<char>,
            >(json::members_view(members@)),
            Err(m) => task_body(row@, labels@, development@, recurrence@) == Err::<
                Seq<(Seq<char>, JsonView)>,
                Seq<char>,
            >(m@),
        },
{
    let mut members = rows::read_columns(row, head_columns())?;
    json::member(&mut members, "labels", labels);
    let creator = rows::read_columns(row, creator_columns())?;
    json::more_members(&mut members, creator);
    let assignee = rows::read_object(row, assignee_columns())?;
    json::member(&mut members, "assignee", assignee);
    let workflow = rows::read_column(row, "workflow_id", Kind::OptionalText)?;
    json::member(&mut members, "workflowId", workflow);
    json::member(&mut members, "developmentContext", development);
    let due = rows::read_column(row, "due_date", Kind::OptionalText)?;
    json::member(&mut members, "dueDate", due);
    json::member(&mut members, "recurrence", recurrence);
    Ok(members)
}

/// The task that stands in a row.
#[verifier::opaque]
pub open spec fn task_of_row(row: Seq<(Seq<char>, SqlView)>) -> Result<JsonView, Seq<char>> {
    match rows::planned(row, lead_plan()) {
        Err(m) => Err(m),
        Ok(lead) => match development_of(row, lead[1].1, lead[2].1) {
            Err(m) => Err(m),
            Ok(development) => match rows::column_value(
                row,
                "recurrence_interval"@,
                Kind::OptionalInteger,
            ) {
                Err(m) => Err(m),
                Ok(interval) => match rows::column_value(
                    row,
                    "recurrence_unit"@,
                    Kind::OptionalText,
                ) {
                    Err(m) => Err(m),
                    Ok(unit) => match task_body(
                        row,
                        shown_labels(lead[0].1),
                        development,
                        recurrence_of(interval, unit),
                    ) {
                        Err(m) => Err(m),
                        Ok(body) => match rows::planned(row, tail_plan()) {
                            Err(m) => Err(m),
                            Ok(tail) => Ok(JsonView::Object(body + tail)),
                        },
                    },
                },
            },
        },
    }
}

/// Reads the task that stands in a row.
pub fn task_from_row(row: &Row) -> (r: Result<Json, String>)
    ensures
        exchange::says(r, task_of_row(row@)),
{
    proof {
        reveal(task_of_row);
    }
    let lead = rows::read_columns(row, lead_columns())?;
    proof {
        rows::lemma_planned_len(row@, lead_plan());
    }
    let development = read_development(row, &lead[1].1, &lead[2].1)?;
    let interval = rows::read_column(row, "recurrence_interval", Kind::OptionalInteger)?;
    let unit = rows::read_column(row, "recurrence_unit", Kind::OptionalText)?;
    let labels = show_labels(&lead[0].1);
    let mut members = read_task_body(row, labels, development, make_recurrence(interval, unit))?;
    let tail = rows::read_columns(row, tail_columns())?;
    json::more_members(&mut members, tail);
    Ok(json::object(members))
}

/// What is shown of a task that another is related to, but for who it is assigned to and whether
/// it is archived.
pub open spec fn summary_plan() -> Seq<(Seq<char>, Seq<char>, Kind)> {
    seq![
        ("id"@, "id"@, Kind::Text),
        ("identifier"@, "identifier"@, Kind::Text),
        ("projectId"@, "project_id"@, Kind::Text),
        ("title"@, "title"@, Kind::Text),
        ("status"@, "status"@, Kind::Text),
        ("priority"@, "priority"@, Kind::Text),
        ("threadId"@, "thread_id"@, Kind::OptionalText),
    ]
}

fn summary_columns() -> (r: Vec<Column>)
    ensures
        r.deep_view() == summary_plan(),
{
    let r = vec![
        rows::column("id", "id", Kind::Text),
        rows::column("identifier", "identifier", Kind::Text),
        rows::column("projectId", "project_id", Kind::Text),
        rows::column("title", "title", Kind::Text),
        rows::column("status", "status", Kind::Text),
        rows::column("priority", "priority", Kind::Text),
        rows::column("threadId", "thread_id", Kind::OptionalText),
    ];
    proof {
        assert(r.deep_view() =~= summary_plan());
    }
    r
}

/// What is shown of the task in a row to which another is related.
pub open spec fn summary_of_row(row: Seq<(Seq<char>, SqlView)>) -> Result<JsonView, Seq<char>> {
    match rows::planned(row, summary_plan()) {
        Err(m) => Err(m),
        Ok(members) => match rows::row_object(row, assignee_plan()) {
            Err(m) => Err(m),
            Ok(assignee) => match rows::column_value(row, "archived_at"@, Kind::OptionalText) {
                Err(m) => Err(m),
                Ok(archived) => Ok(
                    JsonView::Object(
                        members.push(("assignee"@, assignee)).push(("archivedAt"@, archived)),
                    ),
                ),
            },
        },
    }
}

/// Reads what is shown of a related task.
pub fn task_relation_summary_from_row(row: &Row) -> (r: Result<Json, String>)
    ensures
        exchange::says(r, summary_of_row(row@)),
{
    let mut members = rows::read_columns(row, summary_columns())?;
    let assignee = rows::read_object(row, assignee_columns())?;
    json::member(&mut members, "assignee", assignee);
    let archived = rows::read_column(row, "archived_at", Kind::OptionalText)?;
    json::member(&mut members, "archivedAt", archived);
    Ok(json::object(members))
}

/// The one task that rows show, null where there is none.
pub open spec fn one_related(table: Seq<Seq<(Seq<char>, SqlView)>>) -> Result<JsonView, Seq<char>> {
    if table.len() == 0 {
        Ok(JsonView::Null)
    } else {
        summary_of_row(table[0])
    }
}

fn relation_one(table: &Vec<Row>) -> (r: Result<Json, String>)
    ensures
        exchange::says(r, one_related(table.deep_view())),
{
    if table.len() == 0 {
        Ok(Json::Null)
    } else {
        task_relation_summary_from_row(&table[0])
    }
}

/// The tasks that rows show.
pub open spec fn many_related(table: Seq<Seq<(Seq<char>, SqlView)>>) -> Result<
    JsonView,
    Seq<char>,
> {
    match rows::each_row(table, |row: Seq<(Seq<char>, SqlView)>| summary_of_row(row)) {
        Err(m) => Err(m),
        Ok(tasks) => Ok(JsonView::Array(tasks)),
    }
}

fn relation_many(table: &Vec<Row>) -> (r: Result<Json, String>)
    ensures
        exchange::says(r, many_related(table.deep_view())),
{
    let tasks = rows::read_rows(
        table,
        task_relation_summary_from_row,
        Ghost(|row: Seq<(Seq<char>, SqlView)>| summary_of_row(row)),
    )?;
    Ok(json::array(tasks))
}

/// The queries for the tasks that a task is related to.
pub open spec fn relation_queries(id: Seq<char>) -> Seq<StatementView> {
    let key = store::params().push(store::text_param(id));
    seq![
        store::stated(PARENT@, key),
        store::stated(SUB_ISSUES@, key),
        store::stated(BLOCKED_BY@, key),
        store::stated(BLOCKS@, key),
        store::stated(RELATED@, key),
    ]
}

fn add_relation_queries(queries: &mut Vec<Statement>, id: &str)
    ensures
        final(queries).deep_view() == old(queries).deep_view() + relation_queries(id@),
{
    let ghost before = queries.deep_view();
    json::put(queries, store::keyed(PARENT, id));
    json::put(queries, store::keyed(SUB_ISSUES, id));
    json::put(queries, store::keyed(BLOCKED_BY, id));
    json::put(queries, store::keyed(BLOCKS, id));
    json::put(queries, store::keyed(RELATED, id));
    proof {
        assert(queries.deep_view() =~= before + relation_queries(id@));
    }
}

/// The relations of a task, as the five tables from `from` on show them.
#[verifier::opaque]
pub open spec fn relations_in(tables: Seq<Seq<Seq<(Seq<char>, SqlView)>>>, from: int) -> Result<
    JsonView,
    Seq<char>,
> {
    match one_related(tables[from]) {
        Err(m) => Err(m),
        Ok(parent) => match many_related(tables[from + 1]) {
            Err(m) => Err(m),
            Ok(sub_issues) => match many_related(tables[from + 2]) {
                Err(m) => Err(m),
                Ok(blocked_by) => match many_related(tables[from + 3]) {
                    Err(m) => Err(m),
                    Ok(blocks) => match many_related(tables[from + 4]) {
                        Err(m) => Err(m),
                        Ok(related) => Ok(
                            JsonView::Object(
                                json::members().push(("parent"@, parent)).push(
                                    ("subIssues"@, sub_issues),
                                ).push(("blockedBy"@, blocked_by)).push(("blocks"@, blocks)).push(
                                    ("related"@, related),
                                ),
                            ),
                        ),
                    },
                },
            },
        },
    }
}

fn read_relations(tables: &Vec<Vec<Row>>, from: usize) -> (r: Result<Json, String>)
    requires
        from + 5 <= tables@.len(),
    ensures
        exchange::says(r, relations_in(tables.deep_view(), from as int)),
{
    proof {
        reveal(relations_in);
    }
    let total: usize = tables.len();
    let mut members = json::no_members();
    json::member(&mut members, "parent", relation_one(&tables[from])?);
    json::member(&mut members, "subIssues", relation_many(&tables[from + 1])?);
    json::member(&mut members, "blockedBy", relation_many(&tables[from + 2])?);
    json::member(&mut members, "blocks", relation_many(&tables[from + 3])?);
    json::member(&mut members, "related", relation_many(&tables[from + 4])?);
    Ok(json::object(members))
}

/// A value with one more member.
pub open spec fn extended(value: JsonView, key: Seq<char>, member: JsonView) -> JsonView {
    match value {
        JsonView::Object(members) => JsonView::Object(members.push((key, member))),
        other => other,
    }
}

/// Adds a member to a value.
pub fn extend(value: Json, key: &str, member: Json) -> (r: Json)
    ensures
        r@ == extended(value@, key@, member@),
{
    match value {
        Json::Object(members) => {
            proof {
                json::lemma_object_view(members);
            }
            let mut members = members;
            json::member(&mut members, key, member);
            json::object(members)
        },
        other => other,
    }
}

/// The text of a member, empty where there is none.
pub open spec fn key_of(value: JsonView, key: Seq<char>) -> Seq<char> {
    match json::text_field(value, key) {
        Some(s) => s,
        None => Seq::empty(),
    }
}

/// Reads the text of a member, empty where there is none.
pub fn read_key(value: &Json, key: &str) -> (r: String)
    ensures
        r@ == key_of(value@, key@),
{
    match value.text(key) {
        Some(s) => s.clone(),
        None => String::new(),
    }
}

/// The task with an identifier and its relations, where there is one; and the place of the next
/// reply. The replies start at `at`.
pub open spec fn task_at(replies: Seq<ReplyView>, at: int, id: Seq<char>) -> Result<
    (Option<JsonView>, int),
    StepView,
> {
    match exchange::rows_at(
        replies,
        at,
        store::stated(TASK_BY_ID@, store::params().push(store::text_param(id))),
    ) {
        Err(s) => Err(s),
        Ok(found) => if found.len() == 0 {
            Ok((None, at + 1))
        } else {
            match task_of_row(found[0]) {
                Err(m) => Err(StepView::Fail(m)),
                Ok(task) => match exchange::tables_at(
                    replies,
                    at + 1,
                    relation_queries(key_of(task, "id"@)),
                ) {
                    Err(s) => Err(s),
                    Ok(tables) => match relations_in(tables, 0) {
                        Err(m) => Err(StepView::Fail(m)),
                        Ok(relations) => Ok(
                            (Some(extended(task, "relations"@, relations)), at + 2),
                        ),
                    },
                },
            }
        },
    }
}

/// Reads a task with its relations.
pub fn get_task(replies: &Vec<Reply>, at: usize, id: &str) -> (r: Result<
    (Option<Json>, usize),
    Step,
>)
    ensures
        exchange::reaches(r, task_at(replies.deep_view(), at as int, id@)),
        r is Ok ==> (r->Ok_0).1 <= replies@.len(),
{
    let total: usize = replies.len();
    let found = exchange::rows(replies, at, store::keyed(TASK_BY_ID, id))?;
    if found.len() == 0 {
        return Ok((None, at + 1));
    }
    let task = store::lift(task_from_row(&found[0]))?;
    let mut queries: Vec<Statement> = json::none();
    add_relation_queries(&mut queries, &read_key(&task, "id"));
    proof {
        assert(queries.deep_view() =~= relation_queries(key_of(task@, "id"@)));
    }
    let tables = exchange::tables(replies, at + 1, queries)?;
    let relations = store::lift(read_relations(tables, 0))?;
    Ok((Some(extend(task, "relations", relations)), at + 2))
}

/// The text of a filter, where it says something.
pub open spec fn filter_text(query: Map<Seq<char>, Seq<char>>, name: Seq<char>) -> Option<Seq<char>> {
    match crate::request::named(query, name) {
        Some(s) => if s.len() == 0 {
            None
        } else {
            Some(s)
        },
        None => None,
    }
}

fn read_filter<'a>(query: &'a Fields, name: &str) -> (r: Option<&'a String>)
    ensures
        r.deep_view() == filter_text(query@, name@),
{
    match query.get(name) {
        Some(s) => if s.as_str().is_empty() {
            None
        } else {
            Some(s)
        },
        None => None,
    }
}

/// The conditions of a listing: of a project, of a status, and of whether tasks are archived.
pub open spec fn filters(query: Map<Seq<char>, Seq<char>>) -> Seq<Seq<char>> {
    let project = if filter_text(query, "projectId"@) is Some {
        Seq::empty().push("project_id = ?"@)
    } else {
        Seq::empty()
    };
    let status = if filter_text(query, "status"@) is Some {
        project.push("status = ?"@)
    } else {
        project
    };
    match crate::request::named(query, "archived"@) {
        Some(s) => if s == "true"@ {
            status.push("archived_at IS NOT NULL"@)
        } else if s == "all"@ {
            status
        } else {
            status.push("archived_at IS NULL"@)
        },
        None => status.push("archived_at IS NULL"@),
    }
}

/// The values of the conditions of a listing.
pub open spec fn filter_values(query: Map<Seq<char>, Seq<char>>) -> Seq<SqlView> {
    let project = match filter_text(query, "projectId"@) {
        Some(s) => store::params().push(store::text_param(s)),
        None => store::params(),
    };
    match filter_text(query, "status"@) {
        Some(s) => project.push(store::text_param(s)),
        None => project,
    }
}

/// The condition that all of some conditions hold.
pub open spec fn where_clause(filters: Seq<Seq<char>>) -> Seq<char> {
    if filters.len() == 0 {
        Seq::empty()
    } else {
        "WHERE "@ + text::joined(filters, " AND "@)
    }
}

/// The query of a listing.
pub open spec fn list_query(query: Map<Seq<char>, Seq<char>>) -> StatementView {
    store::stated(LIST_HEAD@ + where_clause(filters(query)) + LIST_TAIL@, filter_values(query))
}

fn make_list_query(query: &Fields) -> (r: Statement)
    ensures
        r@ == list_query(query@),
{
    let mut conditions: Vec<String> = json::none();
    let mut values: Vec<SqlValue> = json::none();
    match read_filter(query, "projectId") {
        Some(project_id) => {
            json::put(&mut conditions, "project_id = ?".to_owned());
            store::bind_text(&mut values, project_id);
        },
        None => {},
    }
    match read_filter(query, "status") {
        Some(status) => {
            json::put(&mut conditions, "status = ?".to_owned());
            store::bind_text(&mut values, status);
        },
        None => {},
    }
    match query.get("archived") {
        Some(archived) => if text::same(archived, "true") {
            json::put(&mut conditions, "archived_at IS NOT NULL".to_owned());
        } else if !text::same(archived, "all") {
            json::put(&mut conditions, "archived_at IS NULL".to_owned());
        },
        None => {
            json::put(&mut conditions, "archived_at IS NULL".to_owned());
        },
    }
    let mut sql = LIST_HEAD.to_owned();
    if conditions.len() > 0 {
        sql.append("WHERE ");
        sql.append(&text::join(&conditions, " AND "));
    }
    sql.append(LIST_TAIL);
    proof {
        assert(conditions.deep_view().len() == conditions@.len());
        assert(sql@ =~= LIST_HEAD@ + where_clause(filters(query@)) + LIST_TAIL@);
    }
    store::statement(&sql, values)
}

/// The queries for the relations of several tasks.
pub open spec fn all_relation_queries(tasks: Seq<JsonView>) -> Seq<StatementView>
    decreases tasks.len(),
{
    if tasks.len() == 0 {
        Seq::empty()
    } else {
        all_relation_queries(tasks.drop_last()) + relation_queries(key_of(tasks.last(), "id"@))
    }
}

/// There are five queries for each task.
pub proof fn lemma_all_relation_queries_len(tasks: Seq<JsonView>)
    ensures
        all_relation_queries(tasks).len() == 5 * tasks.len(),
    decreases tasks.len(),
{
    if tasks.len() > 0 {
        lemma_all_relation_queries_len(tasks.drop_last());
    }
}

fn make_relation_queries(tasks: &Vec<Json>) -> (r: Vec<Statement>)
    ensures
        r.deep_view() == all_relation_queries(tasks.deep_view()),
        r@.len() == 5 * tasks@.len(),
{
    let ghost all = tasks.deep_view();
    let mut queries: Vec<Statement> = json::none();
    let mut i: usize = 0;
    proof {
        assert(all.take(0) =~= Seq::empty());
    }
    while i < tasks.len()
        invariant
            all == tasks.deep_view(),
            i <= tasks@.len(),
            queries.deep_view() == all_relation_queries(all.take(i as int)),
        decreases tasks.len() - i,
    {
        proof {
            assert(all.take(i + 1).drop_last() =~= all.take(i as int));
        }
        add_relation_queries(&mut queries, &read_key(&tasks[i], "id"));
        i = i + 1;
    }
    proof {
        assert(all.take(i as int) =~= all);
        lemma_all_relation_queries_len(all);
        assert(queries.deep_view().len() == queries@.len());
    }
    queries
}

/// Tasks with their relations, each of which five tables show.
pub open spec fn all_related(
    tasks: Seq<JsonView>,
    tables: Seq<Seq<Seq<(Seq<char>, SqlView)>>>,
) -> Result<Seq<JsonView>, Seq<char>>
    decreases tasks.len(),
{
    if tasks.len() == 0 {
        Ok(Seq::empty())
    } else {
        match all_related(tasks.drop_last(), tables) {
            Err(m) => Err(m),
            Ok(done) => match relations_in(tables, 5 * (tasks.len() - 1)) {
                Err(m) => Err(m),
                Ok(relations) => Ok(done.push(extended(tasks.last(), "relations"@, relations))),
            },
        }
    }
}

proof fn lemma_all_related_error_stays(
    tasks: Seq<JsonView>,
    tables: Seq<Seq<Seq<(Seq<char>, SqlView)>>>,
    i: int,
)
    requires
        0 <= i <= tasks.len(),
        all_related(tasks.take(i), tables) is Err,
    ensures
        all_related(tasks, tables) == all_related(tasks.take(i), tables),
    decreases tasks.len() - i,
{
    if i == tasks.len() {
        assert(tasks.take(i) =~= tasks);
    } else {
        assert(tasks.take(i + 1).drop_last() =~= tasks.take(i));
        lemma_all_related_error_stays(tasks, tables, i + 1);
    }
}

fn relate_all(tasks: &Vec<Json>, tables: &Vec<Vec<Row>>) -> (r: Result<Vec<Json>, String>)
    requires
        tables@.len() == 5 * tasks@.len(),
    ensures
        exchange::says(r, all_related(tasks.deep_view(), tables.deep_view())),
{
    let ghost all = tasks.deep_view();
    let mut done: Vec<Json> = json::none();
    let mut i: usize = 0;
    let mut from: usize = 0;
    let total: usize = tables.len();
    proof {
        assert(all.take(0) =~= Seq::empty());
    }
    while i < tasks.len()
        invariant
            all == tasks.deep_view(),
            i <= tasks@.len(),
            from == 5 * i,
            total == tables@.len(),
            total == 5 * tasks@.len(),
            all_related(all.take(i as int), tables.deep_view()) == Ok::<Seq<JsonView>, Seq<char>>(
                done.deep_view(),
            ),
        decreases tasks.len() - i,
    {
        proof {
            assert(all.take(i + 1).drop_last() =~= all.take(i as int));
            assert(all.take(i + 1).last() == tasks@[i as int]@);
            if all_related(all.take(i + 1), tables.deep_view()) is Err {
                lemma_all_related_error_stays(all, tables.deep_view(), i + 1);
            }
        }
        let relations = read_relations(tables, from)?;
        json::put(&mut done, extend(tasks[i].copy(), "relations", relations));
        i = i + 1;
        from = from + 5;
    }
    proof {
        assert(all.take(i as int) =~= all);
    }
    Ok(done)
}

/// The tasks of a listing with their relations: row by row, each with its relations before the
/// next. The replies start at `at`.
pub open spec fn tasks_at(
    replies: Seq<ReplyView>,
    at: int,
    query: Map<Seq<char>, Seq<char>>,
) -> Result<Seq<JsonView>, StepView> {
    match exchange::rows_at(replies, at, list_query(query)) {
        Err(s) => Err(s),
        Ok(found) => {
            let read = |row: Seq<(Seq<char>, SqlView)>| task_of_row(row);
            let tasks = rows::leading(found, read);
            match exchange::tables_at(replies, at + 1, all_relation_queries(tasks)) {
                Err(s) => Err(s),
                Ok(tables) => store::lifted(
                    rows::unless_faulty(found, read, all_related(tasks, tables)),
                ),
            }
        },
    }
}

/// Reads tasks with their relations.
pub fn list_tasks(replies: &Vec<Reply>, at: usize, query: &Fields) -> (r: Result<Vec<Json>, Step>)
    ensures
        exchange::agrees(r, tasks_at(replies.deep_view(), at as int, query@)),
{
    let total: usize = replies.len();
    let found = exchange::rows(replies, at, make_list_query(query))?;
    let (tasks, fault) = rows::read_leading(
        found,
        task_from_row,
        Ghost(|row: Seq<(Seq<char>, SqlView)>| task_of_row(row)),
    );
    let tables = exchange::tables(replies, at + 1, make_relation_queries(&tasks))?;
    let related = store::lift(relate_all(&tasks, tables))?;
    match fault {
        Some(m) => Err(Step::Fail(m)),
        None => Ok(related),
    }
}

} // verus!
