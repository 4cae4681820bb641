//! Changes to tasks: creating, updating, moving, archiving and deleting them.
use crate::exchange;
use crate::exchange::{
    Action, ActionView, Reply, ReplyView, Response, ResponseView, SqlValue, SqlView, Statement,
    StatementView, Step, StepView,
};
use crate::fields;
use crate::fields::{Actor, ActorView};
use crate::ids;
use crate::json;
use crate::json::{Json, JsonView};
use crate::projects;
use crate::store;
use crate::tasks;
use crate::text;
use vstd::prelude::*;

verus! {

/// The number that the next task of a project gets.
pub const NEXT_NUMBER: &'static str = "SELECT next_task_number FROM projects WHERE id = ?1 AND archived_at IS NULL";

pub const INSERT_TASK: &'static str = "
        INSERT INTO tasks (
          id, identifier, project_id, title, description, status, priority, labels,
          sort_order, thread_id, creator_type, creator_id, creator_name, creator_avatar_url,
          assignee_type, assignee_id, assignee_name, assignee_avatar_url,
          workflow_id, git_branch, worktree_path, worktree_branch,
          due_date, recurrence_interval, recurrence_unit,
          archived_at, version, created_at, updated_at
        ) VALUES (?1, ?2, ?3, ?4, ?5, ?6, ?7, ?8, ?9, ?10, ?11, ?12, ?13, ?14,
          ?15, ?16, ?17, ?18, ?19, ?20, ?21, ?22, ?23, ?24, ?25, NULL, 1, ?26, ?26)
        ";

pub const COUNT_TASK: &'static str = "UPDATE projects SET next_task_number = next_task_number + 1, updated_at = ?1 WHERE id = ?2";

/// The greatest sort order of the tasks of a project with a status.
pub const MAX_SORT_ORDER: &'static str = "SELECT COALESCE(MAX(sort_order), 0) FROM tasks WHERE project_id = ?1 AND status = ?2 AND archived_at IS NULL";

/// The greatest sort order of the tasks of a project with a status, but for one task.
pub const MAX_SORT_ORDER_EXCEPT: &'static str = "SELECT COALESCE(MAX(sort_order), 0) FROM tasks WHERE project_id = ?1 AND status = ?2 AND archived_at IS NULL AND id != ?3";

pub const MOVE_TASK: &'static str = "UPDATE tasks SET project_id = ?1, status = ?2, sort_order = ?3, thread_id = COALESCE(?4, thread_id), version = version + 1, updated_at = ?5 WHERE id = ?6 AND version = ?7";

pub const ARCHIVE_TASK: &'static str = "UPDATE tasks SET archived_at = ?1, thread_id = COALESCE(?2, thread_id), version = version + 1, updated_at = ?3 WHERE id = ?4 AND version = ?5";

/// The attachments of a task.
pub const TASK_ATTACHMENTS: &'static str = "SELECT id FROM attachments WHERE task_id = ?1";

pub const DELETE_TASK: &'static str = "DELETE FROM tasks WHERE id = ?1 AND version = ?2";

pub const TOUCH_TASK: &'static str = "UPDATE tasks SET thread_id = COALESCE(?1, thread_id), version = version + 1, updated_at = ?2 WHERE id = ?3 AND version = ?4";

/// That there is no such task.
pub open spec fn task_not_found() -> ResponseView {
    exchange::refusal(404, "TASK_NOT_FOUND"@, "Task not found"@)
}

/// Answers that there is no such task.
pub fn no_task() -> (r: Response)
    ensures
        r@ == task_not_found(),
{
    exchange::api_error(404, "TASK_NOT_FOUND", "Task not found")
}

/// That a task is not in the version that a request expects.
pub open spec fn task_conflict() -> ResponseView {
    exchange::refusal(409, "VERSION_CONFLICT"@, "Task was changed by another client"@)
}

/// Answers that a task is not in the version that a request expects.
pub fn conflicting_task() -> (r: Response)
    ensures
        r@ == task_conflict(),
{
    exchange::api_error(409, "VERSION_CONFLICT", "Task was changed by another client")
}

/// The response that shows a task.
pub open spec fn task_response(status: u16, task: JsonView) -> ResponseView {
    ResponseView::Json(status, JsonView::Object(json::members().push(("task"@, task))))
}

/// The text of a field, or another where there is none.
pub open spec fn text_or(value: Option<Seq<char>>, other: Seq<char>) -> Seq<char> {
    match value {
        Some(s) => s,
        None => other,
    }
}

/// Takes a text, or another where there is none.
pub fn or_text(value: Option<String>, other: &str) -> (r: String)
    ensures
        r@ == text_or(value.deep_view(), other@),
{
    match value {
        Some(s) => s,
        None => other.to_owned(),
    }
}

/// What a new task is, as far as a request says it in its first fields.
pub struct Outline {
    pub title: String,
    pub description: String,
    pub status: String,
    pub priority: String,
    pub labels: String,
}

pub struct OutlineView {
    pub title: Seq<char>,
    pub description: Seq<char>,
    pub status: Seq<char>,
    pub priority: Seq<char>,
    pub labels: Seq<char>,
}

impl View for Outline {
    type V = OutlineView;

    open spec fn view(&self) -> OutlineView {
        OutlineView {
            title: self.title@,
            description: self.description@,
            status: self.status@,
            priority: self.priority@,
            labels: self.labels@,
        }
    }
}

impl DeepView for Outline {
    type V = OutlineView;

    open spec fn deep_view(&self) -> OutlineView {
        self@
    }
}

/// The first fields of a new task.
pub open spec fn outline(body: JsonView) -> Result<OutlineView, Seq<char>> {
    match fields::required_text(body, "title"@, 240) {
        Err(m) => Err(m),
        Ok(title) => match fields::text_of(body, "description"@, 100_000) {
            Err(m) => Err(m),
            Ok(description) => match fields::status_spec(
                text_or(json::text_field(body, "status"@), "backlog"@),
            ) {
                Err(m) => Err(m),
                Ok(status) => match fields::priority_spec(
                    text_or(json::text_field(body, "priority"@), "none"@),
                ) {
                    Err(m) => Err(m),
                    Ok(priority) => match fields::labels_stored(json::field(body, "labels"@)) {
                        Err(m) => Err(m),
                        Ok(labels) => Ok(
                            OutlineView {
                                title,
                                description: text_or(description, Seq::empty()),
                                status,
                                priority,
                                labels,
                            },
                        ),
                    },
                },
            },
        },
    }
}

/// Whether the labels that a body names are shown as they were sent, once the text in which they are
/// stored is read.
pub open spec fn labels_stay(body: JsonView) -> bool {
    let labels = json::field(body, "labels"@);
    &&& fields::labels_of(labels) is Ok
    &&& tasks::shown_labels(JsonView::Text(fields::labels_stored(labels)->Ok_0))
        == fields::labels_value(fields::labels_of(labels)->Ok_0)
}

/// Whether a request asks to change the store, or is answered that it did.
pub open spec fn is_storing(r: Result<ResponseView, StepView>) -> bool {
    match r {
        Ok(ResponseView::Json(status, _)) => status == 200 || status == 201,
        Err(StepView::Ask(ActionView::Write(_))) => true,
        _ => false,
    }
}

fn read_outline(body: &Json) -> (r: Result<Outline, String>)
    ensures
        exchange::says(r, outline(body@)),
        r is Ok ==> labels_stay(body@),
{
    let title = fields::required_string(body, "title", 240)?;
    let described = fields::string_value(body, "description", 100_000)?;
    let description = match described {
        Some(s) => s,
        None => String::new(),
    };
    let status = match body.text("status") {
        Some(s) => fields::task_status(s)?.to_owned(),
        None => fields::task_status("backlog")?.to_owned(),
    };
    let priority = match body.text("priority") {
        Some(s) => fields::task_priority(s)?.to_owned(),
        None => fields::task_priority("none")?.to_owned(),
    };
    let labels = fields::labels_json(body.get("labels"))?;
    Ok(Outline { title, description, status, priority, labels })
}

/// What a new task is, as far as a request says it in its last fields.
pub struct Details {
    pub thread_id: Option<String>,
    pub assignee: Actor,
    pub workflow_id: Option<String>,
    pub git_branch: Option<String>,
    pub worktree_path: Option<String>,
    pub worktree_branch: Option<String>,
    pub due_date: Option<String>,
    pub recurrence: Option<(i64, String)>,
}

pub struct DetailsView {
    pub thread_id: Option<Seq<char>>,
    pub assignee: ActorView,
    pub workflow_id: Option<Seq<char>>,
    pub git_branch: Option<Seq<char>>,
    pub worktree_path: Option<Seq<char>>,
    pub worktree_branch: Option<Seq<char>>,
    pub due_date: Option<Seq<char>>,
    pub recurrence: Option<(int, Seq<char>)>,
}

impl View for Details {
    type V = DetailsView;

    open spec fn view(&self) -> DetailsView {
        DetailsView {
            thread_id: self.thread_id.deep_view(),
            assignee: self.assignee@,
            workflow_id: self.workflow_id.deep_view(),
            git_branch: self.git_branch.deep_view(),
            worktree_path: self.worktree_path.deep_view(),
            worktree_branch: self.worktree_branch.deep_view(),
            due_date: self.due_date.deep_view(),
            recurrence: match self.recurrence {
                Some((interval, unit)) => Some((interval as int, unit@)),
                None => None,
            },
        }
    }
}

impl DeepView for Details {
    type V = DetailsView;

    open spec fn deep_view(&self) -> DetailsView {
        self@
    }
}

/// The last fields of a new task.
pub open spec fn details(body: JsonView, actor: ActorView) -> Result<DetailsView, Seq<char>> {
    match fields::text_of(body, "threadId"@, 256) {
        Err(m) => Err(m),
        Ok(thread_id) => match fields::assignee(body, actor) {
            Err(m) => Err(m),
            Ok(assignee) => match fields::text_of(body, "workflowId"@, 128) {
                Err(m) => Err(m),
                Ok(workflow_id) => match fields::development(
                    json::field(body, "developmentContext"@),
                ) {
                    Err(m) => Err(m),
                    Ok(development) => match fields::due(json::field(body, "dueDate"@)) {
                        Err(m) => Err(m),
                        Ok(due_date) => match fields::recurring(json::field(body, "recurrence"@)) {
                            Err(m) => Err(m),
                            Ok(recurrence) => Ok(
                                DetailsView {
                                    thread_id,
                                    assignee,
                                    workflow_id,
                                    git_branch: development.0,
                                    worktree_path: development.1,
                                    worktree_branch: development.2,
                                    due_date,
                                    recurrence,
                                },
                            ),
                        },
                    },
                },
            },
        },
    }
}

fn read_details(body: &Json, actor: &Actor) -> (r: Result<Details, String>)
    ensures
        exchange::says(r, details(body@, actor@)),
{
    let thread_id = fields::string_value(body, "threadId", 256)?;
    let assignee = fields::assignee_from_body(body, actor)?;
    let workflow_id = fields::string_value(body, "workflowId", 128)?;
    let (git_branch, worktree_path, worktree_branch) = fields::development_context(
        body.get("developmentContext"),
    )?;
    let due_date = fields::due_date(body.get("dueDate"))?;
    let recurrence = fields::recurrence(body.get("recurrence"))?;
    Ok(
        Details {
            thread_id,
            assignee,
            workflow_id,
            git_branch,
            worktree_path,
            worktree_branch,
            due_date,
            recurrence,
        },
    )
}

/// The place of a task among the others: the one that a request names, or one behind the others;
/// and the place of the next reply.
pub open spec fn order_at(
    replies: Seq<ReplyView>,
    at: int,
    body: JsonView,
    greatest: StatementView,
) -> Result<(Seq<char>, int), StepView> {
    match fields::real_of(json::field(body, "sortOrder"@)) {
        Some(s) => Ok((s, at)),
        None => match exchange::text_at(replies, at, ActionView::NextSortOrder(greatest)) {
            Err(s) => Err(s),
            Ok(s) => Ok((s, at + 1)),
        },
    }
}

fn next_sort_order_sql(replies: &Vec<Reply>, at: usize, body: &Json, greatest: Statement) -> (r:
    Result<(String, usize), Step>)
    requires
        at <= replies@.len(),
    ensures
        exchange::reaches(r, order_at(replies.deep_view(), at as int, body@, greatest@)),
        r is Ok ==> (r->Ok_0).1 <= replies@.len(),
{
    let total: usize = replies.len();
    match fields::real_value(body.get("sortOrder")) {
        Some(s) => Ok((s, at)),
        None => {
            let s = exchange::text(replies, at, Action::NextSortOrder(greatest))?;
            Ok((s.clone(), at + 1))
        },
    }
}

/// The query for the greatest sort order of a project and a status.
pub open spec fn greatest_order(project_id: Seq<char>, status: Seq<char>) -> StatementView {
    store::stated(
        MAX_SORT_ORDER@,
        store::params().push(store::text_param(project_id)).push(store::text_param(status)),
    )
}

fn next_sort_order(replies: &Vec<Reply>, at: usize, body: &Json, project_id: &str, status: &str)
    -> (r: Result<(String, usize), Step>)
    requires
        at <= replies@.len(),
    ensures
        exchange::reaches(
            r,
            order_at(replies.deep_view(), at as int, body@, greatest_order(project_id@, status@)),
        ),
        r is Ok ==> (r->Ok_0).1 <= replies@.len(),
{
    let mut values: Vec<SqlValue> = json::none();
    store::bind_text(&mut values, project_id);
    store::bind_text(&mut values, status);
    next_sort_order_sql(replies, at, body, store::statement(MAX_SORT_ORDER, values))
}

/// The query for the greatest sort order of a project and a status, but for a task.
pub open spec fn greatest_order_except(
    project_id: Seq<char>,
    status: Seq<char>,
    task_id: Seq<char>,
) -> StatementView {
    store::stated(
        MAX_SORT_ORDER_EXCEPT@,
        store::params().push(store::text_param(project_id)).push(store::text_param(status)).push(
            store::text_param(task_id),
        ),
    )
}

fn next_sort_order_except(
    replies: &Vec<Reply>,
    at: usize,
    body: &Json,
    project_id: &str,
    status: &str,
    task_id: &str,
) -> (r: Result<(String, usize), Step>)
    requires
        at <= replies@.len(),
    ensures
        exchange::reaches(
            r,
            order_at(
                replies.deep_view(),
                at as int,
                body@,
                greatest_order_except(project_id@, status@, task_id@),
            ),
        ),
        r is Ok ==> (r->Ok_0).1 <= replies@.len(),
{
    let mut values: Vec<SqlValue> = json::none();
    store::bind_text(&mut values, project_id);
    store::bind_text(&mut values, status);
    store::bind_text(&mut values, task_id);
    next_sort_order_sql(replies, at, body, store::statement(MAX_SORT_ORDER_EXCEPT, values))
}

/// Parameters behind which those that describe an actor stand.
pub open spec fn actor_params(params: Seq<SqlView>, actor: ActorView) -> Seq<SqlView> {
    params.push(store::text_param(actor.kind)).push(store::text_param(actor.id)).push(
        store::text_param(actor.name),
    ).push(store::optional_param(actor.avatar_url))
}

/// Adds an actor to parameters.
pub fn bind_actor(params: &mut Vec<SqlValue>, actor: &Actor)
    ensures
        final(params).deep_view() == actor_params(old(params).deep_view(), actor@),
{
    store::bind_text(params, actor.kind);
    store::bind_text(params, actor.id);
    store::bind_text(params, actor.name);
    let avatar_url = match &actor.avatar_url {
        Some(s) => Some(s.clone()),
        None => None,
    };
    json::put(params, store::sql_optional(avatar_url));
}

/// The interval of a recurrence as a parameter.
pub open spec fn interval_param(recurrence: Option<(int, Seq<char>)>) -> SqlView {
    match recurrence {
        Some((interval, _)) => SqlView::Integer(interval),
        None => SqlView::Null,
    }
}

/// The unit of a recurrence as a parameter.
pub open spec fn unit_param(recurrence: Option<(int, Seq<char>)>) -> SqlView {
    match recurrence {
        Some((_, unit)) => SqlView::Text(unit),
        None => SqlView::Null,
    }
}

/// Parameters behind which those that say when and how often a task is due stand.
pub open spec fn recurrence_params(
    params: Seq<SqlView>,
    recurrence: Option<(int, Seq<char>)>,
) -> Seq<SqlView> {
    params.push(interval_param(recurrence)).push(unit_param(recurrence))
}

fn bind_recurrence(params: &mut Vec<SqlValue>, recurrence: Option<(i64, String)>)
    ensures
        final(params).deep_view() == recurrence_params(
            old(params).deep_view(),
            match recurrence {
                Some((interval, unit)) => Some((interval as int, unit@)),
                None => None,
            },
        ),
{
    match recurrence {
        Some((interval, unit)) => {
            json::put(params, SqlValue::Integer(interval));
            json::put(params, SqlValue::Text(unit));
        },
        None => {
            json::put(params, SqlValue::Null);
            json::put(params, SqlValue::Null);
        },
    }
}

/// The first parameters of the statement that adds a task.
pub open spec fn outline_params(
    id: Seq<char>,
    identifier: Seq<char>,
    project_id: Seq<char>,
    head: OutlineView,
    sort_order: Seq<char>,
) -> Seq<SqlView> {
    store::params().push(store::text_param(id)).push(store::text_param(identifier)).push(
        store::text_param(project_id),
    ).push(store::text_param(head.title)).push(store::text_param(head.description)).push(
        store::text_param(head.status),
    ).push(store::text_param(head.priority)).push(store::text_param(head.labels)).push(
        SqlView::Real(sort_order),
    )
}

/// The last parameters of the statement that adds a task.
pub open spec fn details_params(
    params: Seq<SqlView>,
    actor: ActorView,
    tail: DetailsView,
    timestamp: Seq<char>,
) -> Seq<SqlView> {
    recurrence_params(
        actor_params(
            actor_params(params.push(store::optional_param(tail.thread_id)), actor),
            tail.assignee,
        ).push(store::optional_param(tail.workflow_id)).push(
            store::optional_param(tail.git_branch),
        ).push(store::optional_param(tail.worktree_path)).push(
            store::optional_param(tail.worktree_branch),
        ).push(store::optional_param(tail.due_date)),
        tail.recurrence,
    ).push(store::text_param(timestamp))
}

fn bind_outline(
    id: &str,
    identifier: &str,
    project_id: &str,
    head: &Outline,
    sort_order: String,
) -> (r: Vec<SqlValue>)
    ensures
        r.deep_view() == outline_params(id@, identifier@, project_id@, head@, sort_order@),
{
    let mut values: Vec<SqlValue> = json::none();
    store::bind_text(&mut values, id);
    store::bind_text(&mut values, identifier);
    store::bind_text(&mut values, project_id);
    store::bind_text(&mut values, &head.title);
    store::bind_text(&mut values, &head.description);
    store::bind_text(&mut values, &head.status);
    store::bind_text(&mut values, &head.priority);
    store::bind_text(&mut values, &head.labels);
    json::put(&mut values, SqlValue::Real(sort_order));
    values
}

fn bind_details(values: &mut Vec<SqlValue>, actor: &Actor, tail: Details, timestamp: &str)
    ensures
        final(values).deep_view() == details_params(
            old(values).deep_view(),
            actor@,
            tail@,
            timestamp@,
        ),
{
    json::put(values, store::sql_optional(tail.thread_id));
    bind_actor(values, actor);
    bind_actor(values, &tail.assignee);
    json::put(values, store::sql_optional(tail.workflow_id));
    json::put(values, store::sql_optional(tail.git_branch));
    json::put(values, store::sql_optional(tail.worktree_path));
    json::put(values, store::sql_optional(tail.worktree_branch));
    json::put(values, store::sql_optional(tail.due_date));
    bind_recurrence(values, tail.recurrence);
    store::bind_text(values, timestamp);
}

/// How a new task is stored and shown, once all about it is known. The replies start at `at`.
pub open spec fn task_stored(
    replies: Seq<ReplyView>,
    at: int,
    project_id: Seq<char>,
    number: int,
    head: OutlineView,
    sort_order: Seq<char>,
    actor: ActorView,
    tail: DetailsView,
) -> Result<ResponseView, StepView> {
    match store::id_at(replies, at) {
        Err(s) => Err(s),
        Ok(id) => match store::now_at(replies, at + 1) {
            Err(s) => Err(s),
            Ok(timestamp) => match exchange::changed_at(
                replies,
                at + 2,
                store::stated(
                    INSERT_TASK@,
                    details_params(
                        outline_params(
                            id,
                            ids::identifier(project_id, number),
                            project_id,
                            head,
                            sort_order,
                        ),
                        actor,
                        tail,
                        timestamp,
                    ),
                ),
            ) {
                Err(s) => Err(s),
                Ok(_) => match exchange::changed_at(
                    replies,
                    at + 3,
                    store::stated(
                        COUNT_TASK@,
                        store::params().push(store::text_param(timestamp)).push(
                            store::text_param(project_id),
                        ),
                    ),
                ) {
                    Err(s) => Err(s),
                    Ok(_) => match tasks::task_at(replies, at + 4, id) {
                        Err(s) => Err(s),
                        Ok((None, _)) => Err(StepView::Fail("created task"@)),
                        Ok((Some(task), _)) => Ok(task_response(201, task)),
                    },
                },
            },
        },
    }
}

fn store_task(
    replies: &Vec<Reply>,
    at: usize,
    project_id: &str,
    number: i64,
    head: &Outline,
    sort_order: String,
    actor: &Actor,
    tail: Details,
) -> (r: Result<Response, Step>)
    ensures
        exchange::agrees(
            r,
            task_stored(
                replies.deep_view(),
                at as int,
                project_id@,
                number as int,
                head@,
                sort_order@,
                actor@,
                tail@,
            ),
        ),
{
    let total: usize = replies.len();
    let id = store::new_id_from(replies, at)?;
    let timestamp = store::db_now(replies, at + 1)?;
    let identifier = ids::task_identifier(project_id, number);
    let mut values = bind_outline(id, &identifier, project_id, head, sort_order);
    bind_details(&mut values, actor, tail, &timestamp);
    let _ = exchange::changed(replies, at + 2, store::statement(INSERT_TASK, values))?;
    let mut counted: Vec<SqlValue> = json::none();
    store::bind_text(&mut counted, &timestamp);
    store::bind_text(&mut counted, project_id);
    let _ = exchange::changed(replies, at + 3, store::statement(COUNT_TASK, counted))?;
    match tasks::get_task(replies, at + 4, id)?.0 {
        Some(task) => Ok(Response::Json(201, json::single("task", task))),
        None => Err(Step::Fail("created task".to_owned())),
    }
}

/// How the creation of a task goes.
#[verifier::opaque]
pub open spec fn task_created(replies: Seq<ReplyView>, body: JsonView, actor: ActorView) -> Result<
    ResponseView,
    StepView,
> {
    match fields::text_of(body, "projectId"@, 64) {
        Err(m) => Err(StepView::Fail(m)),
        Ok(asked) => {
            let project_id = text_or(asked, fields::DEFAULT_PROJECT_ID@);
            if !ids::project_id_form(project_id) {
                Ok(exchange::refusal(400, "INVALID_FIELD"@, "Project id is invalid"@))
            } else {
                match exchange::rows_at(
                    replies,
                    0,
                    store::stated(
                        NEXT_NUMBER@,
                        store::params().push(store::text_param(project_id)),
                    ),
                ) {
                    Err(s) => Err(s),
                    Ok(found) => match store::single_integer(found) {
                        Err(m) => Err(StepView::Fail(m)),
                        Ok(None) => Ok(projects::project_not_found()),
                        Ok(Some(number)) => match outline(body) {
                            Err(m) => Err(StepView::Fail(m)),
                            Ok(head) => match order_at(
                                replies,
                                1,
                                body,
                                greatest_order(project_id, head.status),
                            ) {
                                Err(s) => Err(s),
                                Ok((sort_order, next)) => match details(body, actor) {
                                    Err(m) => Err(StepView::Fail(m)),
                                    Ok(tail) => if tail.recurrence is Some
                                        && tail.due_date is None {
                                        Ok(
                                            exchange::refusal(
                                                400,
                                                "INVALID_FIELD"@,
                                                "A recurring issue requires dueDate"@,
                                            ),
                                        )
                                    } else {
                                        task_stored(
                                            replies,
                                            next,
                                            project_id,
                                            number,
                                            head,
                                            sort_order,
                                            actor,
                                            tail,
                                        )
                                    },
                                },
                            },
                        },
                    },
                }
            }
        },
    }
}

/// Creates a task.
pub fn create_task(replies: &Vec<Reply>, body: &Json, actor: &Actor) -> (r: Result<Response, Step>)
    ensures
        exchange::agrees(r, task_created(replies.deep_view(), body@, actor@)),
        is_storing(task_created(replies.deep_view(), body@, actor@)) ==> labels_stay(body@),
{
    proof {
        reveal(task_created);
    }
    let asked = store::lift(fields::string_value(body, "projectId", 64))?;
    let project_id = or_text(asked, fields::DEFAULT_PROJECT_ID);
    if !ids::is_project_id(&project_id) {
        return Ok(exchange::api_error(400, "INVALID_FIELD", "Project id is invalid"));
    }
    let found = exchange::rows(replies, 0, store::keyed(NEXT_NUMBER, &project_id))?;
    let number: i64 = match store::lift(store::read_single_integer(found))? {
        Some(number) => number,
        None => {
            return Ok(projects::no_project());
        },
    };
    let head = store::lift(read_outline(body))?;
    let (sort_order, next) = next_sort_order(replies, 1, body, &project_id, &head.status)?;
    let tail = store::lift(read_details(body, actor))?;
    if tail.recurrence.is_some() && tail.due_date.is_none() {
        return Ok(
            exchange::api_error(400, "INVALID_FIELD", "A recurring issue requires dueDate"),
        );
    }
    store_task(replies, next, &project_id, number, &head, sort_order, actor, tail)
}

/// Assignments of an update and the values that they assign.
pub struct Changes {
    pub assignments: Vec<String>,
    pub values: Vec<SqlValue>,
}

pub struct ChangesView {
    pub assignments: Seq<Seq<char>>,
    pub values: Seq<SqlView>,
}

impl View for Changes {
    type V = ChangesView;

    open spec fn view(&self) -> ChangesView {
        ChangesView {
            assignments: self.assignments.deep_view(),
            values: self.values.deep_view(),
        }
    }
}

impl DeepView for Changes {
    type V = ChangesView;

    open spec fn deep_view(&self) -> ChangesView {
        self@
    }
}

impl ChangesView {
    /// No changes.
    pub open spec fn none() -> ChangesView {
        ChangesView { assignments: Seq::empty(), values: Seq::empty() }
    }

    /// One more change.
    pub open spec fn with(self, assignment: Seq<char>, value: SqlView) -> ChangesView {
        ChangesView {
            assignments: self.assignments.push(assignment),
            values: self.values.push(value),
        }
    }
}

impl Changes {
    /// No changes.
    pub fn none() -> (r: Changes)
        ensures
            r@ == ChangesView::none(),
    {
        Changes { assignments: json::none(), values: json::none() }
    }

    /// Adds a change.
    pub fn set(&mut self, assignment: &str, value: SqlValue)
        ensures
            final(self)@ == old(self)@.with(assignment@, value@),
    {
        json::put(&mut self.assignments, assignment.to_owned());
        json::put(&mut self.values, value);
    }
}

/// The change that a text field that must not be empty makes.
pub open spec fn with_required(
    changes: ChangesView,
    body: JsonView,
    key: Seq<char>,
    limit: nat,
    assignment: Seq<char>,
) -> Result<ChangesView, Seq<char>> {
    if json::field(body, key) is None {
        Ok(changes)
    } else {
        match fields::required_text(body, key, limit) {
            Err(m) => Err(m),
            Ok(s) => Ok(changes.with(assignment, SqlView::Text(s))),
        }
    }
}

/// Adds the change that a text field makes which must not be empty.
pub fn push_string_change(
    changes: &mut Changes,
    body: &Json,
    key: &str,
    limit: usize,
    assignment: &str,
) -> (r: Result<(), String>)
    ensures
        match with_required(old(changes)@, body@, key@, limit as nat, assignment@) {
            Ok(c) => r is Ok && final(changes)@ == c,
            Err(m) => r is Err && (r->Err_0)@ == m,
        },
{
    if body.get(key).is_none() {
        return Ok(());
    }
    let s = fields::required_string(body, key, limit)?;
    changes.set(assignment, SqlValue::Text(s));
    Ok(())
}

/// The changes that the first fields of an update make: its title, description, status, priority
/// and labels.
pub open spec fn outline_changes(body: JsonView) -> Result<ChangesView, Seq<char>> {
    match with_required(ChangesView::none(), body, "title"@, 240, "title = ?"@) {
        Err(m) => Err(m),
        Ok(titled) => match with_description(titled, body) {
            Err(m) => Err(m),
            Ok(described) => match with_status(described, body) {
                Err(m) => Err(m),
                Ok(placed) => match with_priority(placed, body) {
                    Err(m) => Err(m),
                    Ok(weighed) => with_labels(weighed, body),
                },
            },
        },
    }
}

/// The change that a description makes.
pub open spec fn with_description(changes: ChangesView, body: JsonView) -> Result<
    ChangesView,
    Seq<char>,
> {
    if json::field(body, "description"@) is None {
        Ok(changes)
    } else {
        match fields::text_of(body, "description"@, 100_000) {
            Err(m) => Err(m),
            Ok(s) => Ok(
                changes.with("description = ?"@, SqlView::Text(text_or(s, Seq::empty()))),
            ),
        }
    }
}

/// The change that a status makes.
pub open spec fn with_status(changes: ChangesView, body: JsonView) -> Result<
    ChangesView,
    Seq<char>,
> {
    match json::text_field(body, "status"@) {
        None => Ok(changes),
        Some(status) => match fields::status_spec(status) {
            Err(m) => Err(m),
            Ok(s) => Ok(changes.with("status = ?"@, SqlView::Text(s))),
        },
    }
}

/// The change that a priority makes.
pub open spec fn with_priority(changes: ChangesView, body: JsonView) -> Result<
    ChangesView,
    Seq<char>,
> {
    match json::text_field(body, "priority"@) {
        None => Ok(changes),
        Some(priority) => match fields::priority_spec(priority) {
            Err(m) => Err(m),
            Ok(s) => Ok(changes.with("priority = ?"@, SqlView::Text(s))),
        },
    }
}

/// The change that labels make.
pub open spec fn with_labels(changes: ChangesView, body: JsonView) -> Result<
    ChangesView,
    Seq<char>,
> {
    if json::field(body, "labels"@) is None {
        Ok(changes)
    } else {
        match fields::labels_stored(json::field(body, "labels"@)) {
            Err(m) => Err(m),
            Ok(s) => Ok(changes.with("labels = ?"@, SqlView::Text(s))),
        }
    }
}

fn read_outline_changes(body: &Json) -> (r: Result<Changes, String>)
    ensures
        exchange::says(r, outline_changes(body@)),
        r is Ok && json::field(body@, "labels"@) is Some ==> labels_stay(body@),
{
    let mut changes = Changes::none();
    push_string_change(&mut changes, body, "title", 240, "title = ?")?;
    if body.get("description").is_some() {
        let described = fields::string_value(body, "description", 100_000)?;
        let description = match described {
            Some(s) => s,
            None => String::new(),
        };
        changes.set("description = ?", SqlValue::Text(description));
    }
    match body.text("status") {
        Some(status) => {
            let s = fields::task_status(status)?;
            changes.set("status = ?", SqlValue::Text(s.to_owned()));
        },
        None => {},
    }
    match body.text("priority") {
        Some(priority) => {
            let s = fields::task_priority(priority)?;
            changes.set("priority = ?", SqlValue::Text(s.to_owned()));
        },
        None => {},
    }
    if body.get("labels").is_some() {
        let labels = fields::labels_json(body.get("labels"))?;
        changes.set("labels = ?", SqlValue::Text(labels));
    }
    Ok(changes)
}

/// The change that a workflow makes.
pub open spec fn with_workflow(changes: ChangesView, body: JsonView) -> Result<
    ChangesView,
    Seq<char>,
> {
    if json::field(body, "workflowId"@) is None {
        Ok(changes)
    } else {
        match fields::text_of(body, "workflowId"@, 128) {
            Err(m) => Err(m),
            Ok(s) => Ok(changes.with("workflow_id = ?"@, store::optional_param(s))),
        }
    }
}

/// The changes that a place to work makes.
pub open spec fn with_development(changes: ChangesView, body: JsonView) -> Result<
    ChangesView,
    Seq<char>,
> {
    if json::field(body, "developmentContext"@) is None {
        Ok(changes)
    } else {
        match fields::development(json::field(body, "developmentContext"@)) {
            Err(m) => Err(m),
            Ok(d) => Ok(
                changes.with("git_branch = ?"@, store::optional_param(d.0)).with(
                    "worktree_path = ?"@,
                    store::optional_param(d.1),
                ).with("worktree_branch = ?"@, store::optional_param(d.2)),
            ),
        }
    }
}

/// The change that a due date makes.
pub open spec fn with_due(changes: ChangesView, body: JsonView) -> Result<ChangesView, Seq<char>> {
    if json::field(body, "dueDate"@) is None {
        Ok(changes)
    } else {
        match fields::due(json::field(body, "dueDate"@)) {
            Err(m) => Err(m),
            Ok(s) => Ok(changes.with("due_date = ?"@, store::optional_param(s))),
        }
    }
}

/// The changes that a recurrence makes.
pub open spec fn with_recurrence(changes: ChangesView, body: JsonView) -> Result<
    ChangesView,
    Seq<char>,
> {
    if json::field(body, "recurrence"@) is None {
        Ok(changes)
    } else {
        match fields::recurring(json::field(body, "recurrence"@)) {
            Err(m) => Err(m),
            Ok(r) => Ok(
                changes.with("recurrence_interval = ?"@, interval_param(r)).with(
                    "recurrence_unit = ?"@,
                    unit_param(r),
                ),
            ),
        }
    }
}

/// The change that a thread makes.
pub open spec fn with_thread(changes: ChangesView, body: JsonView) -> Result<
    ChangesView,
    Seq<char>,
> {
    match fields::text_of(body, "threadId"@, 256) {
        Err(m) => Err(m),
        Ok(None) => Ok(changes),
        Ok(Some(s)) => Ok(changes.with("thread_id = ?"@, SqlView::Text(s))),
    }
}

/// The changes that an assignee makes.
pub open spec fn with_assignee(changes: ChangesView, body: JsonView, actor: ActorView) -> Result<
    ChangesView,
    Seq<char>,
> {
    if json::field(body, "assigneeTarget"@) is None {
        Ok(changes)
    } else {
        match fields::assignee(body, actor) {
            Err(m) => Err(m),
            Ok(a) => Ok(
                changes.with("assignee_type = ?"@, SqlView::Text(a.kind)).with(
                    "assignee_id = ?"@,
                    SqlView::Text(a.id),
                ).with("assignee_name = ?"@, SqlView::Text(a.name)).with(
                    "assignee_avatar_url = ?"@,
                    store::optional_param(a.avatar_url),
                ),
            ),
        }
    }
}

/// The changes that the last fields of an update make.
pub open spec fn details_changes(changes: ChangesView, body: JsonView, actor: ActorView) -> Result<
    ChangesView,
    Seq<char>,
> {
    match with_workflow(changes, body) {
        Err(m) => Err(m),
        Ok(routed) => match with_development(routed, body) {
            Err(m) => Err(m),
            Ok(located) => match with_due(located, body) {
                Err(m) => Err(m),
                Ok(due) => match with_recurrence(due, body) {
                    Err(m) => Err(m),
                    Ok(recurring) => match with_thread(recurring, body) {
                        Err(m) => Err(m),
                        Ok(threaded) => with_assignee(threaded, body, actor),
                    },
                },
            },
        },
    }
}

fn read_details_changes(changes: Changes, body: &Json, actor: &Actor) -> (r: Result<
    Changes,
    String,
>)
    ensures
        exchange::says(r, details_changes(changes@, body@, actor@)),
{
    let mut changes = changes;
    if body.get("workflowId").is_some() {
        let workflow_id = fields::string_value(body, "workflowId", 128)?;
        changes.set("workflow_id = ?", store::sql_optional(workflow_id));
    }
    if body.get("developmentContext").is_some() {
        let (git_branch, worktree_path, worktree_branch) = fields::development_context(
            body.get("developmentContext"),
        )?;
        changes.set("git_branch = ?", store::sql_optional(git_branch));
        changes.set("worktree_path = ?", store::sql_optional(worktree_path));
        changes.set("worktree_branch = ?", store::sql_optional(worktree_branch));
    }
    if body.get("dueDate").is_some() {
        let due_date = fields::due_date(body.get("dueDate"))?;
        changes.set("due_date = ?", store::sql_optional(due_date));
    }
    if body.get("recurrence").is_some() {
        match fields::recurrence(body.get("recurrence"))? {
            Some((interval, unit)) => {
                changes.set("recurrence_interval = ?", SqlValue::Integer(interval));
                changes.set("recurrence_unit = ?", SqlValue::Text(unit));
            },
            None => {
                changes.set("recurrence_interval = ?", SqlValue::Null);
                changes.set("recurrence_unit = ?", SqlValue::Null);
            },
        }
    }
    match fields::string_value(body, "threadId", 256)? {
        Some(thread_id) => {
            changes.set("thread_id = ?", SqlValue::Text(thread_id));
        },
        None => {},
    }
    if body.get("assigneeTarget").is_some() {
        let assignee = fields::assignee_from_body(body, actor)?;
        changes.set("assignee_type = ?", SqlValue::Text(assignee.kind.to_owned()));
        changes.set("assignee_id = ?", SqlValue::Text(assignee.id.to_owned()));
        changes.set("assignee_name = ?", SqlValue::Text(assignee.name.to_owned()));
        changes.set("assignee_avatar_url = ?", store::sql_optional(assignee.avatar_url));
    }
    Ok(changes)
}

/// All changes that an update makes.
#[verifier::opaque]
pub open spec fn task_changes(body: JsonView, actor: ActorView) -> Result<ChangesView, Seq<char>> {
    match outline_changes(body) {
        Err(m) => Err(m),
        Ok(changes) => details_changes(changes, body, actor),
    }
}

fn read_task_changes(body: &Json, actor: &Actor) -> (r: Result<Changes, String>)
    ensures
        exchange::says(r, task_changes(body@, actor@)),
        r is Ok && json::field(body@, "labels"@) is Some ==> labels_stay(body@),
{
    proof {
        reveal(task_changes);
    }
    let changes = read_outline_changes(body)?;
    read_details_changes(changes, body, actor)
}

/// The statement that applies changes to a task in a version.
pub open spec fn task_update(
    changes: ChangesView,
    task_id: Seq<char>,
    version: int,
    timestamp: Seq<char>,
) -> StatementView {
    store::stated(
        "UPDATE tasks SET "@ + text::joined(
            changes.assignments.push("version = version + 1"@).push("updated_at = ?"@),
            ", "@,
        ) + " WHERE id = ? AND version = ?"@,
        changes.values.push(store::text_param(timestamp)).push(store::text_param(task_id)).push(
            SqlView::Integer(version),
        ),
    )
}

fn apply_task_update(changes: Changes, task_id: &str, version: i64, timestamp: &str) -> (r:
    Statement)
    ensures
        r@ == task_update(changes@, task_id@, version as int, timestamp@),
{
    let Changes { assignments, values } = changes;
    let mut assignments = assignments;
    let mut values = values;
    json::put(&mut assignments, "version = version + 1".to_owned());
    json::put(&mut assignments, "updated_at = ?".to_owned());
    store::bind_text(&mut values, timestamp);
    store::bind_text(&mut values, task_id);
    json::put(&mut values, SqlValue::Integer(version));
    let mut sql = "UPDATE tasks SET ".to_owned();
    sql.append(&text::join(&assignments, ", "));
    sql.append(" WHERE id = ? AND version = ?");
    store::statement(&sql, values)
}

/// The task that a request is about, its identifier and its version, which is the one that the
/// request expects; and the place of the next reply.
pub open spec fn current_task(replies: Seq<ReplyView>, id: Seq<char>, body: JsonView) -> Result<
    (JsonView, int, int),
    StepView,
> {
    match tasks::task_at(replies, 0, id) {
        Err(s) => Err(s),
        Ok((None, _)) => Err(StepView::Answer(task_not_found())),
        Ok((Some(task), next)) => match fields::expected_version(body) {
            Err(m) => Err(StepView::Fail(m)),
            Ok(version) => if json::integer_field(task, "version"@) != Some(version) {
                Err(StepView::Answer(task_conflict()))
            } else {
                Ok((task, version, next))
            },
        },
    }
}

fn read_current_task(replies: &Vec<Reply>, id: &str, body: &Json) -> (r: Result<
    (Json, i64, usize),
    Step,
>)
    ensures
        match r {
            Ok((task, version, next)) => current_task(replies.deep_view(), id@, body@) == Ok::<
                (JsonView, int, int),
                StepView,
            >((task@, version as int, next as int)) && next <= replies@.len(),
            Err(s) => current_task(replies.deep_view(), id@, body@) == Err::<
                (JsonView, int, int),
                StepView,
            >(s@),
        },
{
    let (found, next) = tasks::get_task(replies, 0, id)?;
    let task = match found {
        Some(task) => task,
        None => {
            return Err(Step::Answer(no_task()));
        },
    };
    let version: i64 = store::lift(fields::read_version(body))?;
    let matches = match task.integer("version") {
        Some(actual) => actual == version,
        None => false,
    };
    if !matches {
        return Err(Step::Answer(conflicting_task()));
    }
    Ok((task, version, next))
}

/// The task with an identifier as a response shows it; the replies start at `at`.
pub open spec fn shown_task(replies: Seq<ReplyView>, at: int, id: Seq<char>) -> Result<
    ResponseView,
    StepView,
> {
    match tasks::task_at(replies, at, id) {
        Err(s) => Err(s),
        Ok((task, _)) => Ok(task_response(200, json::or_null(task))),
    }
}

fn show_task(replies: &Vec<Reply>, at: usize, id: &str) -> (r: Result<Response, Step>)
    ensures
        exchange::agrees(r, shown_task(replies.deep_view(), at as int, id@)),
{
    let (task, _) = tasks::get_task(replies, at, id)?;
    Ok(Response::Json(200, json::single("task", json::null_if_none(task))))
}

/// How an update of a task goes.
#[verifier::opaque]
pub open spec fn task_updated(
    replies: Seq<ReplyView>,
    id: Seq<char>,
    body: JsonView,
    actor: ActorView,
) -> Result<ResponseView, StepView> {
    match current_task(replies, id, body) {
        Err(s) => Err(s),
        Ok((task, version, next)) => match task_changes(body, actor) {
            Err(m) => Err(StepView::Fail(m)),
            Ok(changes) => if changes.assignments.len() == 0 {
                Ok(
                    exchange::refusal(
                        400,
                        "INVALID_BODY"@,
                        "PATCH requires at least one task field"@,
                    ),
                )
            } else {
                match fields::member_text(task, "id"@) {
                    Err(m) => Err(StepView::Fail(m)),
                    Ok(task_id) => match store::now_at(replies, next) {
                        Err(s) => Err(s),
                        Ok(timestamp) => match exchange::changed_at(
                            replies,
                            next + 1,
                            task_update(changes, task_id, version, timestamp),
                        ) {
                            Err(s) => Err(s),
                            Ok(_) => shown_task(replies, next + 2, task_id),
                        },
                    },
                }
            },
        },
    }
}

/// Updates a task.
pub fn update_task(replies: &Vec<Reply>, id: &str, body: &Json, actor: &Actor) -> (r: Result<
    Response,
    Step,
>)
    ensures
        exchange::agrees(r, task_updated(replies.deep_view(), id@, body@, actor@)),
        is_storing(task_updated(replies.deep_view(), id@, body@, actor@)) && json::field(
            body@,
            "labels"@,
        ) is Some ==> labels_stay(body@),
{
    proof {
        reveal(task_updated);
    }
    let total: usize = replies.len();
    let (task, version, next) = read_current_task(replies, id, body)?;
    let changes = store::lift(read_task_changes(body, actor))?;
    if changes.assignments.len() == 0 {
        return Ok(
            exchange::api_error(400, "INVALID_BODY", "PATCH requires at least one task field"),
        );
    }
    let task_id = store::lift(fields::value_string(&task, "id"))?;
    let timestamp = store::db_now(replies, next)?;
    let _ = exchange::changed(
        replies,
        next + 1,
        apply_task_update(changes, &task_id, version, &timestamp),
    )?;
    show_task(replies, next + 2, &task_id)
}

/// The statement that moves a task.
pub open spec fn task_move(
    project_id: Seq<char>,
    status: Seq<char>,
    sort_order: Seq<char>,
    thread_id: Option<Seq<char>>,
    timestamp: Seq<char>,
    task_id: Seq<char>,
    version: int,
) -> StatementView {
    store::stated(
        MOVE_TASK@,
        store::params().push(store::text_param(project_id)).push(store::text_param(status)).push(
            SqlView::Real(sort_order),
        ).push(store::optional_param(thread_id)).push(store::text_param(timestamp)).push(
            store::text_param(task_id),
        ).push(SqlView::Integer(version)),
    )
}

fn make_task_move(
    project_id: &str,
    status: &str,
    sort_order: String,
    thread_id: Option<String>,
    timestamp: &str,
    task_id: &str,
    version: i64,
) -> (r: Statement)
    ensures
        r@ == task_move(
            project_id@,
            status@,
            sort_order@,
            thread_id.deep_view(),
            timestamp@,
            task_id@,
            version as int,
        ),
{
    let mut values: Vec<SqlValue> = json::none();
    store::bind_text(&mut values, project_id);
    store::bind_text(&mut values, status);
    json::put(&mut values, SqlValue::Real(sort_order));
    json::put(&mut values, store::sql_optional(thread_id));
    store::bind_text(&mut values, timestamp);
    store::bind_text(&mut values, task_id);
    json::put(&mut values, SqlValue::Integer(version));
    store::statement(MOVE_TASK, values)
}

/// How a task is moved, once its project is known to be there. The replies start at `at`.
pub open spec fn task_placed(
    replies: Seq<ReplyView>,
    at: int,
    task_id: Seq<char>,
    version: int,
    project_id: Seq<char>,
    body: JsonView,
) -> Result<ResponseView, StepView> {
    match fields::plain_text(body, "status"@) {
        Err(m) => Err(StepView::Fail(m)),
        Ok(asked) => match fields::status_spec(asked) {
            Err(m) => Err(StepView::Fail(m)),
            Ok(status) => match order_at(
                replies,
                at,
                body,
                greatest_order_except(project_id, status, task_id),
            ) {
                Err(s) => Err(s),
                Ok((sort_order, next)) => match fields::text_of(body, "threadId"@, 256) {
                    Err(m) => Err(StepView::Fail(m)),
                    Ok(thread_id) => match store::now_at(replies, next) {
                        Err(s) => Err(s),
                        Ok(timestamp) => match exchange::changed_at(
                            replies,
                            next + 1,
                            task_move(
                                project_id,
                                status,
                                sort_order,
                                thread_id,
                                timestamp,
                                task_id,
                                version,
                            ),
                        ) {
                            Err(s) => Err(s),
                            Ok(_) => shown_task(replies, next + 2, task_id),
                        },
                    },
                },
            },
        },
    }
}

fn place_task(
    replies: &Vec<Reply>,
    at: usize,
    task_id: &str,
    version: i64,
    project_id: &str,
    body: &Json,
) -> (r: Result<Response, Step>)
    requires
        at <= replies@.len(),
    ensures
        exchange::agrees(
            r,
            task_placed(
                replies.deep_view(),
                at as int,
                task_id@,
                version as int,
                project_id@,
                body@,
            ),
        ),
{
    let total: usize = replies.len();
    let asked = store::lift(fields::required_body_str(body, "status"))?;
    let status = store::lift(fields::task_status(asked))?;
    let (sort_order, next) = next_sort_order_except(
        replies,
        at,
        body,
        project_id,
        status,
        task_id,
    )?;
    let thread_id = store::lift(fields::string_value(body, "threadId", 256))?;
    let timestamp = store::db_now(replies, next)?;
    let write = make_task_move(
        project_id,
        status,
        sort_order,
        thread_id,
        &timestamp,
        task_id,
        version,
    );
    let _ = exchange::changed(replies, next + 1, write)?;
    show_task(replies, next + 2, task_id)
}

/// How the moving of a task goes.
#[verifier::opaque]
pub open spec fn task_moved(replies: Seq<ReplyView>, id: Seq<char>, body: JsonView) -> Result<
    ResponseView,
    StepView,
> {
    match current_task(replies, id, body) {
        Err(s) => Err(s),
        Ok((task, version, next)) => if !json::absent(task, "archivedAt"@) {
            Ok(exchange::refusal(409, "TASK_ARCHIVED"@, "Archived tasks cannot be moved"@))
        } else {
            match fields::member_text(task, "id"@) {
                Err(m) => Err(StepView::Fail(m)),
                Ok(task_id) => match fields::text_of(body, "projectId"@, 64) {
                    Err(m) => Err(StepView::Fail(m)),
                    Ok(asked) => {
                        let project_id = text_or(
                            asked,
                            text_or(
                                json::text_field(task, "projectId"@),
                                fields::DEFAULT_PROJECT_ID@,
                            ),
                        );
                        match projects::project_at(replies, next, project_id, false) {
                            Err(s) => Err(s),
                            Ok(None) => Ok(projects::project_not_found()),
                            Ok(Some(_)) => task_placed(
                                replies,
                                next + 1,
                                task_id,
                                version,
                                project_id,
                                body,
                            ),
                        }
                    },
                },
            }
        },
    }
}

/// Moves a task to a status and a project.
pub fn move_task(replies: &Vec<Reply>, id: &str, body: &Json) -> (r: Result<Response, Step>)
    ensures
        exchange::agrees(r, task_moved(replies.deep_view(), id@, body@)),
{
    proof {
        reveal(task_moved);
    }
    let total: usize = replies.len();
    let (task, version, next) = read_current_task(replies, id, body)?;
    if !task.lacks("archivedAt") {
        return Ok(exchange::api_error(409, "TASK_ARCHIVED", "Archived tasks cannot be moved"));
    }
    let task_id = store::lift(fields::value_string(&task, "id"))?;
    let project_id = match store::lift(fields::string_value(body, "projectId", 64))? {
        Some(project_id) => project_id,
        None => match task.text("projectId") {
            Some(project_id) => project_id.clone(),
            None => fields::DEFAULT_PROJECT_ID.to_owned(),
        },
    };
    if projects::get_project(replies, next, &project_id)?.is_none() {
        return Ok(projects::no_project());
    }
    place_task(replies, next + 1, &task_id, version, &project_id, body)
}

/// The statement that archives or restores a task.
pub open spec fn task_archive(
    archived: bool,
    thread_id: Option<Seq<char>>,
    timestamp: Seq<char>,
    task_id: Seq<char>,
    version: int,
) -> StatementView {
    let archived_at = if archived {
        SqlView::Text(timestamp)
    } else {
        SqlView::Null
    };
    store::stated(
        ARCHIVE_TASK@,
        store::params().push(archived_at).push(store::optional_param(thread_id)).push(
            store::text_param(timestamp),
        ).push(store::text_param(task_id)).push(SqlView::Integer(version)),
    )
}

/// How the archiving or restoring of a task goes.
#[verifier::opaque]
pub open spec fn task_archived(
    replies: Seq<ReplyView>,
    id: Seq<char>,
    body: JsonView,
    archived: bool,
) -> Result<ResponseView, StepView> {
    match current_task(replies, id, body) {
        Err(s) => Err(s),
        Ok((task, version, next)) => if !archived && json::absent(task, "archivedAt"@) {
            Ok(
                exchange::refusal(
                    409,
                    "TASK_NOT_ARCHIVED"@,
                    "Only archived tasks can be restored"@,
                ),
            )
        } else {
            match fields::member_text(task, "id"@) {
                Err(m) => Err(StepView::Fail(m)),
                Ok(task_id) => match fields::text_of(body, "threadId"@, 256) {
                    Err(m) => Err(StepView::Fail(m)),
                    Ok(thread_id) => match store::now_at(replies, next) {
                        Err(s) => Err(s),
                        Ok(timestamp) => match exchange::changed_at(
                            replies,
                            next + 1,
                            task_archive(archived, thread_id, timestamp, task_id, version),
                        ) {
                            Err(s) => Err(s),
                            Ok(_) => shown_task(replies, next + 2, task_id),
                        },
                    },
                },
            }
        },
    }
}

/// Archives or restores a task.
pub fn set_task_archived(replies: &Vec<Reply>, id: &str, body: &Json, archived: bool) -> (r: Result<
    Response,
    Step,
>)
    ensures
        exchange::agrees(r, task_archived(replies.deep_view(), id@, body@, archived)),
{
    proof {
        reveal(task_archived);
    }
    let total: usize = replies.len();
    let (task, version, next) = read_current_task(replies, id, body)?;
    if !archived && task.lacks("archivedAt") {
        return Ok(
            exchange::api_error(409, "TASK_NOT_ARCHIVED", "Only archived tasks can be restored"),
        );
    }
    let task_id = store::lift(fields::value_string(&task, "id"))?;
    let thread_id = store::lift(fields::string_value(body, "threadId", 256))?;
    let timestamp = store::db_now(replies, next)?;
    let mut values: Vec<SqlValue> = json::none();
    if archived {
        store::bind_text(&mut values, &timestamp);
    } else {
        json::put(&mut values, SqlValue::Null);
    }
    json::put(&mut values, store::sql_optional(thread_id));
    store::bind_text(&mut values, &timestamp);
    store::bind_text(&mut values, &task_id);
    json::put(&mut values, SqlValue::Integer(version));
    let _ = exchange::changed(replies, next + 1, store::statement(ARCHIVE_TASK, values))?;
    show_task(replies, next + 2, &task_id)
}

/// Archives a task.
pub fn archive_task(replies: &Vec<Reply>, id: &str, body: &Json) -> (r: Result<Response, Step>)
    ensures
        exchange::agrees(r, task_archived(replies.deep_view(), id@, body@, true)),
{
    set_task_archived(replies, id, body, true)
}

/// Restores a task.
pub fn restore_task(replies: &Vec<Reply>, id: &str, body: &Json) -> (r: Result<Response, Step>)
    ensures
        exchange::agrees(r, task_archived(replies.deep_view(), id@, body@, false)),
{
    set_task_archived(replies, id, body, false)
}

/// How the deletion of a task goes.
#[verifier::opaque]
pub open spec fn task_deleted(replies: Seq<ReplyView>, id: Seq<char>, body: JsonView) -> Result<
    ResponseView,
    StepView,
> {
    match current_task(replies, id, body) {
        Err(s) => Err(s),
        Ok((task, version, next)) => match fields::member_text(task, "id"@) {
            Err(m) => Err(StepView::Fail(m)),
            Ok(task_id) => match exchange::rows_at(
                replies,
                next,
                store::stated(TASK_ATTACHMENTS@, store::params().push(store::text_param(task_id))),
            ) {
                Err(s) => Err(s),
                Ok(found) => match store::first_texts(found) {
                    Err(m) => Err(StepView::Fail(m)),
                    Ok(attachments) => match exchange::changed_at(
                        replies,
                        next + 1,
                        store::stated(
                            DELETE_TASK@,
                            store::params().push(store::text_param(task_id)).push(
                                SqlView::Integer(version),
                            ),
                        ),
                    ) {
                        Err(s) => Err(s),
                        Ok(_) => match exchange::done_at(
                            replies,
                            next + 2,
                            ActionView::RemoveAttachments(attachments),
                        ) {
                            Err(s) => Err(s),
                            Ok(_) => Ok(ResponseView::Empty(204)),
                        },
                    },
                },
            },
        },
    }
}

/// Deletes a task with its attachments.
#[verifier::spinoff_prover]
pub fn delete_task(replies: &Vec<Reply>, id: &str, body: &Json) -> (r: Result<Response, Step>)
    ensures
        exchange::agrees(r, task_deleted(replies.deep_view(), id@, body@)),
{
    proof {
        reveal(task_deleted);
    }
    let total: usize = replies.len();
    let (task, version, next) = read_current_task(replies, id, body)?;
    let task_id = store::lift(fields::value_string(&task, "id"))?;
    let found = exchange::rows(replies, next, store::keyed(TASK_ATTACHMENTS, &task_id))?;
    let attachments = store::lift(store::read_first_texts(found))?;
    let mut values: Vec<SqlValue> = json::none();
    store::bind_text(&mut values, &task_id);
    json::put(&mut values, SqlValue::Integer(version));
    let _ = exchange::changed(replies, next + 1, store::statement(DELETE_TASK, values))?;
    exchange::done(replies, next + 2, Action::RemoveAttachments(attachments))?;
    Ok(Response::Empty(204))
}

/// A task in another version than the request expects is left as it is: the request is answered
/// with a conflict, whatever it asks for.
pub proof fn law_conflict_is_refused(
    replies: Seq<ReplyView>,
    id: Seq<char>,
    body: JsonView,
    actor: ActorView,
    archived: bool,
    task: JsonView,
    next: int,
    version: int,
)
    requires
        tasks::task_at(replies, 0, id) == Ok::<(Option<JsonView>, int), StepView>(
            (Some(task), next),
        ),
        fields::expected_version(body) == Ok::<int, Seq<char>>(version),
        json::integer_field(task, "version"@) != Some(version),
    ensures
        task_updated(replies, id, body, actor) == Err::<ResponseView, StepView>(
            StepView::Answer(task_conflict()),
        ),
        task_moved(replies, id, body) == Err::<ResponseView, StepView>(
            StepView::Answer(task_conflict()),
        ),
        task_archived(replies, id, body, archived) == Err::<ResponseView, StepView>(
            StepView::Answer(task_conflict()),
        ),
        task_deleted(replies, id, body) == Err::<ResponseView, StepView>(
            StepView::Answer(task_conflict()),
        ),
{
    reveal(task_updated);
    reveal(task_moved);
    reveal(task_archived);
    reveal(task_deleted);
}

/// Whether a handler asks for a statement that changes the store.
pub open spec fn asks_write(r: Result<ResponseView, StepView>, write: StatementView) -> bool {
    r == Err::<ResponseView, StepView>(StepView::Ask(ActionView::Write(write)))
}

/// Whether a statement is written over the version that a request expects: the task was read in
/// that version, and the statement ends with it.
pub open spec fn names_version(
    replies: Seq<ReplyView>,
    id: Seq<char>,
    body: JsonView,
    write: StatementView,
) -> bool {
    let expected = fields::expected_version(body);
    let current = current_task(replies, id, body);
    &&& expected is Ok
    &&& current is Ok
    &&& json::integer_field((current->Ok_0).0, "version"@) == Some(expected->Ok_0)
    &&& write.params.last() == SqlView::Integer(expected->Ok_0)
}

/// An update is written over the version that the request expects.
pub proof fn law_update_names_version(
    replies: Seq<ReplyView>,
    id: Seq<char>,
    body: JsonView,
    actor: ActorView,
    write: StatementView,
)
    requires
        asks_write(task_updated(replies, id, body, actor), write),
    ensures
        names_version(replies, id, body, write),
{
    reveal(task_updated);
}

/// A move is written over the version that the request expects.
pub proof fn law_move_names_version(
    replies: Seq<ReplyView>,
    id: Seq<char>,
    body: JsonView,
    write: StatementView,
)
    requires
        asks_write(task_moved(replies, id, body), write),
    ensures
        names_version(replies, id, body, write),
{
    reveal(task_moved);
}

/// A task is archived and restored in the version that the request expects.
pub proof fn law_archive_names_version(
    replies: Seq<ReplyView>,
    id: Seq<char>,
    body: JsonView,
    archived: bool,
    write: StatementView,
)
    requires
        asks_write(task_archived(replies, id, body, archived), write),
    ensures
        names_version(replies, id, body, write),
{
    reveal(task_archived);
}

/// A task is deleted in the version that the request expects.
pub proof fn law_delete_names_version(
    replies: Seq<ReplyView>,
    id: Seq<char>,
    body: JsonView,
    write: StatementView,
)
    requires
        asks_write(task_deleted(replies, id, body), write),
    ensures
        names_version(replies, id, body, write),
{
    reveal(task_deleted);
}

/// Whether there are as many values as assignments.
pub open spec fn balanced(r: Result<ChangesView, Seq<char>>) -> bool {
    r is Ok ==> (r->Ok_0).assignments.len() == (r->Ok_0).values.len()
}

proof fn lemma_outline_balanced(body: JsonView)
    ensures
        balanced(outline_changes(body)),
{
    let titled = with_required(ChangesView::none(), body, "title"@, 240, "title = ?"@);
    assert(balanced(titled));
    if titled is Ok {
        let described = with_description(titled->Ok_0, body);
        assert(balanced(described));
        if described is Ok {
            let placed = with_status(described->Ok_0, body);
            assert(balanced(placed));
            if placed is Ok {
                let weighed = with_priority(placed->Ok_0, body);
                assert(balanced(weighed));
                if weighed is Ok {
                    assert(balanced(with_labels(weighed->Ok_0, body)));
                }
            }
        }
    }
}

proof fn lemma_details_balanced(changes: ChangesView, body: JsonView, actor: ActorView)
    requires
        changes.assignments.len() == changes.values.len(),
    ensures
        balanced(details_changes(changes, body, actor)),
{
    let routed = with_workflow(changes, body);
    assert(balanced(routed));
    if routed is Ok {
        let located = with_development(routed->Ok_0, body);
        assert(balanced(located));
        if located is Ok {
            let due = with_due(located->Ok_0, body);
            assert(balanced(due));
            if due is Ok {
                let recurring = with_recurrence(due->Ok_0, body);
                assert(balanced(recurring));
                if recurring is Ok {
                    let threaded = with_thread(recurring->Ok_0, body);
                    assert(balanced(threaded));
                    if threaded is Ok {
                        assert(balanced(with_assignee(threaded->Ok_0, body, actor)));
                    }
                }
            }
        }
    }
}

/// An update assigns as many values as it has assignments.
pub proof fn law_update_assigns_each_value(body: JsonView, actor: ActorView)
    ensures
        balanced(task_changes(body, actor)),
{
    reveal(task_changes);
    lemma_outline_balanced(body);
    if outline_changes(body) is Ok {
        lemma_details_balanced(outline_changes(body)->Ok_0, body, actor);
    }
}

/// A recurring task has a due date: one without it is refused before anything is stored.
pub proof fn law_recurring_task_is_due(
    replies: Seq<ReplyView>,
    body: JsonView,
    actor: ActorView,
    write: StatementView,
)
    requires
        asks_write(task_created(replies, body, actor), write),
    ensures
        details(body, actor) is Ok,
        (details(body, actor)->Ok_0).recurrence is Some ==> (details(body, actor)->Ok_0).due_date
            is Some,
{
    reveal(task_created);
}

/// A task is stored with a status and a priority that the store admits.
pub proof fn law_new_task_has_known_status(body: JsonView)
    ensures
        outline(body) is Ok ==> fields::is_status((outline(body)->Ok_0).status)
            && fields::is_priority((outline(body)->Ok_0).priority),
{
}

/// The assignment that counts a task one version up.
pub const COUNT_UP: &'static str = "version = version + 1";

proof fn lemma_joined_holds_last_but_one(parts: Seq<Seq<char>>, separator: Seq<char>)
    requires
        parts.len() >= 2,
    ensures
        text::holds(text::joined(parts, separator), parts[parts.len() - 2]),
{
    let before = parts.drop_last();
    let whole = text::joined(parts, separator);
    let start = text::joined(before, separator);
    let part = before.last();
    assert(whole == start + separator + parts.last());
    let at = start.len() - part.len();
    assert(start.subrange(at, start.len() as int) =~= part) by {
        if before.len() > 1 {
            let first = text::joined(before.drop_last(), separator);
            assert(start == first + separator + part);
        }
    }
    assert(whole.subrange(at, at + part.len()) =~= part);
}

proof fn lemma_held_within(before: Seq<char>, s: Seq<char>, behind: Seq<char>, block: Seq<char>)
    requires
        text::holds(s, block),
    ensures
        text::holds(before + s + behind, block),
{
    let i = choose|i: int|
        0 <= i <= s.len() - block.len() && #[trigger] s.subrange(i, i + block.len()) == block;
    let whole = before + s + behind;
    let at = before.len() + i;
    assert(whole.subrange(at, at + block.len()) =~= s.subrange(i, i + block.len()));
}

proof fn lemma_update_counts_up(
    changes: ChangesView,
    task_id: Seq<char>,
    version: int,
    timestamp: Seq<char>,
)
    ensures
        text::holds(task_update(changes, task_id, version, timestamp).sql, COUNT_UP@),
{
    let parts = changes.assignments.push(COUNT_UP@).push("updated_at = ?"@);
    lemma_joined_holds_last_but_one(parts, ", "@);
    lemma_held_within(
        "UPDATE tasks SET "@,
        text::joined(parts, ", "@),
        " WHERE id = ? AND version = ?"@,
        COUNT_UP@,
    );
}

proof fn lemma_move_and_archive_count_up()
    ensures
        text::holds(MOVE_TASK@, COUNT_UP@),
        text::holds(ARCHIVE_TASK@, COUNT_UP@),
{
    reveal_strlit("version = version + 1");
    reveal_strlit(
        "UPDATE tasks SET project_id = ?1, status = ?2, sort_order = ?3, thread_id = COALESCE(?4, thread_id), version = version + 1, updated_at = ?5 WHERE id = ?6 AND version = ?7",
    );
    reveal_strlit(
        "UPDATE tasks SET archived_at = ?1, thread_id = COALESCE(?2, thread_id), version = version + 1, updated_at = ?3 WHERE id = ?4 AND version = ?5",
    );
    assert(COUNT_UP@.len() == 21);
    assert(MOVE_TASK@.subrange(101, 101int + COUNT_UP@.len()) =~= COUNT_UP@);
    assert(ARCHIVE_TASK@.subrange(72, 72int + COUNT_UP@.len()) =~= COUNT_UP@);
}

/// A task that is changed, moved, archived or restored is counted one version up by the very
/// statement that changes it.
pub proof fn law_changes_count_up(
    replies: Seq<ReplyView>,
    id: Seq<char>,
    body: JsonView,
    actor: ActorView,
    archived: bool,
    write: StatementView,
)
    requires
        asks_write(task_updated(replies, id, body, actor), write) || asks_write(
            task_moved(replies, id, body),
            write,
        ) || asks_write(task_archived(replies, id, body, archived), write),
    ensures
        text::holds(write.sql, COUNT_UP@),
{
    lemma_move_and_archive_count_up();
    if asks_write(task_updated(replies, id, body, actor), write) {
        reveal(task_updated);
        let (task, version, next) = current_task(replies, id, body)->Ok_0;
        lemma_update_counts_up(
            task_changes(body, actor)->Ok_0,
            fields::member_text(task, "id"@)->Ok_0,
            version,
            store::now_at(replies, next)->Ok_0,
        );
    } else if asks_write(task_moved(replies, id, body), write) {
        reveal(task_moved);
    } else {
        reveal(task_archived);
    }
}

} // verus!
