//! Projects: how they are listed, created, archived and deleted, and the workflows that they keep.
use crate::exchange;
use crate::exchange::{
    Action, ActionView, Reply, ReplyView, Response, ResponseView, Row, SqlValue, SqlView,
    StatementView, Step, StepView,
};
use crate::fields;
use crate::ids;
use crate::json;
use crate::json::{Json, JsonView};
use crate::rows;
use crate::rows::{Column, Kind};
use crate::store;
use crate::text;
use vstd::prelude::*;

verus! {

/// The projects that are not archived, each with the number of its tasks that are not.
pub const LIST_PROJECTS: &'static str = "
        SELECT
          projects.id,
          projects.name,
          projects.workspace_path,
          projects.archived_at,
          projects.created_at,
          projects.updated_at,
          COUNT(tasks.id) AS issue_count
        FROM projects
        LEFT JOIN tasks
          ON tasks.project_id = projects.id
          AND tasks.archived_at IS NULL
        WHERE projects.archived_at IS NULL
        GROUP BY
          projects.id,
          projects.name,
          projects.workspace_path,
          projects.archived_at,
          projects.created_at,
          projects.updated_at
        ORDER BY projects.created_at, projects.id
        ";

/// A project by its identifier, where it is not archived.
pub const ACTIVE_PROJECT: &'static str = "
                SELECT
                  projects.id,
                  projects.name,
                  projects.workspace_path,
                  projects.archived_at,
                  projects.created_at,
                  projects.updated_at,
                  COUNT(tasks.id) AS issue_count
                FROM projects
                LEFT JOIN tasks
                  ON tasks.project_id = projects.id
                  AND tasks.archived_at IS NULL
                WHERE projects.id = ?1 AND projects.archived_at IS NULL
                GROUP BY
                  projects.id,
                  projects.name,
                  projects.workspace_path,
                  projects.archived_at,
                  projects.created_at,
                  projects.updated_at
                ";

/// A project by its identifier, archived or not.
pub const ANY_PROJECT: &'static str = "
                SELECT
                  projects.id,
                  projects.name,
                  projects.workspace_path,
                  projects.archived_at,
                  projects.created_at,
                  projects.updated_at,
                  COUNT(tasks.id) AS issue_count
                FROM projects
                LEFT JOIN tasks
                  ON tasks.project_id = projects.id
                  AND tasks.archived_at IS NULL
                WHERE projects.id = ?1 
                GROUP BY
                  projects.id,
                  projects.name,
                  projects.workspace_path,
                  projects.archived_at,
                  projects.created_at,
                  projects.updated_at
                ";

pub const INSERT_PROJECT: &'static str = "INSERT OR IGNORE INTO projects (id, name, workspace_path, next_task_number, created_at, updated_at)
         VALUES (?1, ?2, ?3, 1, ?4, ?4)";

pub const ARCHIVE_PROJECT: &'static str = "UPDATE projects SET archived_at = ?1, updated_at = ?1 WHERE id = ?2 AND archived_at IS NULL";

pub const DELETE_PROJECT_TASKS: &'static str = "DELETE FROM tasks WHERE project_id = ?1";

pub const DELETE_PROJECT: &'static str = "DELETE FROM projects WHERE id = ?1";

/// The attachments of the tasks of a project.
pub const PROJECT_ATTACHMENTS: &'static str = "SELECT attachments.id FROM attachments JOIN tasks ON tasks.id = attachments.task_id WHERE tasks.project_id = ?1";

pub const PROJECT_EXISTS: &'static str = "SELECT 1 FROM projects WHERE id = ?1 AND archived_at IS NULL";

pub const WORKFLOW: &'static str = "SELECT workspace, version, updated_at FROM workflow_workspaces WHERE project_id = ?1";

pub const WORKFLOW_VERSION: &'static str = "SELECT version FROM workflow_workspaces WHERE project_id = ?1";

pub const UPDATE_WORKFLOW: &'static str = "UPDATE workflow_workspaces SET workspace = ?1, version = version + 1, updated_at = ?2 WHERE project_id = ?3";

pub const INSERT_WORKFLOW: &'static str = "INSERT INTO workflow_workspaces (project_id, workspace, version, updated_at) VALUES (?1, ?2, 1, ?3)";

/// What is shown of a project.
pub open spec fn project_plan() -> Seq<(Seq<char>, Seq<char>, Kind)> {
    seq![
        ("id"@, "id"@, Kind::Text),
        ("name"@, "name"@, Kind::Text),
        ("workspacePath"@, "workspace_path"@, Kind::OptionalText),
        ("archivedAt"@, "archived_at"@, Kind::OptionalText),
        ("issueCount"@, "issue_count"@, Kind::Integer),
        ("createdAt"@, "created_at"@, Kind::Text),
        ("updatedAt"@, "updated_at"@, Kind::Text),
    ]
}

/// The project that stands in a row.
pub open spec fn project_of_row(row: Seq<(Seq<char>, SqlView)>) -> Result<JsonView, Seq<char>> {
    rows::row_object(row, project_plan())
}

/// Reads the project that stands in a row.
pub fn project_from_row(row: &Row) -> (r: Result<Json, String>)
    ensures
        exchange::says(r, project_of_row(row@)),
{
    let columns = vec![
        rows::column("id", "id", Kind::Text),
        rows::column("name", "name", Kind::Text),
        rows::column("workspacePath", "workspace_path", Kind::OptionalText),
        rows::column("archivedAt", "archived_at", Kind::OptionalText),
        rows::column("issueCount", "issue_count", Kind::Integer),
        rows::column("createdAt", "created_at", Kind::Text),
        rows::column("updatedAt", "updated_at", Kind::Text),
    ];
    proof {
        assert(columns.deep_view() =~= project_plan());
    }
    rows::read_object(row, columns)
}

/// The projects that are not archived, the reply at `at`.
pub open spec fn projects_at(replies: Seq<ReplyView>, at: int) -> Result<Seq<JsonView>, StepView> {
    match exchange::rows_at(replies, at, store::stated(LIST_PROJECTS@, store::params())) {
        Err(s) => Err(s),
        Ok(found) => store::lifted(
            rows::each_row(found, |row: Seq<(Seq<char>, SqlView)>| project_of_row(row)),
        ),
    }
}

/// Reads the projects that are not archived.
pub fn list_projects(replies: &Vec<Reply>, at: usize) -> (r: Result<Vec<Json>, Step>)
    ensures
        exchange::agrees(r, projects_at(replies.deep_view(), at as int)),
{
    let found = exchange::rows(replies, at, store::statement(LIST_PROJECTS, json::none()))?;
    store::lift(
        rows::read_rows(
            found,
            project_from_row,
            Ghost(|row: Seq<(Seq<char>, SqlView)>| project_of_row(row)),
        ),
    )
}

/// The project with an identifier, the reply at `at`.
pub open spec fn project_at(
    replies: Seq<ReplyView>,
    at: int,
    id: Seq<char>,
    include_archived: bool,
) -> Result<Option<JsonView>, StepView> {
    let sql = if include_archived {
        ANY_PROJECT@
    } else {
        ACTIVE_PROJECT@
    };
    match exchange::rows_at(
        replies,
        at,
        store::stated(sql, store::params().push(store::text_param(id))),
    ) {
        Err(s) => Err(s),
        Ok(found) => if found.len() == 0 {
            Ok(None)
        } else {
            match project_of_row(found[0]) {
                Err(m) => Err(StepView::Fail(m)),
                Ok(project) => Ok(Some(project)),
            }
        },
    }
}

/// Reads a project.
pub fn project_by_id(replies: &Vec<Reply>, at: usize, id: &str, include_archived: bool) -> (r:
    Result<Option<Json>, Step>)
    ensures
        exchange::agrees(r, project_at(replies.deep_view(), at as int, id@, include_archived)),
{
    let sql = if include_archived {
        ANY_PROJECT
    } else {
        ACTIVE_PROJECT
    };
    let found = exchange::rows(replies, at, store::keyed(sql, id))?;
    if found.len() == 0 {
        return Ok(None);
    }
    let project = store::lift(project_from_row(&found[0]))?;
    Ok(Some(project))
}

/// Reads a project that is not archived.
pub fn get_project(replies: &Vec<Reply>, at: usize, id: &str) -> (r: Result<Option<Json>, Step>)
    ensures
        exchange::agrees(r, project_at(replies.deep_view(), at as int, id@, false)),
{
    project_by_id(replies, at, id, false)
}

/// Reads a project, archived or not.
pub fn get_project_including_archived(replies: &Vec<Reply>, at: usize, id: &str) -> (r: Result<
    Option<Json>,
    Step,
>)
    ensures
        exchange::agrees(r, project_at(replies.deep_view(), at as int, id@, true)),
{
    project_by_id(replies, at, id, true)
}

/// That there is no such project.
pub open spec fn project_not_found() -> ResponseView {
    exchange::refusal(404, "PROJECT_NOT_FOUND"@, "Project not found"@)
}

/// Answers that there is no such project.
pub fn no_project() -> (r: Response)
    ensures
        r@ == project_not_found(),
{
    exchange::api_error(404, "PROJECT_NOT_FOUND", "Project not found")
}

/// The identifier that a new project gets: the one that is asked for, or one made of its name.
pub open spec fn new_project_id(asked: Option<Seq<char>>, name: Seq<char>) -> Seq<char> {
    match asked {
        Some(id) => if id.len() > 0 {
            id
        } else {
            ids::slug(name)
        },
        None => ids::slug(name),
    }
}

/// The statement that adds a project.
pub open spec fn project_insert(
    id: Seq<char>,
    name: Seq<char>,
    workspace_path: Option<Seq<char>>,
    timestamp: Seq<char>,
) -> StatementView {
    store::stated(
        INSERT_PROJECT@,
        store::params().push(store::text_param(id)).push(store::text_param(name)).push(
            store::optional_param(workspace_path),
        ).push(store::text_param(timestamp)),
    )
}

/// How the creation of a project goes.
pub open spec fn project_created(replies: Seq<ReplyView>, body: JsonView) -> Result<
    ResponseView,
    StepView,
> {
    match fields::required_text(body, "name"@, 120) {
        Err(m) => Err(StepView::Fail(m)),
        Ok(name) => match fields::text_of(body, "id"@, 64) {
            Err(m) => Err(StepView::Fail(m)),
            Ok(asked) => {
                let id = new_project_id(asked, name);
                if !ids::project_id_form(id) {
                    Ok(
                        exchange::refusal(
                            400,
                            "INVALID_FIELD"@,
                            "Project id must be a lowercase slug"@,
                        ),
                    )
                } else {
                    match fields::text_of(body, "workspacePath"@, 4096) {
                        Err(m) => Err(StepView::Fail(m)),
                        Ok(workspace_path) => match store::now_at(replies, 0) {
                            Err(s) => Err(s),
                            Ok(timestamp) => match exchange::changed_at(
                                replies,
                                1,
                                project_insert(id, name, workspace_path, timestamp),
                            ) {
                                Err(s) => Err(s),
                                Ok(inserted) => if inserted != 1 {
                                    Ok(
                                        exchange::refusal(
                                            409,
                                            "PROJECT_EXISTS"@,
                                            "Project already exists"@,
                                        ),
                                    )
                                } else {
                                    match project_at(replies, 2, id, false) {
                                        Err(s) => Err(s),
                                        Ok(None) => Err(StepView::Fail("created project"@)),
                                        Ok(Some(project)) => Ok(
                                            ResponseView::Json(
                                                201,
                                                JsonView::Object(
                                                    json::members().push(("project"@, project)),
                                                ),
                                            ),
                                        ),
                                    }
                                },
                            },
                        },
                    }
                }
            },
        },
    }
}

/// Creates a project.
pub fn create_project(replies: &Vec<Reply>, body: &Json) -> (r: Result<Response, Step>)
    ensures
        exchange::agrees(r, project_created(replies.deep_view(), body@)),
{
    let name = store::lift(fields::required_string(body, "name", 120))?;
    let asked = store::lift(fields::string_value(body, "id", 64))?;
    let id = match asked {
        Some(id) => if !id.as_str().is_empty() {
            id
        } else {
            ids::slugify(&name)
        },
        None => ids::slugify(&name),
    };
    if !ids::is_project_id(&id) {
        return Ok(
            exchange::api_error(400, "INVALID_FIELD", "Project id must be a lowercase slug"),
        );
    }
    let workspace_path = store::lift(fields::string_value(body, "workspacePath", 4096))?;
    let timestamp = store::db_now(replies, 0)?;
    let mut values: Vec<SqlValue> = json::none();
    store::bind_text(&mut values, &id);
    store::bind_text(&mut values, &name);
    json::put(&mut values, store::sql_optional(workspace_path));
    store::bind_text(&mut values, &timestamp);
    let inserted: u64 = exchange::changed(replies, 1, store::statement(INSERT_PROJECT, values))?;
    if inserted != 1 {
        return Ok(exchange::api_error(409, "PROJECT_EXISTS", "Project already exists"));
    }
    match get_project(replies, 2, &id)? {
        Some(project) => Ok(Response::Json(201, json::single("project", project))),
        None => Err(Step::Fail("created project".to_owned())),
    }
}

/// That the default project stays.
pub open spec fn default_protected() -> ResponseView {
    exchange::refusal(
        409,
        "DEFAULT_PROJECT_PROTECTED"@,
        "The default project cannot be archived or deleted"@,
    )
}

fn protect_default() -> (r: Response)
    ensures
        r@ == default_protected(),
{
    exchange::api_error(
        409,
        "DEFAULT_PROJECT_PROTECTED",
        "The default project cannot be archived or deleted",
    )
}

/// How the archiving of a project goes.
pub open spec fn project_archived(replies: Seq<ReplyView>, project_id: Seq<char>) -> Result<
    ResponseView,
    StepView,
> {
    if project_id == fields::DEFAULT_PROJECT_ID@ {
        Ok(default_protected())
    } else {
        match project_at(replies, 0, project_id, false) {
            Err(s) => Err(s),
            Ok(None) => Ok(project_not_found()),
            Ok(Some(_)) => match store::now_at(replies, 1) {
                Err(s) => Err(s),
                Ok(timestamp) => match exchange::changed_at(
                    replies,
                    2,
                    store::stated(
                        ARCHIVE_PROJECT@,
                        store::params().push(store::text_param(timestamp)).push(
                            store::text_param(project_id),
                        ),
                    ),
                ) {
                    Err(s) => Err(s),
                    Ok(_) => match project_at(replies, 3, project_id, true) {
                        Err(s) => Err(s),
                        Ok(project) => Ok(
                            ResponseView::Json(
                                200,
                                JsonView::Object(
                                    json::members().push(("project"@, json::or_null(project))),
                                ),
                            ),
                        ),
                    },
                },
            },
        }
    }
}

/// Archives a project.
pub fn archive_project(replies: &Vec<Reply>, project_id: &str) -> (r: Result<Response, Step>)
    ensures
        exchange::agrees(r, project_archived(replies.deep_view(), project_id@)),
{
    if text::same(project_id, fields::DEFAULT_PROJECT_ID) {
        return Ok(protect_default());
    }
    if get_project(replies, 0, project_id)?.is_none() {
        return Ok(no_project());
    }
    let timestamp = store::db_now(replies, 1)?;
    let mut values: Vec<SqlValue> = json::none();
    store::bind_text(&mut values, &timestamp);
    store::bind_text(&mut values, project_id);
    let _ = exchange::changed(replies, 2, store::statement(ARCHIVE_PROJECT, values))?;
    let project = get_project_including_archived(replies, 3, project_id)?;
    Ok(Response::Json(200, json::single("project", json::null_if_none(project))))
}

/// How the deletion of a project goes. Its tasks go with it, and then the contents of their
/// attachments.
pub open spec fn project_deleted(replies: Seq<ReplyView>, project_id: Seq<char>) -> Result<
    ResponseView,
    StepView,
> {
    let key = store::params().push(store::text_param(project_id));
    if project_id == fields::DEFAULT_PROJECT_ID@ {
        Ok(default_protected())
    } else {
        match project_at(replies, 0, project_id, false) {
            Err(s) => Err(s),
            Ok(None) => Ok(project_not_found()),
            Ok(Some(_)) => match exchange::rows_at(
                replies,
                1,
                store::stated(PROJECT_ATTACHMENTS@, key),
            ) {
                Err(s) => Err(s),
                Ok(found) => match store::first_texts(found) {
                    Err(m) => Err(StepView::Fail(m)),
                    Ok(attachments) => match exchange::changed_at(
                        replies,
                        2,
                        store::stated(DELETE_PROJECT_TASKS@, key),
                    ) {
                        Err(s) => Err(s),
                        Ok(_) => match exchange::changed_at(
                            replies,
                            3,
                            store::stated(DELETE_PROJECT@, key),
                        ) {
                            Err(s) => Err(s),
                            Ok(_) => match exchange::done_at(
                                replies,
                                4,
                                ActionView::RemoveAttachments(attachments),
                            ) {
                                Err(s) => Err(s),
                                Ok(_) => Ok(ResponseView::Empty(204)),
                            },
                        },
                    },
                },
            },
        }
    }
}

/// Deletes a project with its tasks and their attachments.
pub fn delete_project(replies: &Vec<Reply>, project_id: &str) -> (r: Result<Response, Step>)
    ensures
        exchange::agrees(r, project_deleted(replies.deep_view(), project_id@)),
{
    if text::same(project_id, fields::DEFAULT_PROJECT_ID) {
        return Ok(protect_default());
    }
    if get_project(replies, 0, project_id)?.is_none() {
        return Ok(no_project());
    }
    let found = exchange::rows(replies, 1, store::keyed(PROJECT_ATTACHMENTS, project_id))?;
    let attachments = store::lift(store::read_first_texts(found))?;
    let _ = exchange::changed(replies, 2, store::keyed(DELETE_PROJECT_TASKS, project_id))?;
    let _ = exchange::changed(replies, 3, store::keyed(DELETE_PROJECT, project_id))?;
    exchange::done(replies, 4, Action::RemoveAttachments(attachments))?;
    Ok(Response::Empty(204))
}

/// The default project is neither archived nor deleted, whatever the store holds.
pub proof fn law_default_project_stays(replies: Seq<ReplyView>)
    ensures
        project_archived(replies, fields::DEFAULT_PROJECT_ID@) == Ok::<ResponseView, StepView>(
            default_protected(),
        ),
        project_deleted(replies, fields::DEFAULT_PROJECT_ID@) == Ok::<ResponseView, StepView>(
            default_protected(),
        ),
{
}

/// The columns of a stored workflow.
pub open spec fn workflow_plan() -> Seq<(Seq<char>, Seq<char>, Kind)> {
    seq![
        ("workspace"@, "workspace"@, Kind::Text),
        ("version"@, "version"@, Kind::Integer),
        ("updatedAt"@, "updated_at"@, Kind::OptionalText),
    ]
}

fn workflow_columns() -> (r: Vec<Column>)
    ensures
        r.deep_view() == workflow_plan(),
{
    let r = vec![
        rows::column("workspace", "workspace", Kind::Text),
        rows::column("version", "version", Kind::Integer),
        rows::column("updatedAt", "updated_at", Kind::OptionalText),
    ];
    proof {
        assert(r.deep_view() =~= workflow_plan());
    }
    r
}

/// A workflow as it is shown.
pub open spec fn shown_workflow(
    project_id: Seq<char>,
    workspace: JsonView,
    version: JsonView,
    updated_at: JsonView,
) -> JsonView {
    JsonView::Object(
        json::members().push(("projectId"@, JsonView::Text(project_id))).push(
            ("workspace"@, workspace),
        ).push(("version"@, version)).push(("updatedAt"@, updated_at)),
    )
}

fn show_workflow(project_id: &str, workspace: Json, version: Json, updated_at: Json) -> (r: Json)
    ensures
        r@ == shown_workflow(project_id@, workspace@, version@, updated_at@),
{
    let mut members = json::no_members();
    json::member(&mut members, "projectId", json::text_value(project_id));
    json::member(&mut members, "workspace", workspace);
    json::member(&mut members, "version", version);
    json::member(&mut members, "updatedAt", updated_at);
    json::object(members)
}

/// The workflow of a project, where there is such a project; the replies start at `at`.
pub open spec fn workflow_at(replies: Seq<ReplyView>, at: int, project_id: Seq<char>) -> Result<
    Option<JsonView>,
    StepView,
> {
    let key = store::params().push(store::text_param(project_id));
    match exchange::rows_at(replies, at, store::stated(PROJECT_EXISTS@, key)) {
        Err(s) => Err(s),
        Ok(found) => match store::single_integer(found) {
            Err(m) => Err(StepView::Fail(m)),
            Ok(None) => Ok(None),
            Ok(Some(_)) => match exchange::rows_at(replies, at + 1, store::stated(WORKFLOW@, key)) {
                Err(s) => Err(s),
                Ok(stored) => if stored.len() == 0 {
                    Ok(
                        Some(
                            shown_workflow(
                                project_id,
                                JsonView::Null,
                                JsonView::Integer(0),
                                JsonView::Null,
                            ),
                        ),
                    )
                } else {
                    match rows::planned(stored[0], workflow_plan()) {
                        Err(m) => Err(StepView::Fail(m)),
                        Ok(members) => Ok(
                            Some(
                                shown_workflow(
                                    project_id,
                                    json::stored_value(
                                        crate::tasks::text_or_empty(members[0].1),
                                        JsonView::Null,
                                    ),
                                    members[1].1,
                                    members[2].1,
                                ),
                            ),
                        ),
                    }
                },
            },
        },
    }
}

/// Reads the workflow of a project.
pub fn get_workflow_workspace(replies: &Vec<Reply>, at: usize, project_id: &str) -> (r: Result<
    Option<Json>,
    Step,
>)
    ensures
        exchange::agrees(r, workflow_at(replies.deep_view(), at as int, project_id@)),
{
    let total: usize = replies.len();
    let found = exchange::rows(replies, at, store::keyed(PROJECT_EXISTS, project_id))?;
    if store::lift(store::read_single_integer(found))?.is_none() {
        return Ok(None);
    }
    let stored = exchange::rows(replies, at + 1, store::keyed(WORKFLOW, project_id))?;
    if stored.len() == 0 {
        return Ok(Some(show_workflow(project_id, Json::Null, Json::Integer(0), Json::Null)));
    }
    let members = store::lift(rows::read_columns(&stored[0], workflow_columns()))?;
    proof {
        rows::lemma_planned_len(stored@[0]@, workflow_plan());
    }
    let workspace = match &members[0].1 {
        Json::Text(raw) => json::stored(raw, Json::Null),
        _ => json::stored(&String::new(), Json::Null),
    };
    Ok(Some(show_workflow(project_id, workspace, members[1].1.copy(), members[2].1.copy())))
}

/// The statement that stores a workflow: anew, or in place of the one that is there.
pub open spec fn workflow_write(
    project_id: Seq<char>,
    workspace: JsonView,
    stored: bool,
    timestamp: Seq<char>,
) -> StatementView {
    let raw = store::text_param(json::json_text(workspace));
    if stored {
        store::stated(
            UPDATE_WORKFLOW@,
            store::params().push(raw).push(store::text_param(timestamp)).push(
                store::text_param(project_id),
            ),
        )
    } else {
        store::stated(
            INSERT_WORKFLOW@,
            store::params().push(store::text_param(project_id)).push(raw).push(
                store::text_param(timestamp),
            ),
        )
    }
}

/// How the saving of a workflow goes.
pub open spec fn workflow_saved(
    replies: Seq<ReplyView>,
    project_id: Seq<char>,
    body: JsonView,
) -> Result<ResponseView, StepView> {
    let key = store::params().push(store::text_param(project_id));
    match project_at(replies, 0, project_id, false) {
        Err(s) => Err(s),
        Ok(None) => Ok(project_not_found()),
        Ok(Some(_)) => match fields::expected_version(body) {
            Err(m) => Err(StepView::Fail(m)),
            Ok(expected) => match exchange::rows_at(
                replies,
                1,
                store::stated(WORKFLOW_VERSION@, key),
            ) {
                Err(s) => Err(s),
                Ok(found) => match store::single_integer(found) {
                    Err(m) => Err(StepView::Fail(m)),
                    Ok(current) => {
                        let actual = match current {
                            Some(v) => v,
                            None => 0,
                        };
                        if actual != expected {
                            Ok(
                                exchange::refusal(
                                    409,
                                    "VERSION_CONFLICT"@,
                                    "Workflow was changed by another client"@,
                                ),
                            )
                        } else {
                            match store::now_at(replies, 2) {
                                Err(s) => Err(s),
                                Ok(timestamp) => match exchange::changed_at(
                                    replies,
                                    3,
                                    workflow_write(
                                        project_id,
                                        json::or_null(json::field(body, "workspace"@)),
                                        current is Some,
                                        timestamp,
                                    ),
                                ) {
                                    Err(s) => Err(s),
                                    Ok(_) => match workflow_at(replies, 4, project_id) {
                                        Err(s) => Err(s),
                                        Ok(workflow) => Ok(
                                            ResponseView::Json(
                                                200,
                                                JsonView::Object(
                                                    json::members().push(
                                                        ("workflow"@, json::or_null(workflow)),
                                                    ),
                                                ),
                                            ),
                                        ),
                                    },
                                },
                            }
                        }
                    },
                },
            },
        },
    }
}

/// Saves a workflow. Where the text of a workspace is stored that holds no reals, the workspace is
/// read back from it.
pub fn save_workflow_workspace(replies: &Vec<Reply>, project_id: &str, body: &Json) -> (r: Result<
    Response,
    Step,
>)
    ensures
        exchange::agrees(r, workflow_saved(replies.deep_view(), project_id@, body@)),
        ({
            let workspace = json::or_null(json::field(body@, "workspace"@));
            (r is Err && r->Err_0 is Ask && (r->Err_0)->Ask_0 is Write && json::document_shape(
                workspace,
                json::DEEPEST as nat,
            ) && json::real_free(workspace)) ==> json::stored_value(
                json::json_text(workspace),
                JsonView::Null,
            ) == workspace
        }),
{
    if get_project(replies, 0, project_id)?.is_none() {
        return Ok(no_project());
    }
    let expected: i64 = store::lift(fields::read_version(body))?;
    let found = exchange::rows(replies, 1, store::keyed(WORKFLOW_VERSION, project_id))?;
    let current: Option<i64> = store::lift(store::read_single_integer(found))?;
    let actual: i64 = match current {
        Some(v) => v,
        None => 0,
    };
    if actual != expected {
        return Ok(
            exchange::api_error(
                409,
                "VERSION_CONFLICT",
                "Workflow was changed by another client",
            ),
        );
    }
    let timestamp = store::db_now(replies, 2)?;
    let raw = match body.get("workspace") {
        Some(workspace) => json::written(workspace),
        None => json::written(&Json::Null),
    };
    let mut values: Vec<SqlValue> = json::none();
    let write = if current.is_some() {
        store::bind_text(&mut values, &raw);
        store::bind_text(&mut values, &timestamp);
        store::bind_text(&mut values, project_id);
        store::statement(UPDATE_WORKFLOW, values)
    } else {
        store::bind_text(&mut values, project_id);
        store::bind_text(&mut values, &raw);
        store::bind_text(&mut values, &timestamp);
        store::statement(INSERT_WORKFLOW, values)
    };
    let _ = exchange::changed(replies, 3, write)?;
    let workflow = get_workflow_workspace(replies, 4, project_id)?;
    Ok(Response::Json(200, json::single("workflow", json::null_if_none(workflow))))
}

/// A workflow is stored only over the version that the request expects: where the handler asks to
/// write, the stored version is the expected one.
pub proof fn law_workflow_write_needs_version(
    replies: Seq<ReplyView>,
    project_id: Seq<char>,
    body: JsonView,
    write: StatementView,
)
    requires
        workflow_saved(replies, project_id, body) == Err::<ResponseView, StepView>(
            StepView::Ask(ActionView::Write(write)),
        ),
    ensures
        fields::expected_version(body) is Ok,
        ({
            let key = store::params().push(store::text_param(project_id));
            let found = exchange::rows_at(replies, 1, store::stated(WORKFLOW_VERSION@, key));
            found is Ok && store::single_integer(found->Ok_0) == Ok::<Option<int>, Seq<char>>(
                Some(fields::expected_version(body)->Ok_0),
            )
        }),
{
}

} // verus!
