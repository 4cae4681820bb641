use rusqlite::types::{Value as StoreValue, ValueRef};
use rusqlite::Connection;
use serde_json::Value;
use std::cell::RefCell;
use taskboard::ai_runs::{
    create_ai_chat_run, insert_ai_chat_event, list_ai_chat_events, update_ai_chat_run, Event,
};
use taskboard::ai_threads::{create_ai_chat_thread, get_ai_chat_thread};
use taskboard::codex::{
    decide_outcome, finish_codex_turn, take_line, Closing, ClosingStep, Exit, LineStep, TurnState,
};
use taskboard::comments::{create_comment, list_comments};
use taskboard::exchange::{Action, Reply, Response, Row, Settings, SqlValue, Statement, Step};
use taskboard::fields::{Actor, DEFAULT_PROJECT_ID};
use taskboard::ids::own_reply;
use taskboard::json::{document, written, Json};
use taskboard::projects::list_projects;
use taskboard::request::{query_map, HttpRequest, RequestReader};
use taskboard::responses::{
    ai_event_stream_cursor, deliver, stream_messages, AiEventStreamCursor, Delivery, EVENT_MESSAGE,
    KEEP_ALIVE, RUN_MESSAGE,
};
use taskboard::routes::{routable, route, Route};
use taskboard::schema::{seed_statement, SCHEMA};
use taskboard::service::serve;
use taskboard::store::db_now;
use taskboard::task_edits::{create_task, update_task};
use taskboard::tasks::list_tasks;

const WORKSPACE: &str = "/tmp/workspace";
const SKILL: &str = "/opt/skill.md";

/// A store in memory, with what was done besides.
struct World {
    connection: Connection,
    files: RefCell<Vec<(String, Vec<u8>)>>,
    turns: RefCell<Vec<(Vec<String>, String)>>,
    stopped: RefCell<Vec<String>>,
    codex_starts: bool,
}

fn to_store(value: &SqlValue) -> StoreValue {
    match value {
        SqlValue::Null => StoreValue::Null,
        SqlValue::Integer(i) => StoreValue::Integer(*i),
        SqlValue::Real(s) => StoreValue::Real(s.parse::<f64>().unwrap()),
        SqlValue::Text(s) => StoreValue::Text(s.clone()),
        SqlValue::Blob(b) => StoreValue::Blob(b.clone()),
        SqlValue::Garbled(m) | SqlValue::Lost(m) => panic!("{}", m),
    }
}

fn from_store(row: &rusqlite::Row, index: usize) -> SqlValue {
    match row.get_ref(index).unwrap() {
        ValueRef::Null => SqlValue::Null,
        ValueRef::Integer(i) => SqlValue::Integer(i),
        ValueRef::Real(x) => SqlValue::Real(format!("{:?}", x)),
        ValueRef::Text(_) => match row.get(index) {
            Ok(text) => SqlValue::Text(text),
            Err(error) => SqlValue::Garbled(error.to_string()),
        },
        ValueRef::Blob(b) => SqlValue::Blob(b.to_vec()),
    }
}

fn values(statement: &Statement) -> Vec<StoreValue> {
    statement.params.iter().map(to_store).collect()
}

fn read_rows(
    connection: &Connection,
    statement: &Statement,
    found: &mut Vec<Row>,
) -> Result<(), rusqlite::Error> {
    let mut prepared = connection.prepare(&statement.sql)?;
    let names: Vec<String> = prepared.column_names().iter().map(|n| n.to_string()).collect();
    let mut rows = prepared.query(rusqlite::params_from_iter(values(statement)))?;
    while let Some(row) = rows.next()? {
        let mut cells = Vec::new();
        for (i, name) in names.iter().enumerate() {
            cells.push((name.clone(), from_store(row, i)));
        }
        found.push(Row { cells });
    }
    Ok(())
}

fn read(connection: &Connection, statement: &Statement) -> Vec<Row> {
    let mut found = Vec::new();
    if let Err(error) = read_rows(connection, statement, &mut found) {
        found.push(Row { cells: vec![(String::new(), SqlValue::Lost(error.to_string()))] });
    }
    found
}

fn write(connection: &Connection, statement: &Statement) -> Result<u64, rusqlite::Error> {
    connection
        .execute(&statement.sql, rusqlite::params_from_iter(values(statement)))
        .map(|n| n as u64)
}

impl World {
    fn new() -> World {
        let connection = Connection::open_in_memory().unwrap();
        connection.execute_batch("PRAGMA foreign_keys = ON").unwrap();
        connection.execute_batch(SCHEMA).unwrap();
        write(&connection, &seed_statement()).unwrap();
        World {
            connection,
            files: RefCell::new(Vec::new()),
            turns: RefCell::new(Vec::new()),
            stopped: RefCell::new(Vec::new()),
            codex_starts: true,
        }
    }

    fn perform(&self, action: &Action) -> Reply {
        if let Some(reply) = own_reply(action) {
            return reply;
        }
        match action {
            Action::Read(statements) => {
                Reply::Tables(statements.iter().map(|s| read(&self.connection, s)).collect())
            }
            Action::Write(statement) => match write(&self.connection, statement) {
                Ok(n) => Reply::Changed(n),
                Err(error) => Reply::Failed(error.to_string()),
            },
            Action::Batch(sql) => match self.connection.execute_batch(sql) {
                Ok(()) => Reply::Done,
                Err(error) => Reply::Failed(error.to_string()),
            },
            Action::NextSortOrder(statement) => {
                let greatest: f64 = self
                    .connection
                    .query_row(
                        &statement.sql,
                        rusqlite::params_from_iter(values(statement)),
                        |row| row.get(0),
                    )
                    .unwrap();
                Reply::Text(format!("{:?}", greatest + 1000.0))
            }
            Action::IsDirectory(path) => Reply::Flag(path == WORKSPACE),
            Action::ReadSettings => Reply::Settings(Settings {
                model: None,
                effort: None,
                config: Some("model = \"gpt-5\"\n".to_string()),
            }),
            Action::ReadAttachment(id) => {
                match self.files.borrow().iter().find(|(name, _)| name == id) {
                    Some((_, bytes)) => Reply::Bytes(bytes.clone()),
                    None => Reply::Failed("no such file".to_string()),
                }
            }
            Action::StoreAttachment(id, bytes) => {
                self.files.borrow_mut().push((id.clone(), bytes.clone()));
                Reply::Done
            }
            Action::RemoveAttachments(ids) => {
                self.files.borrow_mut().retain(|(name, _)| !ids.contains(name));
                Reply::Done
            }
            Action::StoreTurnFiles(name, files) => {
                let directory = format!("/tmp/{}", name);
                let mut paths = Vec::new();
                for (file, bytes) in files {
                    let path = format!("{}/{}", directory, file);
                    self.files.borrow_mut().push((path.clone(), bytes.clone()));
                    paths.push(path);
                }
                Reply::Stored(directory, paths)
            }
            Action::RemoveTurnFiles(directory) => {
                self.files.borrow_mut().retain(|(name, _)| !name.starts_with(directory.as_str()));
                Reply::Done
            }
            Action::StartCodex(start) => {
                if self.codex_starts {
                    self.turns.borrow_mut().push((start.args.clone(), start.prompt.clone()));
                    Reply::Done
                } else {
                    Reply::Failed("codex is missing".to_string())
                }
            }
            Action::StopRun(id) => {
                self.stopped.borrow_mut().push(id.clone());
                Reply::Done
            }
            Action::IsPageFile(names) => {
                Reply::Flag(names.len() == 1 && names[0] == "index.html")
            }
            Action::ReadPageFile(_) => Reply::Bytes(b"<html></html>".to_vec()),
            Action::NewId => unreachable!(),
        }
    }

    /// Drives a handler to its end.
    fn drive<T, F: Fn(&Vec<Reply>) -> Result<T, Step>>(&self, handler: F) -> Result<T, Step> {
        let mut replies: Vec<Reply> = Vec::new();
        loop {
            match handler(&replies) {
                Err(Step::Ask(action)) => replies.push(self.perform(&action)),
                other => return other,
            }
        }
    }

    fn done<T, F: Fn(&Vec<Reply>) -> Result<T, Step>>(&self, handler: F) -> T {
        match self.drive(handler) {
            Ok(value) => value,
            Err(Step::Fail(message)) => panic!("failed: {}", message),
            Err(_) => panic!("refused"),
        }
    }

    /// Sends a request, and tells the status and the document of the answer.
    fn send(&self, method: &str, target: &str, body: &str) -> (u16, Value) {
        let (status, bytes) = self.exchange(method, target, "application/json", body.as_bytes());
        (status, serde_json::from_slice(&bytes).unwrap_or(Value::Null))
    }

    fn exchange(&self, method: &str, target: &str, kind: &str, body: &[u8]) -> (u16, Vec<u8>) {
        let request = parse(method, target, kind, body);
        match self.respond(&request) {
            Delivery::Bytes(bytes) => split_answer(&bytes),
            _ => panic!("a stream"),
        }
    }

    fn respond(&self, request: &HttpRequest) -> Delivery {
        assert!(routable(&request.path));
        let response = match route(request, SKILL) {
            Err(message) => Err(message),
            Ok(Route::Answer(response)) => Ok(response),
            Ok(Route::Page) => panic!("a page"),
            Ok(Route::Store(call)) => {
                let mut replies: Vec<Reply> = Vec::new();
                loop {
                    match serve(&replies, &call, request, SKILL) {
                        Step::Ask(action) => replies.push(self.perform(&action)),
                        Step::Answer(response) => break Ok(response),
                        Step::Fail(message) => break Err(message),
                    }
                }
            }
        };
        match response {
            Ok(response) => deliver(&response, &request.method),
            Err(message) => taskboard::responses::deliver_failure(&message),
        }
    }
}

fn parse(method: &str, target: &str, kind: &str, body: &[u8]) -> HttpRequest {
    let head = format!(
        "{} {} HTTP/1.1\r\nHost: x\r\nContent-Type: {}\r\nX-Taskboard-Filename: note%2Etxt\r\nContent-Length: {}\r\n\r\n",
        method,
        target,
        kind,
        body.len()
    );
    let mut reader = RequestReader::new();
    assert!(matches!(reader.receive(&head.as_bytes()[..20]), Ok(None)));
    let mut rest = head.as_bytes()[20..].to_vec();
    rest.extend_from_slice(body);
    match reader.receive(&rest) {
        Ok(Some(request)) => request,
        Ok(None) => panic!("more was expected"),
        Err(message) => panic!("refused: {}", message),
    }
}

fn split_answer(bytes: &[u8]) -> (u16, Vec<u8>) {
    let end = bytes.windows(4).position(|w| w == b"\r\n\r\n").unwrap();
    let head = String::from_utf8(bytes[..end].to_vec()).unwrap();
    let status = head.split(' ').nth(1).unwrap().parse().unwrap();
    (status, bytes[end + 4..].to_vec())
}

fn json(text: &str) -> Json {
    document(text.as_bytes()).unwrap()
}

fn value(json: &Json) -> Value {
    serde_json::from_str(&written(json)).unwrap()
}

fn response_value(response: Response) -> Value {
    match response {
        Response::Json(_, json) => value(&json),
        _ => panic!("expected json response"),
    }
}

fn agent() -> Actor {
    Actor {
        kind: "agent",
        id: "codex-agent",
        name: "Codex Agent",
        avatar_url: None,
    }
}

#[test]
fn database_seed_and_task_listing_match_frontend_shape() {
    let world = World::new();
    let projects: Vec<Value> =
        world.done(|replies| list_projects(replies, 0)).iter().map(value).collect();
    assert_eq!(projects[0]["id"], DEFAULT_PROJECT_ID);
    assert_eq!(projects[0]["issueCount"], 0);

    world
        .connection
        .execute(
            r#"
            INSERT INTO tasks (
              id, identifier, project_id, title, description, status, priority, labels,
              sort_order, thread_id, creator_type, creator_id, creator_name, creator_avatar_url,
              assignee_type, assignee_id, assignee_name, assignee_avatar_url,
              workflow_id, git_branch, worktree_path, worktree_branch,
              due_date, recurrence_interval, recurrence_unit,
              archived_at, version, created_at, updated_at
            ) VALUES (
              'task-1', 'LOCAL-1', 'local', 'First', '', 'todo', 'medium', '[]',
              1000, NULL, 'agent', 'codex-agent', 'Codex Agent', NULL,
              'agent', 'codex-agent', 'Codex Agent', NULL,
              NULL, NULL, NULL, NULL,
              NULL, NULL, NULL,
              NULL, 1, '2026-01-01T00:00:00.000Z', '2026-01-01T00:00:00.000Z'
            )
            "#,
            [],
        )
        .unwrap();

    let query = query_map("projectId=local&archived=false").unwrap();
    let tasks: Vec<Value> =
        world.done(|replies| list_tasks(replies, 0, &query)).iter().map(value).collect();
    assert_eq!(tasks[0]["identifier"], "LOCAL-1");
    assert_eq!(tasks[0]["relations"]["parent"], Value::Null);
    assert_eq!(tasks[0]["relations"]["subIssues"], Value::Array(Vec::new()));
}

#[test]
fn task_crud_roundtrip_updates_version_and_comments() {
    let world = World::new();
    let actor = agent();

    let body = json("{ \"projectId\": \"local\", \"title\": \"Migrate service\", \"status\": \"todo\" }");
    let created = response_value(world.done(|replies| create_task(replies, &body, &actor)));
    let task = created["task"].clone();
    assert_eq!(task["identifier"], "LOCAL-1");
    assert_eq!(task["version"], 1);

    let id = task["id"].as_str().unwrap();
    let body = json("{ \"version\": 1, \"title\": \"Embedded service\" }");
    let updated = response_value(world.done(|replies| update_task(replies, id, &body, &actor)));
    assert_eq!(updated["task"]["title"], "Embedded service");
    assert_eq!(updated["task"]["version"], 2);

    let body = json("{ \"body\": \"done\" }");
    let comment = response_value(world.done(|replies| create_comment(replies, id, &body, &actor)));
    assert_eq!(comment["comment"]["body"], "done");
    assert_eq!(world.done(|replies| list_comments(replies, 0, id)).len(), 1);
}

#[test]
fn ai_chat_roundtrip_matches_frontend_shape() {
    let world = World::new();
    world
        .connection
        .execute(
            "UPDATE projects SET workspace_path = ?1 WHERE id = ?2",
            rusqlite::params_from_iter([WORKSPACE, DEFAULT_PROJECT_ID]),
        )
        .unwrap();

    let body = json(
        "{ \"projectId\": \"local\", \"title\": \"AI chat\", \"model\": \"gpt-5\", \"reasoningEffort\": \"medium\", \"sandbox\": \"workspace-write\" }",
    );
    let created = response_value(world.done(|replies| create_ai_chat_thread(replies, &body)));
    let thread = created["thread"].clone();
    assert_eq!(thread["status"], "idle");
    assert_eq!(thread["origin"]["workspacePath"].as_str(), Some(WORKSPACE));
    assert!(thread["currentRun"].is_null());

    let thread_id = thread["id"].as_str().unwrap();
    let run = value(&world.done(|replies| create_ai_chat_run(replies, 0, thread_id)).0);
    let run_id = run["id"].as_str().unwrap();
    let event = Event {
        kind: "agent_message".to_string(),
        role: "assistant".to_string(),
        content: "done".to_string(),
        data: None,
    };
    world.done(|replies| insert_ai_chat_event(replies, 0, thread_id, Some(run_id), &event));
    let finished_at = world.done(|replies| db_now(replies, 0));
    let finished = world.done(|replies| {
        update_ai_chat_run(
            replies,
            0,
            run_id,
            "completed",
            Some(0),
            None,
            Some(finished_at.as_str()),
        )
    });
    assert_eq!(value(&finished.0)["status"], "completed");

    let snapshot_thread =
        value(&world.done(|replies| get_ai_chat_thread(replies, 0, thread_id)).0.unwrap());
    assert_eq!(snapshot_thread["status"], "idle");
    let events = world.done(|replies| list_ai_chat_events(replies, 0, thread_id));
    assert_eq!(value(&events[0])["role"], "assistant");
}

fn text(value: &Value) -> String {
    value.as_str().unwrap().to_string()
}

/// A project with a workspace, and a task in it.
fn with_task(world: &World, title: &str) -> Value {
    let body = format!("{{\"title\":\"{}\"}}", title);
    let (status, created) = world.send("POST", "/api/tasks", &body);
    assert_eq!(status, 201);
    created["task"].clone()
}

#[test]
fn projects_are_created_archived_and_deleted() {
    let world = World::new();
    let (status, created) = world.send(
        "POST",
        "/api/projects",
        "{\"name\":\"My App!\",\"workspacePath\":\"/tmp/workspace\"}",
    );
    assert_eq!(status, 201);
    assert_eq!(created["project"]["id"], "my-app");
    assert_eq!(created["project"]["name"], "My App!");
    assert_eq!(created["project"]["workspacePath"], "/tmp/workspace");
    assert_eq!(created["project"]["archivedAt"], Value::Null);

    let (status, task) = world.send(
        "POST",
        "/api/tasks",
        "{\"projectId\":\"my-app\",\"title\":\"T\"}",
    );
    assert_eq!(status, 201);
    assert_eq!(task["task"]["identifier"], "MYAPP-1");
    let (_, listed) = world.send("GET", "/api/projects", "");
    let found = listed["projects"].as_array().unwrap();
    assert_eq!(found.len(), 2);
    let counts: Vec<&Value> = found
        .iter()
        .filter(|p| p["id"] == "my-app")
        .map(|p| &p["issueCount"])
        .collect();
    assert_eq!(counts, vec![1]);

    let (status, archived) = world.send("POST", "/api/projects/my-app/archive", "");
    assert_eq!(status, 200);
    assert!(archived["project"]["archivedAt"].is_string());
    let (_, listed) = world.send("GET", "/api/projects", "");
    assert_eq!(listed["projects"].as_array().unwrap().len(), 1);
    let (status, refused) = world.send(
        "POST",
        "/api/tasks",
        "{\"projectId\":\"my-app\",\"title\":\"T\"}",
    );
    assert_eq!((status, text(&refused["error"]["code"])), (404, "PROJECT_NOT_FOUND".to_string()));

    let (status, answer) = world.send("DELETE", "/api/projects/my-app", "");
    assert_eq!((status, text(&answer["error"]["code"])), (404, "PROJECT_NOT_FOUND".to_string()));
}

#[test]
fn default_project_cannot_be_archived_or_deleted() {
    let world = World::new();
    let (archive, _) = world.send("POST", "/api/projects/local/archive", "");
    let (delete, _) = world.send("DELETE", "/api/projects/local", "");
    assert_eq!((archive, delete), (409, 409));
    let (_, listed) = world.send("GET", "/api/projects", "");
    assert_eq!(listed["projects"][0]["id"], "local");
    assert_eq!(listed["projects"][0]["archivedAt"], Value::Null);
}

#[test]
fn task_is_shown_as_it_was_created() {
    let world = World::new();
    let (status, created) = world.send(
        "POST",
        "/api/tasks",
        "{\"title\":\" Ship it \",\"description\":\"d\",\"status\":\"in_review\",\"priority\":\"high\",\"labels\":[\" a \",\"b\"],\"sortOrder\":2.5,\"threadId\":\"th\",\"assigneeTarget\":\"codex-agent\",\"workflowId\":\"w\",\"developmentContext\":{\"type\":\"worktree\",\"path\":\"/p\",\"branch\":\"main\"},\"dueDate\":\"2026-03-01\",\"recurrence\":{\"interval\":2,\"unit\":\"week\"}}",
    );
    assert_eq!(status, 201);
    let task = &created["task"];
    assert_eq!(task["title"], "Ship it");
    assert_eq!(task["description"], "d");
    assert_eq!(task["status"], "in_review");
    assert_eq!(task["priority"], "high");
    assert_eq!(task["labels"][0], "a");
    assert_eq!(task["labels"][1], "b");
    assert_eq!(task["sortOrder"].as_f64(), Some(2.5));
    assert_eq!(task["threadId"], "th");
    assert_eq!(task["creatorType"], "user");
    assert_eq!(task["creatorId"], "local-user");
    assert_eq!(task["assignee"]["type"], "agent");
    assert_eq!(task["assignee"]["name"], "Codex Agent");
    assert_eq!(task["workflowId"], "w");
    assert_eq!(task["developmentContext"]["type"], "worktree");
    assert_eq!(task["developmentContext"]["path"], "/p");
    assert_eq!(task["developmentContext"]["branch"], "main");
    assert_eq!(task["dueDate"], "2026-03-01");
    assert_eq!(task["recurrence"]["interval"], 2);
    assert_eq!(task["recurrence"]["unit"], "week");
    let (status, shown) = world.send("GET", "/api/tasks/LOCAL-1", "");
    assert_eq!(status, 200);
    assert_eq!(shown["task"], *task);
    let second = with_task(&world, "Next");
    assert_eq!(second["identifier"], "LOCAL-2");
    assert_eq!(second["sortOrder"].as_f64(), Some(1000.0));
    assert_eq!(second["status"], "backlog");
    assert_eq!(second["priority"], "none");
    assert_eq!(second["labels"], Value::Array(Vec::new()));
    assert_eq!(second["developmentContext"], Value::Null);
    assert_eq!(second["recurrence"], Value::Null);
    let third = with_task(&world, "Last");
    assert_eq!(third["sortOrder"].as_f64(), Some(2000.0));
}

#[test]
fn task_creation_is_refused_with_a_reason() {
    let world = World::new();
    let refusals = [
        ("{\"title\":\"\"}", 500, "title cannot be empty"),
        ("{}", 500, "title is required"),
        ("{\"title\":7}", 500, "title must be a string"),
        ("{\"title\":\"t\",\"status\":\"open\"}", 500, "invalid task status"),
        ("{\"title\":\"t\",\"priority\":\"top\"}", 500, "invalid task priority"),
        ("{\"title\":\"t\",\"labels\":1}", 500, "labels must be an array"),
        ("{\"title\":\"t\",\"labels\":[1]}", 500, "label must be a string"),
        ("{\"title\":\"t\",\"labels\":[\" \"]}", 500, "label is invalid"),
        ("{\"title\":\"t\",\"labels\":[\"a\",\"a \"]}", 500, "labels must be unique"),
        ("{\"title\":\"t\",\"dueDate\":3}", 500, "dueDate must be a string"),
        ("{\"title\":\"t\",\"dueDate\":\"2026/01/01\"}", 500, "invalid dueDate"),
        ("{\"title\":\"t\",\"recurrence\":{}}", 500, "recurrence interval is required"),
        (
            "{\"title\":\"t\",\"recurrence\":{\"interval\":366,\"unit\":\"day\"}}",
            500,
            "invalid recurrence interval",
        ),
        (
            "{\"title\":\"t\",\"recurrence\":{\"interval\":1,\"unit\":\"hour\"}}",
            500,
            "invalid recurrence unit",
        ),
        (
            "{\"title\":\"t\",\"recurrence\":{\"interval\":1,\"unit\":\"day\"}}",
            400,
            "A recurring issue requires dueDate",
        ),
        (
            "{\"title\":\"t\",\"developmentContext\":{\"type\":\"x\"}}",
            500,
            "invalid development context",
        ),
        ("{\"title\":\"t\",\"assigneeTarget\":\"nobody\"}", 500, "invalid assignee target"),
        ("{\"title\":\"t\",\"projectId\":\"No\"}", 400, "Project id is invalid"),
        ("{\"title\":\"t\",\"projectId\":\"none\"}", 404, "Project not found"),
        ("{\"title\"", 500, "request body must contain valid JSON"),
    ];
    for (body, expected, message) in refusals {
        let (status, answer) = world.send("POST", "/api/tasks", body);
        assert_eq!((status, text(&answer["error"]["message"])), (expected, message.to_string()));
    }
    let many: Vec<String> = (0..21).map(|i| format!("\"l{}\"", i)).collect();
    let body = format!("{{\"title\":\"t\",\"labels\":[{}]}}", many.join(","));
    let (_, answer) = world.send("POST", "/api/tasks", &body);
    assert_eq!(answer["error"]["message"], "too many labels");
    let body = format!("{{\"title\":\"{}\"}}", "x".repeat(241));
    let (_, answer) = world.send("POST", "/api/tasks", &body);
    assert_eq!(answer["error"]["message"], "title is too long");
    let (_, listed) = world.send("GET", "/api/tasks?archived=all", "");
    assert_eq!(listed["tasks"], Value::Array(Vec::new()));
}

#[test]
fn tasks_are_changed_only_in_the_expected_version() {
    let world = World::new();
    let task = with_task(&world, "One");
    let path = format!("/api/tasks/{}", text(&task["id"]));
    for (method, target, body) in [
        ("PATCH", path.clone(), "{\"version\":2,\"title\":\"x\"}"),
        ("POST", format!("{}/move", path), "{\"version\":2,\"status\":\"done\"}"),
        ("DELETE", path.clone(), "{\"version\":2}"),
    ] {
        let (status, answer) = world.send(method, &target, body);
        assert_eq!(status, 409);
        assert_eq!(answer["error"]["code"], "VERSION_CONFLICT");
    }
    let (_, shown) = world.send("GET", &path, "");
    assert_eq!(shown["task"], task);
    let (status, answer) = world.send("PATCH", &path, "{\"title\":\"x\"}");
    assert_eq!((status, text(&answer["error"]["message"])), (500, "version is required".to_string()));
    let (_, answer) = world.send("PATCH", &path, "{\"version\":0,\"title\":\"x\"}");
    assert_eq!(answer["error"]["message"], "version must be positive");
    let (status, answer) = world.send("PATCH", &path, "{\"version\":1}");
    assert_eq!((status, text(&answer["error"]["code"])), (400, "INVALID_BODY".to_string()));
    let (status, answer) = world.send("PATCH", "/api/tasks/LOCAL-9", "{\"version\":1}");
    assert_eq!((status, text(&answer["error"]["code"])), (404, "TASK_NOT_FOUND".to_string()));
}

#[test]
fn update_changes_every_field_that_it_names() {
    let world = World::new();
    let task = with_task(&world, "One");
    let path = format!("/api/tasks/{}", text(&task["id"]));
    let (status, updated) = world.send(
        "PATCH",
        &path,
        "{\"version\":1,\"title\":\"Two\",\"description\":null,\"status\":\"done\",\"priority\":\"low\",\"labels\":[\"z\"],\"workflowId\":\"w\",\"developmentContext\":{\"type\":\"branch\",\"branch\":\"dev\"},\"dueDate\":\"2026-12-31\",\"recurrence\":{\"interval\":365,\"unit\":\"year\"},\"threadId\":\"t\",\"assigneeTarget\":\"codex-agent\"}",
    );
    assert_eq!(status, 200);
    let changed = &updated["task"];
    assert_eq!(changed["version"], 2);
    assert_eq!(changed["title"], "Two");
    assert_eq!(changed["description"], "");
    assert_eq!(changed["status"], "done");
    assert_eq!(changed["priority"], "low");
    assert_eq!(changed["labels"][0], "z");
    assert_eq!(changed["workflowId"], "w");
    assert_eq!(changed["developmentContext"]["type"], "branch");
    assert_eq!(changed["developmentContext"]["branch"], "dev");
    assert_eq!(changed["dueDate"], "2026-12-31");
    assert_eq!(changed["recurrence"]["interval"], 365);
    assert_eq!(changed["threadId"], "t");
    assert_eq!(changed["assignee"]["id"], "codex-agent");
    let (_, cleared) = world.send(
        "PATCH",
        &path,
        "{\"version\":2,\"developmentContext\":null,\"dueDate\":null,\"recurrence\":null,\"workflowId\":null}",
    );
    assert_eq!(cleared["task"]["version"], 3);
    assert_eq!(cleared["task"]["developmentContext"], Value::Null);
    assert_eq!(cleared["task"]["dueDate"], Value::Null);
    assert_eq!(cleared["task"]["recurrence"], Value::Null);
    assert_eq!(cleared["task"]["workflowId"], Value::Null);
    assert_eq!(cleared["task"]["title"], "Two");
}

#[test]
fn archived_tasks_are_listed_apart_and_do_not_move() {
    let world = World::new();
    let one = with_task(&world, "One");
    let two = with_task(&world, "Two");
    let path = format!("/api/tasks/{}", text(&one["id"]));
    let (status, moved) =
        world.send("POST", &format!("{}/move", path), "{\"version\":1,\"status\":\"todo\"}");
    assert_eq!(status, 200);
    assert_eq!(moved["task"]["status"], "todo");
    assert_eq!(moved["task"]["sortOrder"].as_f64(), Some(1000.0));
    let (status, answer) = world.send("POST", &format!("{}/restore", path), "{\"version\":2}");
    assert_eq!((status, text(&answer["error"]["code"])), (409, "TASK_NOT_ARCHIVED".to_string()));
    let (status, archived) = world.send("POST", &format!("{}/archive", path), "{\"version\":2}");
    assert_eq!(status, 200);
    assert!(archived["task"]["archivedAt"].is_string());
    let (status, answer) =
        world.send("POST", &format!("{}/move", path), "{\"version\":3,\"status\":\"done\"}");
    assert_eq!((status, text(&answer["error"]["code"])), (409, "TASK_ARCHIVED".to_string()));
    let ids = |target: &str| -> Vec<String> {
        let (_, listed) = world.send("GET", target, "");
        listed["tasks"].as_array().unwrap().iter().map(|t| text(&t["id"])).collect()
    };
    assert_eq!(ids("/api/tasks"), vec![text(&two["id"])]);
    assert_eq!(ids("/api/tasks?archived=true"), vec![text(&one["id"])]);
    assert_eq!(ids("/api/tasks?archived=all&projectId=local").len(), 2);
    assert_eq!(ids("/api/tasks?status=todo").len(), 0);
    let (status, restored) = world.send("POST", &format!("{}/restore", path), "{\"version\":3}");
    assert_eq!(status, 200);
    assert_eq!(restored["task"]["archivedAt"], Value::Null);
    assert_eq!(restored["task"]["version"], 4);
    assert_eq!(ids("/api/tasks?status=todo"), vec![text(&one["id"])]);
    let (status, answer) = world.send(
        "POST",
        &format!("{}/move", path),
        "{\"version\":4,\"status\":\"done\",\"projectId\":\"gone\"}",
    );
    assert_eq!((status, text(&answer["error"]["code"])), (404, "PROJECT_NOT_FOUND".to_string()));
}

#[test]
fn relations_are_shown_from_both_sides() {
    let world = World::new();
    let a_id = text(&with_task(&world, "A")["id"]);
    let b_id = text(&with_task(&world, "B")["id"]);
    let relate = |method: &str, from: &str, kind: &str, to: &str, version: i64| {
        let path = format!("/api/tasks/{}/relations/{}/{}", from, kind, to);
        world.send(method, &path, &format!("{{\"version\":{}}}", version))
    };
    let code = |answer: (u16, Value)| (answer.0, text(&answer.1["error"]["code"]));
    let (status, related) = relate("POST", &b_id, "parent", &a_id, 1);
    assert_eq!(status, 200);
    assert_eq!(related["task"]["version"], 2);
    assert_eq!(related["task"]["relations"]["parent"]["id"], a_id.as_str());
    assert_eq!(related["relatedTask"]["relations"]["subIssues"][0]["id"], b_id.as_str());
    assert_eq!(related["relatedTask"]["version"], 1);
    let cycle = relate("POST", &a_id, "parent", &b_id, 1);
    assert_eq!(code(cycle), (409, "RELATION_CYCLE".to_string()));
    let own = relate("POST", &a_id, "blocks", &a_id, 1);
    assert_eq!(code(own), (400, "SELF_RELATION".to_string()));
    let (status, blocked) = relate("POST", &b_id, "blocked_by", &a_id, 2);
    assert_eq!(status, 200);
    assert_eq!(blocked["task"]["relations"]["blockedBy"][0]["id"], a_id.as_str());
    assert_eq!(blocked["relatedTask"]["relations"]["blocks"][0]["id"], b_id.as_str());
    let again = relate("POST", &a_id, "blocks", &b_id, 1);
    assert_eq!(code(again), (409, "RELATION_EXISTS".to_string()));
    let (status, _) = relate("DELETE", &a_id, "blocks", &b_id, 1);
    assert_eq!(status, 200);
    let gone = relate("DELETE", &b_id, "blocked_by", &a_id, 3);
    assert_eq!(code(gone), (404, "RELATION_NOT_FOUND".to_string()));
    let (status, _) = relate("POST", &a_id, "related", &b_id, 2);
    assert_eq!(status, 200);
    let other_way = relate("POST", &b_id, "related", &a_id, 3);
    assert_eq!(code(other_way), (409, "RELATION_EXISTS".to_string()));
    let stale = relate("POST", &b_id, "related", &a_id, 1);
    assert_eq!(code(stale), (409, "VERSION_CONFLICT".to_string()));
    let missing = relate("POST", &b_id, "related", "nobody", 3);
    assert_eq!(code(missing), (404, "TASK_NOT_FOUND".to_string()));
    let (status, answer) = relate("POST", &b_id, "cousin", &a_id, 3);
    assert_eq!((status, text(&answer["error"]["message"])), (500, "invalid relation type".to_string()));
}

#[test]
fn relations_stay_within_one_project() {
    let world = World::new();
    let a_id = text(&with_task(&world, "A")["id"]);
    world.send("POST", "/api/projects", "{\"name\":\"Other\"}");
    let (_, other) =
        world.send("POST", "/api/tasks", "{\"projectId\":\"other\",\"title\":\"B\"}");
    let path = format!("/api/tasks/{}/relations/related/{}", a_id, text(&other["task"]["id"]));
    let (status, answer) = world.send("POST", &path, "{\"version\":1}");
    assert_eq!((status, text(&answer["error"]["code"])), (400, "CROSS_PROJECT_RELATION".to_string()));
}

#[test]
fn projects_need_a_slug_that_is_free() {
    let world = World::new();
    let create = |body: &str| {
        let (status, answer) = world.send("POST", "/api/projects", body);
        (status, answer["error"]["message"].as_str().unwrap_or("").to_string())
    };
    assert_eq!(create("{}"), (500, "name is required".to_string()));
    assert_eq!(create("{\"name\":\"!\"}").0, 400);
    let taken = create("{\"name\":\"Local\"}");
    assert_eq!(taken, (409, "Project already exists".to_string()));
    assert_eq!(create("{\"name\":\"x\",\"id\":\"own-id\"}").0, 201);
    assert_eq!(
        create("{\"name\":\"x\",\"id\":\"Own\"}"),
        (400, "Project id must be a lowercase slug".to_string())
    );
    let (status, _) = world.exchange("DELETE", "/api/projects/own-id", "text/plain", b"");
    assert_eq!(status, 204);
    let (status, _) = world.send("DELETE", "/api/projects/own-id", "");
    assert_eq!(status, 404);
}

#[test]
fn workflows_are_saved_over_their_version() {
    let world = World::new();
    let path = "/api/projects/local/workflow-workspace";
    let (status, answer) = world.send("PUT", path, "{\"version\":1,\"workspace\":{}}");
    assert_eq!((status, text(&answer["error"]["code"])), (409, "VERSION_CONFLICT".to_string()));
    world
        .connection
        .execute(
            "INSERT INTO workflow_workspaces (project_id, workspace, version, updated_at) VALUES ('local', '{}', 1, 'now')",
            [],
        )
        .unwrap();
    let (status, saved) =
        world.send("PUT", path, "{\"version\":1,\"workspace\":{\"nodes\":[1,\"a\",null]}}");
    assert_eq!(status, 200);
    assert_eq!(saved["workflow"]["version"], 2);
    let (_, shown) = world.send("GET", path, "");
    assert_eq!(shown, saved);
    assert_eq!(shown["workflow"]["workspace"]["nodes"][1], "a");
    let (status, _) = world.send("GET", "/api/projects/none/workflow-workspace", "");
    assert_eq!(status, 404);
}

#[test]
fn comments_are_edited_in_their_version() {
    let world = World::new();
    let task_id = text(&with_task(&world, "A")["id"]);
    let comments = format!("/api/tasks/{}/comments", task_id);
    let (status, created) = world.send("POST", &comments, "{\"body\":\" hello \"}");
    assert_eq!(status, 201);
    assert_eq!(created["comment"]["body"], "hello");
    assert_eq!(created["comment"]["authorId"], "local-user");
    assert_eq!(created["comment"]["attachments"], Value::Array(Vec::new()));
    let path = format!("/api/comments/{}", text(&created["comment"]["id"]));
    let (status, answer) = world.send("PATCH", &path, "{\"version\":2,\"body\":\"x\"}");
    assert_eq!((status, text(&answer["error"]["code"])), (409, "VERSION_CONFLICT".to_string()));
    let (status, changed) = world.send("PATCH", &path, "{\"version\":1,\"body\":\"x\"}");
    assert_eq!(status, 200);
    assert_eq!(changed["comment"]["version"], 2);
    let (_, listed) = world.send("GET", &comments, "");
    assert_eq!(listed["comments"][0]["body"], "x");
    let (status, _) = world.send("DELETE", &path, "{\"version\":2}");
    assert_eq!(status, 204);
    let (_, listed) = world.send("GET", &comments, "");
    assert_eq!(listed["comments"], Value::Array(Vec::new()));
    let (status, answer) = world.send("DELETE", &path, "{\"version\":2}");
    assert_eq!((status, text(&answer["error"]["code"])), (404, "COMMENT_NOT_FOUND".to_string()));
}

#[test]
fn attachments_are_sent_as_they_were_received() {
    let world = World::new();
    let task_id = text(&with_task(&world, "A")["id"]);
    let path = format!("/api/tasks/{}/attachments", task_id);
    let (status, bytes) = world.exchange("POST", &path, "text/plain; charset=utf-8", b"\x00hi");
    let answer: Value = serde_json::from_slice(&bytes).unwrap();
    assert_eq!((status, answer["error"]["message"].as_str()), (201, None));
    assert_eq!(answer["attachment"]["filename"], "note.txt");
    assert_eq!(answer["attachment"]["contentType"], "text/plain");
    assert_eq!(answer["attachment"]["size"], 3);
    let id = text(&answer["attachment"]["id"]);
    let content = format!("/api/attachments/{}/content", id);
    let (status, sent) = world.exchange("GET", &content, "text/plain", b"");
    assert_eq!((status, sent), (200, b"\x00hi".to_vec()));
    let (status, head) = world.exchange("HEAD", &content, "text/plain", b"");
    assert_eq!((status, head), (200, Vec::new()));
    let (_, listed) = world.send("GET", &format!("/api/tasks/{}/attachments", task_id), "");
    assert_eq!(listed["attachments"][0]["id"], id.as_str());
    let (status, _) = world.send("DELETE", &format!("/api/attachments/{}", id), "");
    assert_eq!(status, 204);
    assert!(world.files.borrow().is_empty());
    let (status, _) = world.send("GET", &content, "");
    assert_eq!(status, 404);
}

#[test]
fn deleted_task_takes_its_attachments_along() {
    let world = World::new();
    let task_id = text(&with_task(&world, "A")["id"]);
    let (_, created) =
        world.send("POST", &format!("/api/tasks/{}/comments", task_id), "{\"body\":\"c\"}");
    let comment_id = text(&created["comment"]["id"]);
    let path = format!("/api/comments/{}/attachments", comment_id);
    let (status, _) = world.exchange("POST", &path, "", b"x");
    assert_eq!(status, 201);
    let (_, listed) = world.send("GET", &format!("/api/comments/{}/attachments", comment_id), "");
    assert_eq!(listed["attachments"][0]["commentId"], comment_id.as_str());
    assert_eq!(listed["attachments"][0]["contentType"], "application/octet-stream");
    let (_, comments) = world.send("GET", &format!("/api/tasks/{}/comments", task_id), "");
    assert_eq!(comments["comments"][0]["attachments"][0]["filename"], "note.txt");
    assert_eq!(world.files.borrow().len(), 1);
    let (status, _) = world.send("DELETE", &format!("/api/tasks/{}", task_id), "{\"version\":1}");
    assert_eq!(status, 204);
    assert!(world.files.borrow().is_empty());
    let (status, _) = world.send("GET", &format!("/api/tasks/{}", task_id), "");
    assert_eq!(status, 404);
}

/// A thread of the project that is always there, whose workspace is a directory.
fn with_thread(world: &World, sandbox: &str) -> String {
    world
        .connection
        .execute("UPDATE projects SET workspace_path = '/tmp/workspace' WHERE id = 'local'", [])
        .unwrap();
    let body = format!("{{\"projectId\":\"local\",\"sandbox\":\"{}\"}}", sandbox);
    let (status, created) = world.send("POST", "/api/local/ai/threads", &body);
    assert_eq!((status, created["error"]["message"].as_str()), (201, None));
    text(&created["thread"]["id"])
}

#[test]
fn turn_starts_codex_and_ends_with_its_reports() {
    let world = World::new();
    let thread_id = with_thread(&world, "workspace-write");
    let thread = format!("/api/local/ai/threads/{}", thread_id);
    let (status, started) = world.send(
        "POST",
        &format!("{}/turns", thread),
        "{\"message\":\"Do it\",\"attachments\":[{\"filename\":\"p.png\",\"contentType\":\"image/png\",\"dataBase64\":\"aGk=\"}]}",
    );
    assert_eq!((status, started["error"]["message"].as_str()), (202, None));
    assert_eq!(started["run"]["status"], "running");
    let run_id = text(&started["run"]["id"]);
    assert_eq!(world.turns.borrow().len(), 1);
    assert!(world.turns.borrow()[0].1.contains("Do it"));
    assert_eq!(world.files.borrow()[0].1, b"hi".to_vec());
    assert!(world.files.borrow()[0].0.ends_with("/attachment-1-p.png"));

    let (status, busy) = world.send("POST", &format!("{}/turns", thread), "{\"message\":\"x\"}");
    assert_eq!((status, text(&busy["error"]["code"])), (409, "THREAD_BUSY".to_string()));
    let (status, busy) = world.send("DELETE", &thread, "");
    assert_eq!(status, 409);
    assert!(busy["error"]["code"].is_string());

    let mut state = TurnState::fresh();
    for line in [
        "{\"type\":\"thread.started\",\"thread_id\":\"codex-7\"}\r",
        "  ",
        "{\"type\":\"item.completed\",\"item\":{\"id\":\"i\",\"type\":\"agent_message\",\"text\":\"done\"}}",
    ] {
        let bytes = line.as_bytes().to_vec();
        let mut replies: Vec<Reply> = Vec::new();
        state = loop {
            match take_line(&replies, &thread_id, &run_id, &state, &bytes) {
                LineStep::Ask(action) => replies.push(world.perform(&action)),
                LineStep::Next(next) => break next,
                LineStep::Stop(next) => panic!("stopped: {}", next.error),
            }
        };
    }
    assert!(!state.failed);
    let outcome = decide_outcome(&state, false, Some(Exit { success: true, code: Some(0) }));
    close(&world, &outcome, &thread_id, &run_id);
    let (_, shown) = world.send("GET", &thread, "");
    assert_eq!(shown["thread"]["status"], "idle");
    assert_eq!(shown["thread"]["codexThreadId"], "codex-7");
    assert_eq!(shown["thread"]["currentRun"], Value::Null);
    assert_eq!(shown["runs"][0]["status"], "completed");
    assert_eq!(shown["runs"][0]["exitCode"], 0);
    let roles: Vec<String> =
        shown["events"].as_array().unwrap().iter().map(|e| text(&e["role"])).collect();
    assert_eq!(roles.len(), 2);
    assert!(roles.contains(&"user".to_string()) && roles.contains(&"assistant".to_string()));
    let (status, _) = world.exchange("DELETE", &thread, "text/plain", b"");
    assert_eq!(status, 204);
}

fn close(world: &World, outcome: &taskboard::codex::Outcome, thread_id: &str, run_id: &str) {
    let mut closing = Closing::Time;
    let mut replies: Vec<Reply> = Vec::new();
    while !matches!(closing, Closing::Over) {
        match finish_codex_turn(&replies, &closing, outcome, thread_id, run_id) {
            ClosingStep::Ask(action) => replies.push(world.perform(&action)),
            ClosingStep::Go(next) => {
                closing = next;
                replies = Vec::new();
            }
        }
    }
}

#[test]
fn failed_turn_is_noted_as_an_event() {
    let world = World::new();
    let thread_id = with_thread(&world, "read-only");
    let thread = format!("/api/local/ai/threads/{}", thread_id);
    let (_, started) = world.send("POST", &format!("{}/turns", thread), "{\"message\":\"m\"}");
    let run_id = text(&started["run"]["id"]);
    let state = TurnState::with_failure("boom");
    let outcome = decide_outcome(&state, false, Some(Exit { success: false, code: Some(3) }));
    close(&world, &outcome, &thread_id, &run_id);
    let (_, shown) = world.send("GET", &thread, "");
    assert_eq!(shown["thread"]["status"], "failed");
    assert_eq!(shown["runs"][0]["status"], "failed");
    assert_eq!(shown["runs"][0]["exitCode"], 3);
    assert_eq!(shown["runs"][0]["error"], "boom");
    let events = shown["events"].as_array().unwrap();
    assert!(events.iter().any(|e| e["role"] == "error" && e["content"] == "boom"));
}

#[test]
fn codex_that_cannot_start_fails_the_run() {
    let mut world = World::new();
    world.codex_starts = false;
    let thread_id = with_thread(&world, "read-only");
    let path = format!("/api/local/ai/threads/{}/turns", thread_id);
    let (status, started) = world.send(
        "POST",
        &path,
        "{\"message\":\"m\",\"attachments\":[{\"filename\":\"a.txt\",\"contentType\":\"text/plain\",\"dataBase64\":\"aGk=\"}]}",
    );
    assert_eq!(status, 202);
    assert_eq!(started["run"]["status"], "failed");
    assert_eq!(started["run"]["error"], "codex is missing");
    assert!(world.files.borrow().is_empty());
}

#[test]
fn interrupted_run_stays_interrupted() {
    let world = World::new();
    let thread_id = with_thread(&world, "read-only");
    let path = format!("/api/local/ai/threads/{}/turns", thread_id);
    let (_, started) = world.send("POST", &path, "{\"message\":\"m\"}");
    let run_id = text(&started["run"]["id"]);
    let interrupt = format!("/api/local/ai/runs/{}/interrupt", run_id);
    let (status, stopped) = world.send("POST", &interrupt, "");
    assert_eq!(status, 200);
    assert_eq!(stopped["run"]["status"], "interrupted");
    assert_eq!(stopped["run"]["error"], "Interrupted");
    assert_eq!(*world.stopped.borrow(), vec![run_id.clone()]);
    let (status, again) = world.send("POST", &interrupt, "");
    assert_eq!((status, again), (200, stopped));
    assert_eq!(world.stopped.borrow().len(), 1);
    let (status, answer) = world.send("POST", "/api/local/ai/runs/none/interrupt", "");
    assert_eq!((status, text(&answer["error"]["code"])), (404, "AI_CHAT_RUN_NOT_FOUND".to_string()));
}

#[test]
fn full_access_is_confirmed_for_every_turn() {
    let world = World::new();
    let thread_id = with_thread(&world, "danger-full-access");
    let path = format!("/api/local/ai/threads/{}/turns", thread_id);
    let (status, answer) = world.send("POST", &path, "{\"message\":\"m\"}");
    assert_eq!(
        (status, text(&answer["error"]["code"])),
        (400, "DANGER_CONFIRMATION_REQUIRED".to_string())
    );
    assert!(world.turns.borrow().is_empty());
    let (status, _) =
        world.send("POST", &path, "{\"message\":\"m\",\"dangerFullAccessConfirmed\":true}");
    assert_eq!(status, 202);
}

#[test]
fn thread_stream_tells_of_events_and_runs() {
    let world = World::new();
    let thread_id = with_thread(&world, "read-only");
    let read = || world.done(|replies| ai_event_stream_cursor(replies, &thread_id));
    let empty = read();
    assert_eq!((empty.event_rowid, empty.run_state.as_str()), (0, ""));
    assert_eq!(stream_messages(&AiEventStreamCursor::start(), &empty), vec![KEEP_ALIVE]);
    let path = format!("/api/local/ai/threads/{}/turns", thread_id);
    world.send("POST", &path, "{\"message\":\"m\"}");
    let busy = read();
    assert_eq!(stream_messages(&empty, &busy), vec![EVENT_MESSAGE, RUN_MESSAGE]);
    assert_eq!(stream_messages(&busy, &read()), vec![KEEP_ALIVE]);
    let request = parse("GET", &format!("/api/local/ai/threads/{}/events", thread_id), "x", b"");
    assert!(matches!(world.respond(&request), Delivery::AiEvents(id) if id == thread_id));
    let (status, _) = world.send("GET", "/api/local/ai/threads/none/events", "");
    assert_eq!(status, 404);
}

#[test]
fn catalog_names_the_configured_model() {
    let world = World::new();
    let (status, answer) = world.send("GET", "/api/local/ai/catalog", "");
    assert_eq!((status, text(&answer["error"]["message"])), (400, "'projectId' is required".to_string()));
    with_thread(&world, "read-only");
    let (status, catalog) = world.send("GET", "/api/local/ai/catalog?projectId=local", "");
    assert_eq!(status, 200);
    assert_eq!(catalog["models"][0]["slug"], "gpt-5");
}

#[test]
fn fixed_answers_need_no_store() {
    let world = World::new();
    let (status, meta) = world.send("GET", "/api/meta", "");
    assert_eq!(status, 200);
    assert_eq!(meta["manageTaskboardSkillPath"], SKILL);
    assert_eq!(meta["capabilities"]["localAiChat"], true);
    assert_eq!(world.send("GET", "/api/revisions", "").1["revision"], 1);
    assert_eq!(world.send("POST", "/api/local/codex/threads/sync", "").0, 204);
    assert_eq!(world.send("GET", "/api/local/codex/threads/a%2520b", "").1["thread"]["id"], "a b");
    assert_eq!(world.send("GET", "/api/unknown", "").0, 501);
    let (status, answer) = world.send("POST", "/health", "");
    assert_eq!((status, text(&answer["error"]["message"])), (500, "method not allowed".to_string()));
    let request = parse("GET", "/api/events", "x", b"");
    assert!(matches!(world.respond(&request), Delivery::Events));
}

#[test]
fn health_answer_passes_the_health_check() {
    let world = World::new();
    let request = parse("GET", "/health", "x", b"");
    let Delivery::Bytes(bytes) = world.respond(&request) else { panic!("a stream") };
    let answer = String::from_utf8(bytes).unwrap();
    assert!(taskboard::runtime::taskboard_health_response_matches(&answer, "127.0.0.1"));
    assert!(!taskboard::runtime::taskboard_health_response_matches(&answer, "0.0.0.0"));
    assert!(answer.starts_with("HTTP/1.1 200 OK\r\nx-content-type-options: nosniff\r\n"));
    assert!(answer.ends_with("\r\n\r\n{\"status\":\"ok\"}"));
    assert!(answer.contains("content-length: 15\r\n"));
}

#[test]
fn reading_requests_leave_the_store_alone() {
    let world = World::new();
    let task = with_task(&world, "One");
    let thread_id = with_thread(&world, "read-only");
    let changes = || -> i64 {
        world.connection.query_row("SELECT total_changes()", [], |row| row.get(0)).unwrap()
    };
    let before = changes();
    let task_path = format!("/api/tasks/{}", text(&task["id"]));
    let thread_path = format!("/api/local/ai/threads/{}", thread_id);
    for path in [
        "/api/projects",
        "/api/tasks",
        "/api/local/ai/threads?projectId=local",
        "/api/local/ai/catalog?projectId=local",
        &task_path,
        &format!("{}/comments", task_path),
        &thread_path,
    ] {
        assert_eq!(world.send("GET", path, "").0, 200);
        world.send("HEAD", path, "");
    }
    world.send("GET", &format!("{}/archive", task_path), "{\"version\":1}");
    assert_eq!(changes(), before);
    world.send("DELETE", &task_path, "{\"version\":1}");
    assert!(changes() > before);
}

#[test]
fn interface_paths_are_no_pages() {
    for method in ["GET", "HEAD", "POST", "PURGE"] {
        for path in ["/api/", "/api/index.html", "/api/assets/app.js", "/api/tasks", "/api/meta"] {
            let request = parse(method, path, "x", b"");
            assert!(!matches!(route(&request, SKILL), Ok(Route::Page)));
        }
    }
    let request = parse("GET", "/assets/app.js", "x", b"");
    assert!(matches!(route(&request, SKILL), Ok(Route::Page)));
}

#[test]
fn first_fault_of_a_listing_is_told() {
    let world = World::new();
    with_task(&world, "One");
    with_task(&world, "Two");
    let fail = |sql: &str| world.connection.execute_batch(sql).unwrap();
    let message = || text(&world.send("GET", "/api/tasks", "").1["error"]["message"]);
    fail("UPDATE tasks SET title = x'00' WHERE title = 'Two'");
    assert!(message().starts_with("Invalid column type Blob at index: 3, name: title"));
    fail("UPDATE tasks SET labels = x'01' WHERE title = 'One'");
    assert!(message().contains("name: labels"));
    fail("UPDATE tasks SET labels = '[]' WHERE title = 'One'");
    fail("UPDATE tasks SET title = CAST(x'ff' AS TEXT) WHERE title <> 'One'");
    assert!(message().starts_with("Conversion error from type Text at index: 3"));
    fail("DROP TABLE task_relations");
    assert_eq!(message(), "no such table: task_relations");
    fail("UPDATE tasks SET title = x'00' WHERE title = 'One'");
    assert!(message().contains("name: title"));
    fail("DROP TABLE tasks");
    assert_eq!(message(), "no such table: tasks");
}

#[test]
fn numbers_of_a_project_rise_and_stay_used() {
    let world = World::new();
    assert_eq!(with_task(&world, "One")["identifier"], "LOCAL-1");
    let two = with_task(&world, "Two");
    assert_eq!(two["identifier"], "LOCAL-2");
    assert_eq!((&two["version"], &two["archivedAt"]), (&Value::from(1), &Value::Null));
    let (status, _) = world.send("POST", "/api/tasks", "{\"title\":\"No\",\"projectId\":\"none\"}");
    assert_eq!(status, 404);
    let path = format!("/api/tasks/{}", text(&two["id"]));
    assert_eq!(world.send("DELETE", &path, "{\"version\":1}").0, 204);
    assert_eq!(with_task(&world, "Three")["identifier"], "LOCAL-3");
}

#[test]
fn parents_stay_a_forest() {
    let world = World::new();
    let ids: Vec<String> =
        ["A", "B", "C", "D"].iter().map(|t| text(&with_task(&world, t)["id"])).collect();
    let parent = |child: usize, parent: usize, version: i64| {
        let path = format!("/api/tasks/{}/relations/parent/{}", ids[child], ids[parent]);
        world.send("POST", &path, &format!("{{\"version\":{}}}", version)).0
    };
    assert_eq!(parent(1, 0, 1), 200);
    assert_eq!(parent(2, 1, 1), 200);
    assert_eq!(parent(0, 2, 1), 409);
    assert_eq!(parent(2, 3, 2), 200);
    let (_, shown) = world.send("GET", &format!("/api/tasks/{}", ids[2]), "");
    assert_eq!(shown["task"]["relations"]["parent"]["id"], ids[3].as_str());
    let (_, shown) = world.send("GET", &format!("/api/tasks/{}", ids[1]), "");
    assert_eq!(shown["task"]["relations"]["subIssues"].as_array().unwrap().len(), 0);
    assert_eq!(parent(0, 2, 1), 200);
}

#[test]
fn restoring_gives_the_task_back() {
    let world = World::new();
    let path = format!("/api/tasks/{}", text(&with_task(&world, "One")["id"]));
    let (_, before) = world.send("GET", &path, "");
    let (_, archived) = world.send("POST", &format!("{}/archive", path), "{\"version\":1}");
    assert!(archived["task"]["archivedAt"].is_string());
    assert_eq!(archived["task"]["version"], 2);
    let (status, restored) = world.send("POST", &format!("{}/restore", path), "{\"version\":2}");
    assert_eq!(status, 200);
    let mut expected = before["task"].clone();
    expected["version"] = Value::from(3);
    expected["updatedAt"] = restored["task"]["updatedAt"].clone();
    assert_eq!(restored["task"], expected);
    let (status, answer) = world.send("POST", &format!("{}/restore", path), "{\"version\":3}");
    assert_eq!((status, text(&answer["error"]["code"])), (409, "TASK_NOT_ARCHIVED".to_string()));
}

#[test]
fn thread_has_at_most_one_running_run() {
    let world = World::new();
    let thread_id = with_thread(&world, "read-only");
    let running = || -> i64 {
        let sql = "SELECT COUNT(*) FROM ai_chat_runs WHERE status = 'running'";
        world.connection.query_row(sql, [], |row| row.get(0)).unwrap()
    };
    let (run, _) = world.done(|replies| create_ai_chat_run(replies, 0, &thread_id));
    let run = value(&run);
    assert_eq!((&run["status"], &run["finishedAt"]), (&Value::from("running"), &Value::Null));
    assert_eq!(running(), 1);
    assert!(world.drive(|replies| create_ai_chat_run(replies, 0, &thread_id)).is_err());
    assert_eq!(running(), 1);
    let (thread, _) = world.done(|replies| get_ai_chat_thread(replies, 0, &thread_id));
    let thread = value(&thread.unwrap());
    assert_eq!((&thread["status"], &thread["currentRun"]), (&Value::from("running"), &run));
    let id = text(&run["id"]);
    world.done(|replies| update_ai_chat_run(replies, 0, &id, "completed", None, None, None));
    assert_eq!(running(), 0);
    world.done(|replies| create_ai_chat_run(replies, 0, &thread_id));
    assert_eq!(running(), 1);
}

/// Everything that a table holds, in the order of its rows.
fn table(world: &World, name: &str) -> Vec<Vec<StoreValue>> {
    let mut prepared =
        world.connection.prepare(&format!("SELECT * FROM {} ORDER BY rowid", name)).unwrap();
    let width = prepared.column_count();
    let mut rows = prepared.query([]).unwrap();
    let mut found = Vec::new();
    while let Some(row) = rows.next().unwrap() {
        found.push((0..width).map(|i| row.get(i).unwrap()).collect());
    }
    found
}

/// The columns in which two rows differ.
fn differences(a: &[StoreValue], b: &[StoreValue]) -> Vec<usize> {
    assert_eq!(a.len(), b.len());
    (0..a.len()).filter(|i| a[*i] != b[*i]).collect()
}

const FULL_TASK: &str = "{\"title\":\" Ship it \",\"description\":\"d\",\"status\":\"in_review\",\"priority\":\"high\",\"labels\":[\" a \",\"b\"],\"sortOrder\":2.5,\"threadId\":\"th\",\"assigneeTarget\":\"codex-agent\",\"workflowId\":\"w\",\"developmentContext\":{\"type\":\"worktree\",\"path\":\"/p\",\"branch\":\"main\"},\"dueDate\":\"2026-03-01\",\"recurrence\":{\"interval\":2,\"unit\":\"week\"}}";

#[test]
fn task_is_stored_as_it_was_sent() {
    let world = World::new();
    let (status, created) = world.send("POST", "/api/tasks", FULL_TASK);
    assert_eq!(status, 201);
    let t = |s: &str| StoreValue::Text(s.to_string());
    let time = t(created["task"]["createdAt"].as_str().unwrap());
    let expected = vec![
        t(created["task"]["id"].as_str().unwrap()),
        t("LOCAL-1"),
        t("local"),
        t("Ship it"),
        t("d"),
        t("in_review"),
        t("high"),
        t("[\"a\",\"b\"]"),
        StoreValue::Real(2.5),
        t("th"),
        t("user"),
        t("local-user"),
        t("\u{672c}\u{5730}\u{7528}\u{6237}"),
        StoreValue::Null,
        t("agent"),
        t("codex-agent"),
        t("Codex Agent"),
        StoreValue::Null,
        t("w"),
        StoreValue::Null,
        t("/p"),
        t("main"),
        t("2026-03-01"),
        StoreValue::Integer(2),
        t("week"),
        StoreValue::Null,
        StoreValue::Integer(1),
        time.clone(),
        time,
    ];
    assert_eq!(table(&world, "tasks"), vec![expected]);
}

#[test]
fn failed_creation_leaves_the_store_as_it_was() {
    let world = World::new();
    with_task(&world, "One");
    let before = (table(&world, "tasks"), table(&world, "projects"));
    for body in [
        "{}",
        "{\"title\":\"t\",\"status\":\"open\"}",
        "{\"title\":\"t\",\"dueDate\":3}",
        "{\"title\":\"t\",\"recurrence\":{\"interval\":1,\"unit\":\"day\"}}",
        "{\"title\":\"t\",\"projectId\":\"none\"}",
        "{\"title\":\"t\",\"projectId\":\"No\"}",
    ] {
        assert!(world.send("POST", "/api/tasks", body).0 >= 400);
        assert_eq!((table(&world, "tasks"), table(&world, "projects")), before);
    }
    world
        .connection
        .execute("UPDATE tasks SET identifier = 'LOCAL-2' WHERE identifier = 'LOCAL-1'", [])
        .unwrap();
    let before = (table(&world, "tasks"), table(&world, "projects"));
    assert_eq!(world.send("POST", "/api/tasks", "{\"title\":\"Two\"}").0, 500);
    assert_eq!((table(&world, "tasks"), table(&world, "projects")), before);
    world.connection.execute("DELETE FROM tasks", []).unwrap();
    assert_eq!(with_task(&world, "Two")["identifier"], "LOCAL-2");
}

#[test]
fn update_leaves_other_columns_and_other_tasks_alone() {
    let world = World::new();
    let (_, created) = world.send("POST", "/api/tasks", FULL_TASK);
    with_task(&world, "Other");
    let path = format!("/api/tasks/{}", text(&created["task"]["id"]));
    let columns = |body: &str| {
        let before = table(&world, "tasks");
        let projects = table(&world, "projects");
        let (status, updated) = world.send("PATCH", &path, body);
        let after = table(&world, "tasks");
        assert_eq!((status, after.len()), (200, 2));
        assert_eq!(before[1], after[1]);
        assert_eq!(projects, table(&world, "projects"));
        let mut changed = differences(&before[0], &after[0]);
        changed.retain(|i| *i != 28);
        (changed, updated)
    };
    let (changed, updated) = columns("{\"version\":1,\"title\":\" New \"}");
    assert_eq!(changed, vec![3, 26]);
    assert_eq!(updated["task"]["title"], "New");
    assert_eq!(updated["task"]["version"], 2);
    assert_eq!(updated["task"]["labels"], created["task"]["labels"]);
    assert_eq!(updated["task"]["developmentContext"], created["task"]["developmentContext"]);
    let (changed, _) = columns("{\"version\":2,\"dueDate\":null,\"status\":\"todo\"}");
    assert_eq!(changed, vec![5, 22, 26]);
    let (changed, _) = columns("{\"version\":3,\"developmentContext\":null,\"recurrence\":null}");
    assert_eq!(changed, vec![20, 21, 23, 24, 26]);
    let (changed, _) = columns("{\"version\":4,\"threadId\":\"other\",\"labels\":[]}");
    assert_eq!(changed, vec![7, 9, 26]);
}

#[test]
fn archiving_and_restoring_change_three_columns() {
    let world = World::new();
    let (_, created) = world.send("POST", "/api/tasks", FULL_TASK);
    with_task(&world, "Other");
    let path = format!("/api/tasks/{}", text(&created["task"]["id"]));
    let first = table(&world, "tasks");
    assert_eq!(world.send("POST", &format!("{}/archive", path), "{\"version\":1}").0, 200);
    let archived = table(&world, "tasks");
    assert_eq!(archived[0][25], archived[0][28]);
    assert_eq!(archived[0][26], StoreValue::Integer(2));
    assert!(differences(&first[0], &archived[0]).iter().all(|i| [25, 26, 28].contains(i)));
    assert_eq!(first[1], archived[1]);
    assert_eq!(world.send("POST", &format!("{}/restore", path), "{\"version\":2}").0, 200);
    let restored = table(&world, "tasks");
    assert_eq!(restored[0][26], StoreValue::Integer(3));
    assert!(differences(&first[0], &restored[0]).iter().all(|i| [26, 28].contains(i)));
    assert_eq!(world.send("POST", &format!("{}/restore", path), "{\"version\":3}").0, 409);
    assert_eq!(table(&world, "tasks"), restored);
}

#[test]
fn refused_parent_changes_nothing_and_a_given_one_only_the_task() {
    let world = World::new();
    let ids: Vec<String> =
        ["A", "B", "C"].iter().map(|t| text(&with_task(&world, t)["id"])).collect();
    let parent = |child: usize, parent: usize, version: i64| {
        let path = format!("/api/tasks/{}/relations/parent/{}", ids[child], ids[parent]);
        world.send("POST", &path, &format!("{{\"version\":{}}}", version)).0
    };
    let before = table(&world, "tasks");
    assert_eq!(parent(1, 0, 1), 200);
    let after = table(&world, "tasks");
    assert_eq!((&before[0], &before[2]), (&after[0], &after[2]));
    assert_eq!(after[1][26], StoreValue::Integer(2));
    assert!(differences(&before[1], &after[1]).iter().all(|i| [26, 28].contains(i)));
    let before = (table(&world, "tasks"), table(&world, "task_relations"));
    assert_eq!(parent(0, 1, 1), 409);
    assert_eq!((table(&world, "tasks"), table(&world, "task_relations")), before);
    assert_eq!(parent(1, 2, 2), 200);
    let relations = table(&world, "task_relations");
    assert_eq!(relations.len(), 1);
    assert_eq!(relations[0][1], StoreValue::Text(ids[2].clone()));
    assert_eq!(relations[0][2], StoreValue::Text(ids[1].clone()));
}

#[test]
fn second_run_of_a_thread_changes_nothing() {
    let world = World::new();
    let thread_id = with_thread(&world, "read-only");
    let other_id = with_thread(&world, "read-only");
    let (run, _) = world.done(|replies| create_ai_chat_run(replies, 0, &thread_id));
    let before = (table(&world, "ai_chat_runs"), table(&world, "ai_chat_threads"));
    match world.drive(|replies| create_ai_chat_run(replies, 0, &thread_id)) {
        Err(Step::Fail(message)) => assert!(message.contains("UNIQUE")),
        _ => panic!("it fails"),
    }
    assert_eq!((table(&world, "ai_chat_runs"), table(&world, "ai_chat_threads")), before);
    world.done(|replies| create_ai_chat_run(replies, 0, &other_id));
    assert_eq!(table(&world, "ai_chat_runs")[0], before.0[0]);
    assert_eq!(table(&world, "ai_chat_threads")[0], before.1[0]);
    let id = text(&value(&run)["id"]);
    let ended = world.done(|replies| {
        update_ai_chat_run(replies, 0, &id, "failed", Some(3), Some("e"), Some("t"))
    });
    let ended = value(&ended.0);
    assert_eq!((&ended["status"], &ended["exitCode"]), (&Value::from("failed"), &Value::from(3)));
    assert_eq!((&ended["error"], &ended["finishedAt"]), (&Value::from("e"), &Value::from("t")));
    let runs = table(&world, "ai_chat_runs");
    assert_eq!(differences(&before.0[0], &runs[0]), vec![2, 3, 4, 6]);
    let threads = table(&world, "ai_chat_threads");
    assert_eq!(threads[0][2], StoreValue::Text("failed".to_string()));
    assert_eq!(threads[0][13], StoreValue::Text("t".to_string()));
    assert_eq!(threads[1][2], StoreValue::Text("running".to_string()));
}

#[test]
fn content_is_sent_with_its_type_and_length() {
    let world = World::new();
    let task_id = text(&with_task(&world, "A")["id"]);
    let path = format!("/api/tasks/{}/attachments", task_id);
    let (_, bytes) = world.exchange("POST", &path, "Text/Plain; charset=utf-8", b"hello");
    let answer: Value = serde_json::from_slice(&bytes).unwrap();
    let content = format!("/api/attachments/{}/content", text(&answer["attachment"]["id"]));
    let sent = match world.respond(&parse("GET", &content, "text/plain", b"")) {
        Delivery::Bytes(bytes) => String::from_utf8(bytes).unwrap(),
        _ => panic!("a stream"),
    };
    let head = sent.to_lowercase();
    assert!(head.contains("content-length: 5\r\n"));
    assert!(head.contains(&format!(
        "content-type: {}\r\n",
        text(&answer["attachment"]["contentType"]).to_lowercase()
    )));
    assert!(sent.ends_with("\r\n\r\nhello"));
    let (status, answer) = world.send("GET", "/api/attachments/none/content", "");
    assert_eq!((status, text(&answer["error"]["code"])), (404, "ATTACHMENT_NOT_FOUND".to_string()));
}

/// Reads the lines of a turn one after the other, up to the one that ends the reading.
fn read_turn(world: &World, thread_id: &str, run_id: &str, lines: &[&str]) -> TurnState {
    let mut state = TurnState::fresh();
    for line in lines {
        let bytes = line.as_bytes().to_vec();
        let mut replies: Vec<Reply> = Vec::new();
        loop {
            match take_line(&replies, thread_id, run_id, &state, &bytes) {
                LineStep::Ask(action) => replies.push(world.perform(&action)),
                LineStep::Next(next) => {
                    state = next;
                    break;
                }
                LineStep::Stop(next) => return next,
            }
        }
    }
    state
}

#[test]
fn any_reported_failure_fails_the_turn() {
    let world = World::new();
    let thread_id = with_thread(&world, "read-only");
    let (run, _) = world.done(|replies| create_ai_chat_run(replies, 0, &thread_id));
    let run_id = text(&value(&run)["id"]);
    let message = "{\"type\":\"item.completed\",\"item\":{\"id\":\"i\",\"type\":\"agent_message\",\"text\":\"m\"}}";
    let failed = "{\"type\":\"turn.failed\",\"error\":{\"message\":\"boom\"}}";
    let ended = |lines: &[&str], interrupted: bool| {
        let state = read_turn(&world, &thread_id, &run_id, lines);
        let exit = Some(Exit { success: true, code: Some(0) });
        decide_outcome(&state, interrupted, exit).status.to_string()
    };
    assert_eq!(ended(&[message, " ", message], false), "completed");
    assert_eq!(ended(&[message, failed, message], false), "failed");
    assert_eq!(ended(&[failed], false), "failed");
    assert_eq!(ended(&["{\"type\":\"error\",\"message\":\"e\"}", message], false), "failed");
    assert_eq!(ended(&[message, "no json", message], false), "failed");
    assert_eq!(ended(&[message, failed], true), "interrupted");
    assert_eq!(ended(&[], false), "completed");
}

#[test]
fn move_and_deletion_leave_other_tasks_alone() {
    let world = World::new();
    let (_, created) = world.send("POST", "/api/tasks", FULL_TASK);
    let id = text(&created["task"]["id"]);
    let other_id = text(&with_task(&world, "Other")["id"]);
    let third_id = text(&with_task(&world, "Third")["id"]);
    let relate = |child: &str, parent: &str| {
        let path = format!("/api/tasks/{}/relations/parent/{}", child, parent);
        assert_eq!(world.send("POST", &path, "{\"version\":1}").0, 200);
    };
    relate(&other_id, &id);
    relate(&id, &third_id);
    let before = table(&world, "tasks");
    let projects = table(&world, "projects");
    let path = format!("/api/tasks/{}", id);
    let (status, moved) =
        world.send("POST", &format!("{}/move", path), "{\"version\":2,\"status\":\"backlog\"}");
    assert_eq!(status, 200);
    assert_eq!(moved["task"]["status"], "backlog");
    assert_eq!(moved["task"]["projectId"], "local");
    let after = table(&world, "tasks");
    assert_eq!(after[0][8], StoreValue::Real(3000.0));
    assert_eq!(after[0][26], StoreValue::Integer(3));
    let changed = differences(&before[0], &after[0]);
    assert!(changed.iter().all(|i| [5, 8, 26, 28].contains(i)));
    assert_eq!(before[1..], after[1..]);
    for body in [
        "{\"version\":2,\"status\":\"todo\"}",
        "{\"version\":3}",
        "{\"version\":3,\"status\":\"open\"}",
        "{\"version\":3,\"status\":\"todo\",\"projectId\":\"none\"}",
        "{\"version\":3,\"status\":\"todo\",\"threadId\":1}",
    ] {
        assert!(world.send("POST", &format!("{}/move", path), body).0 >= 400);
        assert_eq!(table(&world, "tasks"), after);
    }
    assert_eq!(world.send("DELETE", &path, "{\"version\":2}").0, 409);
    assert_eq!(table(&world, "tasks"), after);
    assert_eq!(world.send("DELETE", &path, "{\"version\":3}").0, 204);
    assert_eq!(table(&world, "tasks"), after[1..].to_vec());
    assert_eq!(table(&world, "projects"), projects);
    assert!(table(&world, "task_relations").is_empty());
    for (method, target) in [
        ("PATCH", path.clone()),
        ("DELETE", path.clone()),
        ("POST", format!("{}/archive", path)),
        ("POST", format!("{}/restore", path)),
    ] {
        let (status, answer) = world.send(method, &target, "{\"version\":3,\"title\":\"x\"}");
        assert_eq!((status, text(&answer["error"]["code"])), (404, "TASK_NOT_FOUND".to_string()));
    }
    assert_eq!(table(&world, "tasks"), after[1..].to_vec());
}
