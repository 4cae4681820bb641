//! Conversations: how they are listed, shown, created, changed and deleted.
use crate::ai_models;
use crate::ai_models::{AiWorkspace, AiWorkspaceView};
use crate::ai_runs;
use crate::exchange;
use crate::exchange::{
    Reply, ReplyView, Response, ResponseView, Row, SqlValue, SqlView, Statement, StatementView,
    Step, StepView,
};
use crate::fields;
use crate::json;
use crate::json::{Json, JsonView};
use crate::rows;
use crate::rows::{Column, Kind};
use crate::store;
use crate::task_edits;
use crate::task_edits::{Changes, ChangesView};
use crate::tasks;
use crate::text;
use vstd::prelude::*;

verus! {

pub const LIST_THREADS: &'static str = "
        SELECT * FROM ai_chat_threads
        ORDER BY updated_at DESC, id
        ";

pub const THREAD_BY_ID: &'static str = "SELECT * FROM ai_chat_threads WHERE id = ?1";

pub const CURRENT_RUN: &'static str = "
            SELECT * FROM ai_chat_runs
            WHERE thread_id = ?1 AND status = 'running'
            ORDER BY started_at DESC, id DESC
            LIMIT 1
            ";

pub const INSERT_THREAD: &'static str = "
        INSERT INTO ai_chat_threads (
          id, title, status,
          origin_project_id, origin_project_name, origin_workspace_path,
          origin_issue_id, origin_issue_identifier,
          codex_thread_id, model, reasoning_effort, sandbox,
          created_at, updated_at
        ) VALUES (?1, ?2, 'idle', ?3, ?4, ?5, ?6, ?7, ?8, ?9, ?10, ?11, ?12, ?12)
        ";

pub const DELETE_THREAD: &'static str = "DELETE FROM ai_chat_threads WHERE id = ?1";

/// What a thread is read from first: the task that it started from.
pub open spec fn issue_plan() -> Seq<(Seq<char>, Seq<char>, Kind)> {
    seq![
        ("issueId"@, "origin_issue_id"@, Kind::OptionalText),
        ("issueIdentifier"@, "origin_issue_identifier"@, Kind::OptionalText),
    ]
}

fn issue_columns() -> (r: Vec<Column>)
    ensures
        r.deep_view() == issue_plan(),
{
    let r = vec![
        rows::column("issueId", "origin_issue_id", Kind::OptionalText),
        rows::column("issueIdentifier", "origin_issue_identifier", Kind::OptionalText),
    ];
    proof {
        assert(r.deep_view() =~= issue_plan());
    }
    r
}

/// The project that a thread started from.
pub open spec fn origin_plan() -> Seq<(Seq<char>, Seq<char>, Kind)> {
    seq![
        ("projectId"@, "origin_project_id"@, Kind::Text),
        ("projectName"@, "origin_project_name"@, Kind::Text),
        ("workspacePath"@, "origin_workspace_path"@, Kind::Text),
    ]
}

fn origin_columns() -> (r: Vec<Column>)
    ensures
        r.deep_view() == origin_plan(),
{
    let r = vec![
        rows::column("projectId", "origin_project_id", Kind::Text),
        rows::column("projectName", "origin_project_name", Kind::Text),
        rows::column("workspacePath", "origin_workspace_path", Kind::Text),
    ];
    proof {
        assert(r.deep_view() =~= origin_plan());
    }
    r
}

/// What is shown of a thread before where it started from.
pub open spec fn thread_plan() -> Seq<(Seq<char>, Seq<char>, Kind)> {
    seq![
        ("id"@, "id"@, Kind::Text),
        ("title"@, "title"@, Kind::Text),
        ("status"@, "status"@, Kind::Text),
    ]
}

fn thread_columns() -> (r: Vec<Column>)
    ensures
        r.deep_view() == thread_plan(),
{
    let r = vec![
        rows::column("id", "id", Kind::Text),
        rows::column("title", "title", Kind::Text),
        rows::column("status", "status", Kind::Text),
    ];
    proof {
        assert(r.deep_view() =~= thread_plan());
    }
    r
}

/// What is shown of a thread behind where it started from.
pub open spec fn thread_tail_plan() -> Seq<(Seq<char>, Seq<char>, Kind)> {
    seq![
        ("codexThreadId"@, "codex_thread_id"@, Kind::OptionalText),
        ("model"@, "model"@, Kind::Text),
        ("reasoningEffort"@, "reasoning_effort"@, Kind::Text),
        ("sandbox"@, "sandbox"@, Kind::Text),
        ("createdAt"@, "created_at"@, Kind::Text),
        ("updatedAt"@, "updated_at"@, Kind::Text),
    ]
}

fn thread_tail_columns() -> (r: Vec<Column>)
    ensures
        r.deep_view() == thread_tail_plan(),
{
    let r = vec![
        rows::column("codexThreadId", "codex_thread_id", Kind::OptionalText),
        rows::column("model", "model", Kind::Text),
        rows::column("reasoningEffort", "reasoning_effort", Kind::Text),
        rows::column("sandbox", "sandbox", Kind::Text),
        rows::column("createdAt", "created_at", Kind::Text),
        rows::column("updatedAt", "updated_at", Kind::Text),
    ];
    proof {
        assert(r.deep_view() =~= thread_tail_plan());
    }
    r
}

/// Members behind which a member stands, unless it is null.
pub open spec fn with_some(members: Seq<(Seq<char>, JsonView)>, key: Seq<char>, value: JsonView) -> Seq<
    (Seq<char>, JsonView),
> {
    if value is Null {
        members
    } else {
        members.push((key, value))
    }
}

fn member_if_some(members: &mut Vec<(String, Json)>, key: &str, value: &Json)
    ensures
        json::members_view(final(members)@) == with_some(
            json::members_view(old(members)@),
            key@,
            value@,
        ),
{
    if !value.is_null() {
        json::member(members, key, value.copy());
    }
}

/// Where a thread started from: a project, and a task of it where there is one.
pub open spec fn origin_of(
    origin: Seq<(Seq<char>, JsonView)>,
    issue: Seq<(Seq<char>, JsonView)>,
) -> JsonView {
    JsonView::Object(
        with_some(
            with_some(origin, "issueId"@, issue[0].1),
            "issueIdentifier"@,
            issue[1].1,
        ),
    )
}

/// The thread that stands in a row, but for its current run.
pub open spec fn thread_of_row(row: Seq<(Seq<char>, SqlView)>) -> Result<JsonView, Seq<char>> {
    match rows::planned(row, issue_plan()) {
        Err(m) => Err(m),
        Ok(issue) => match rows::planned(row, origin_plan()) {
            Err(m) => Err(m),
            Ok(origin) => match rows::planned(row, thread_plan()) {
                Err(m) => Err(m),
                Ok(head) => match rows::planned(row, thread_tail_plan()) {
                    Err(m) => Err(m),
                    Ok(tail) => Ok(
                        JsonView::Object(
                            head.push(("origin"@, origin_of(origin, issue))) + tail,
                        ),
                    ),
                },
            },
        },
    }
}

/// Reads the thread that stands in a row.
pub fn ai_chat_thread_from_row(row: &Row) -> (r: Result<Json, String>)
    ensures
        exchange::says(r, thread_of_row(row@)),
{
    let issue = rows::read_columns(row, issue_columns())?;
    proof {
        rows::lemma_planned_len(row@, issue_plan());
    }
    let mut origin = rows::read_columns(row, origin_columns())?;
    member_if_some(&mut origin, "issueId", &issue[0].1);
    member_if_some(&mut origin, "issueIdentifier", &issue[1].1);
    let mut members = rows::read_columns(row, thread_columns())?;
    json::member(&mut members, "origin", json::object(origin));
    let tail = rows::read_columns(row, thread_tail_columns())?;
    json::more_members(&mut members, tail);
    Ok(json::object(members))
}

/// The query for the run of a thread that is running.
pub open spec fn current_run_query(thread: JsonView) -> StatementView {
    store::stated(
        CURRENT_RUN@,
        store::params().push(store::text_param(tasks::key_of(thread, "id"@))),
    )
}

/// A thread with its current run, which a table shows.
pub open spec fn with_current_run(
    thread: JsonView,
    table: Seq<Seq<(Seq<char>, SqlView)>>,
) -> Result<JsonView, Seq<char>> {
    match ai_runs::first_run(table) {
        Err(m) => Err(m),
        Ok(run) => Ok(tasks::extended(thread, "currentRun"@, json::or_null(run))),
    }
}

fn add_current_run(thread: Json, table: &Vec<Row>) -> (r: Result<Json, String>)
    ensures
        exchange::says(r, with_current_run(thread@, table.deep_view())),
{
    let run = ai_runs::read_first_run(table)?;
    Ok(tasks::extend(thread, "currentRun", json::null_if_none(run)))
}

/// The thread with an identifier and its current run, where there is one; and the place of the next
/// reply. The replies start at `at`.
pub open spec fn thread_at(replies: Seq<ReplyView>, at: int, id: Seq<char>) -> Result<
    (Option<JsonView>, int),
    StepView,
> {
    match exchange::rows_at(
        replies,
        at,
        store::stated(THREAD_BY_ID@, store::params().push(store::text_param(id))),
    ) {
        Err(s) => Err(s),
        Ok(found) => if found.len() == 0 {
            Ok((None, at + 1))
        } else {
            match thread_of_row(found[0]) {
                Err(m) => Err(StepView::Fail(m)),
                Ok(thread) => match exchange::rows_at(replies, at + 1, current_run_query(thread)) {
                    Err(s) => Err(s),
                    Ok(table) => match with_current_run(thread, table) {
                        Err(m) => Err(StepView::Fail(m)),
                        Ok(shown) => Ok((Some(shown), at + 2)),
                    },
                },
            }
        },
    }
}

/// Reads a thread with its current run.
pub fn get_ai_chat_thread(replies: &Vec<Reply>, at: usize, id: &str) -> (r: Result<
    (Option<Json>, usize),
    Step,
>)
    ensures
        exchange::reaches(r, thread_at(replies.deep_view(), at as int, id@)),
        r is Ok ==> (r->Ok_0).1 <= replies@.len(),
{
    let total: usize = replies.len();
    let found = exchange::rows(replies, at, store::keyed(THREAD_BY_ID, id))?;
    if found.len() == 0 {
        return Ok((None, at + 1));
    }
    let thread = store::lift(ai_chat_thread_from_row(&found[0]))?;
    let key = tasks::read_key(&thread, "id");
    let table = exchange::rows(replies, at + 1, store::keyed(CURRENT_RUN, &key))?;
    let shown = store::lift(add_current_run(thread, table))?;
    Ok((Some(shown), at + 2))
}

/// The queries for the current runs of threads.
pub open spec fn current_run_queries(threads: Seq<JsonView>) -> Seq<StatementView> {
    threads.map_values(|thread: JsonView| current_run_query(thread))
}

fn make_run_queries(threads: &Vec<Json>) -> (r: Vec<Statement>)
    ensures
        r.deep_view() == current_run_queries(threads.deep_view()),
        r@.len() == threads@.len(),
{
    let ghost all = current_run_queries(threads.deep_view());
    let mut queries: Vec<Statement> = json::none();
    let mut i: usize = 0;
    proof {
        assert(all.take(0) =~= Seq::empty());
    }
    while i < threads.len()
        invariant
            all == current_run_queries(threads.deep_view()),
            i <= threads@.len(),
            queries.deep_view() == all.take(i as int),
        decreases threads.len() - i,
    {
        json::put(
            &mut queries,
            store::keyed(CURRENT_RUN, &tasks::read_key(&threads[i], "id")),
        );
        proof {
            assert(all.take(i + 1) =~= all.take(i as int).push(all[i as int]));
        }
        i = i + 1;
    }
    proof {
        assert(all.take(i as int) =~= all);
        assert(queries.deep_view().len() == queries@.len());
    }
    queries
}

/// Threads with their current runs, each of which one table shows.
pub open spec fn with_current_runs(
    threads: Seq<JsonView>,
    tables: Seq<Seq<Seq<(Seq<char>, SqlView)>>>,
) -> Result<Seq<JsonView>, Seq<char>>
    decreases threads.len(),
{
    if threads.len() == 0 {
        Ok(Seq::empty())
    } else {
        match with_current_runs(threads.drop_last(), tables) {
            Err(m) => Err(m),
            Ok(done) => match with_current_run(threads.last(), tables[threads.len() - 1]) {
                Err(m) => Err(m),
                Ok(shown) => Ok(done.push(shown)),
            },
        }
    }
}

proof fn lemma_current_runs_error_stays(
    threads: Seq<JsonView>,
    tables: Seq<Seq<Seq<(Seq<char>, SqlView)>>>,
    i: int,
)
    requires
        0 <= i <= threads.len(),
        with_current_runs(threads.take(i), tables) is Err,
    ensures
        with_current_runs(threads, tables) == with_current_runs(threads.take(i), tables),
    decreases threads.len() - i,
{
    if i == threads.len() {
        assert(threads.take(i) =~= threads);
    } else {
        assert(threads.take(i + 1).drop_last() =~= threads.take(i));
        lemma_current_runs_error_stays(threads, tables, i + 1);
    }
}

fn add_current_runs(threads: &Vec<Json>, tables: &Vec<Vec<Row>>) -> (r: Result<Vec<Json>, String>)
    requires
        threads@.len() == tables@.len(),
    ensures
        exchange::says(r, with_current_runs(threads.deep_view(), tables.deep_view())),
{
    let ghost all = threads.deep_view();
    let mut done: Vec<Json> = json::none();
    let mut i: usize = 0;
    proof {
        assert(all.take(0) =~= Seq::empty());
    }
    while i < threads.len()
        invariant
            all == threads.deep_view(),
            i <= threads@.len(),
            threads@.len() == tables@.len(),
            with_current_runs(all.take(i as int), tables.deep_view()) == Ok::<
                Seq<JsonView>,
                Seq<char>,
            >(done.deep_view()),
        decreases threads.len() - i,
    {
        proof {
            assert(all.take(i + 1).drop_last() =~= all.take(i as int));
            assert(all.take(i + 1).last() == threads@[i as int]@);
            if with_current_runs(all.take(i + 1), tables.deep_view()) is Err {
                lemma_current_runs_error_stays(all, tables.deep_view(), i + 1);
            }
        }
        let shown = add_current_run(threads[i].copy(), &tables[i])?;
        json::put(&mut done, shown);
        i = i + 1;
    }
    proof {
        assert(all.take(i as int) =~= all);
    }
    Ok(done)
}

/// All threads with their current runs: row by row, each with its run before the next. They take
/// the first two replies.
pub open spec fn threads_at(replies: Seq<ReplyView>) -> Result<Seq<JsonView>, StepView> {
    match exchange::rows_at(replies, 0, store::stated(LIST_THREADS@, store::params())) {
        Err(s) => Err(s),
        Ok(found) => {
            let read = |row: Seq<(Seq<char>, SqlView)>| thread_of_row(row);
            let threads = rows::leading(found, read);
            match exchange::tables_at(replies, 1, current_run_queries(threads)) {
                Err(s) => Err(s),
                Ok(tables) => store::lifted(
                    rows::unless_faulty(found, read, with_current_runs(threads, tables)),
                ),
            }
        },
    }
}

/// Reads all threads with their current runs.
pub fn list_ai_chat_threads(replies: &Vec<Reply>) -> (r: Result<Vec<Json>, Step>)
    ensures
        exchange::agrees(r, threads_at(replies.deep_view())),
{
    let found = exchange::rows(replies, 0, store::statement(LIST_THREADS, json::none()))?;
    let (threads, fault) = rows::read_leading(
        found,
        ai_chat_thread_from_row,
        Ghost(|row: Seq<(Seq<char>, SqlView)>| thread_of_row(row)),
    );
    let tables = exchange::tables(replies, 1, make_run_queries(&threads))?;
    let shown = store::lift(add_current_runs(&threads, tables))?;
    match fault {
        Some(m) => Err(Step::Fail(m)),
        None => Ok(shown),
    }
}

/// That there is no such thread.
pub open spec fn thread_not_found() -> ResponseView {
    exchange::refusal(404, "AI_CHAT_THREAD_NOT_FOUND"@, "AI chat thread not found"@)
}

/// Answers that there is no such thread.
pub fn no_thread() -> (r: Response)
    ensures
        r@ == thread_not_found(),
{
    exchange::api_error(404, "AI_CHAT_THREAD_NOT_FOUND", "AI chat thread not found")
}

/// The response that shows a thread; the replies start at `at`.
pub open spec fn shown_thread(replies: Seq<ReplyView>, at: int, id: Seq<char>, status: u16) -> Result<
    ResponseView,
    StepView,
> {
    match thread_at(replies, at, id) {
        Err(s) => Err(s),
        Ok((thread, _)) => Ok(
            ResponseView::Json(
                status,
                JsonView::Object(json::members().push(("thread"@, json::or_null(thread)))),
            ),
        ),
    }
}

fn show_thread(replies: &Vec<Reply>, at: usize, id: &str, status: u16) -> (r: Result<
    Response,
    Step,
>)
    ensures
        exchange::agrees(r, shown_thread(replies.deep_view(), at as int, id@, status)),
{
    let (thread, _) = get_ai_chat_thread(replies, at, id)?;
    Ok(Response::Json(status, json::single("thread", json::null_if_none(thread))))
}

/// How a thread with its events and runs is answered.
pub open spec fn snapshot_shown(replies: Seq<ReplyView>, id: Seq<char>) -> Result<
    ResponseView,
    StepView,
> {
    match thread_at(replies, 0, id) {
        Err(s) => Err(s),
        Ok((None, _)) => Ok(thread_not_found()),
        Ok((Some(thread), next)) => match ai_runs::events_at(replies, next, id) {
            Err(s) => Err(s),
            Ok(events) => match ai_runs::runs_at(replies, next + 1, id) {
                Err(s) => Err(s),
                Ok(runs) => Ok(
                    ResponseView::Json(
                        200,
                        JsonView::Object(
                            json::members().push(("thread"@, thread)).push(
                                ("events"@, JsonView::Array(events)),
                            ).push(("runs"@, JsonView::Array(runs))),
                        ),
                    ),
                ),
            },
        },
    }
}

/// Answers with a thread, its events and its runs.
pub fn show_ai_chat_thread(replies: &Vec<Reply>, id: &str) -> (r: Result<Response, Step>)
    ensures
        exchange::agrees(r, snapshot_shown(replies.deep_view(), id@)),
{
    let total: usize = replies.len();
    let (found, next) = get_ai_chat_thread(replies, 0, id)?;
    let thread = match found {
        Some(thread) => thread,
        None => {
            return Ok(no_thread());
        },
    };
    let events = ai_runs::list_ai_chat_events(replies, next, id)?;
    let runs = ai_runs::list_ai_chat_runs(replies, next + 1, id)?;
    let mut members = json::no_members();
    json::member(&mut members, "thread", thread);
    json::member(&mut members, "events", json::array(events));
    json::member(&mut members, "runs", json::array(runs));
    Ok(Response::Json(200, json::object(members)))
}

/// How the stream of a thread is opened: where there is such a thread.
pub open spec fn stream_opened(replies: Seq<ReplyView>, id: Seq<char>) -> Result<
    ResponseView,
    StepView,
> {
    match thread_at(replies, 0, id) {
        Err(s) => Err(s),
        Ok((None, _)) => Ok(thread_not_found()),
        Ok((Some(_), _)) => Ok(ResponseView::AiEventStream(id)),
    }
}

/// Opens the stream of a thread.
pub fn open_ai_event_stream(replies: &Vec<Reply>, id: &str) -> (r: Result<Response, Step>)
    ensures
        exchange::agrees(r, stream_opened(replies.deep_view(), id@)),
{
    let (found, _) = get_ai_chat_thread(replies, 0, id)?;
    if found.is_none() {
        return Ok(no_thread());
    }
    Ok(Response::AiEventStream(id.to_owned()))
}

/// The task that a new thread starts from, where the request names one: it must be in the project
/// and not archived. The replies start at `at`; the place of the next one comes with it.
pub open spec fn issue_at(
    replies: Seq<ReplyView>,
    at: int,
    project_id: Seq<char>,
    body: JsonView,
) -> Result<(Option<JsonView>, int), StepView> {
    match fields::text_of(body, "issueId"@, 128) {
        Err(m) => Err(StepView::Fail(m)),
        Ok(None) => Ok((None, at)),
        Ok(Some(id)) => match tasks::task_at(replies, at, id) {
            Err(s) => Err(s),
            Ok((None, _)) => Err(StepView::Answer(issue_not_found())),
            Ok((Some(task), next)) => if json::text_field(task, "projectId"@) == Some(project_id)
                && json::absent(task, "archivedAt"@) {
                Ok((Some(task), next))
            } else {
                Err(StepView::Answer(issue_not_found()))
            },
        },
    }
}

/// That the task which a thread is to start from is not there.
pub open spec fn issue_not_found() -> ResponseView {
    exchange::refusal(
        404,
        "AI_CHAT_ISSUE_NOT_FOUND"@,
        "Task is not an active task in this project"@,
    )
}

fn no_issue() -> (r: Response)
    ensures
        r@ == issue_not_found(),
{
    exchange::api_error(
        404,
        "AI_CHAT_ISSUE_NOT_FOUND",
        "Task is not an active task in this project",
    )
}

fn read_issue(replies: &Vec<Reply>, at: usize, project_id: &str, body: &Json) -> (r: Result<
    (Option<Json>, usize),
    Step,
>)
    requires
        at <= replies@.len(),
    ensures
        exchange::reaches(r, issue_at(replies.deep_view(), at as int, project_id@, body@)),
        r is Ok ==> (r->Ok_0).1 <= replies@.len(),
{
    let id = match store::lift(fields::string_value(body, "issueId", 128))? {
        Some(id) => id,
        None => {
            return Ok((None, at));
        },
    };
    let (found, next) = tasks::get_task(replies, at, &id)?;
    let task = match found {
        Some(task) => task,
        None => {
            return Err(Step::Answer(no_issue()));
        },
    };
    let inside = match task.text("projectId") {
        Some(s) => text::same(s, project_id),
        None => false,
    };
    if inside && task.lacks("archivedAt") {
        Ok((Some(task), next))
    } else {
        Err(Step::Answer(no_issue()))
    }
}

/// The text of a member of the task that a thread starts from.
pub open spec fn issue_text(issue: Option<JsonView>, key: Seq<char>) -> Option<Seq<char>> {
    match issue {
        Some(task) => json::text_field(task, key),
        None => None,
    }
}

fn read_issue_text(issue: &Option<Json>, key: &str) -> (r: Option<String>)
    ensures
        r.deep_view() == issue_text(issue.deep_view(), key@),
{
    match issue {
        Some(task) => match task.text(key) {
            Some(s) => Some(s.clone()),
            None => None,
        },
        None => None,
    }
}

/// What a new thread is called and how it runs.
pub struct Manner {
    pub title: String,
    pub model: String,
    pub reasoning_effort: String,
    pub sandbox: String,
}

pub struct MannerView {
    pub title: Seq<char>,
    pub model: Seq<char>,
    pub reasoning_effort: Seq<char>,
    pub sandbox: Seq<char>,
}

impl View for Manner {
    type V = MannerView;

    open spec fn view(&self) -> MannerView {
        MannerView {
            title: self.title@,
            model: self.model@,
            reasoning_effort: self.reasoning_effort@,
            sandbox: self.sandbox@,
        }
    }
}

impl DeepView for Manner {
    type V = MannerView;

    open spec fn deep_view(&self) -> MannerView {
        self@
    }
}

/// That a sandbox is none of the known ones.
pub open spec fn invalid_sandbox() -> ResponseView {
    exchange::refusal(
        400,
        "INVALID_SANDBOX"@,
        "sandbox must be read-only, workspace-write, or danger-full-access"@,
    )
}

fn refuse_sandbox() -> (r: Response)
    ensures
        r@ == invalid_sandbox(),
{
    exchange::api_error(
        400,
        "INVALID_SANDBOX",
        "sandbox must be read-only, workspace-write, or danger-full-access",
    )
}

/// What a request says of a new thread, with what stands in for what it does not say.
pub open spec fn manner(
    body: JsonView,
    issue: Option<JsonView>,
    defaults: (Seq<char>, Seq<char>),
) -> Result<MannerView, StepView> {
    match fields::text_of(body, "title"@, 160) {
        Err(m) => Err(StepView::Fail(m)),
        Ok(title) => match fields::text_of(body, "model"@, 128) {
            Err(m) => Err(StepView::Fail(m)),
            Ok(model) => match fields::text_of(body, "reasoningEffort"@, 64) {
                Err(m) => Err(StepView::Fail(m)),
                Ok(effort) => match fields::text_of(body, "sandbox"@, 64) {
                    Err(m) => Err(StepView::Fail(m)),
                    Ok(asked) => {
                        let sandbox = task_edits::text_or(asked, "workspace-write"@);
                        if !ai_models::is_sandbox(sandbox) {
                            Err(StepView::Answer(invalid_sandbox()))
                        } else {
                            Ok(
                                MannerView {
                                    title: task_edits::text_or(
                                        title,
                                        task_edits::text_or(
                                            issue_text(issue, "identifier"@),
                                            "New conversation"@,
                                        ),
                                    ),
                                    model: task_edits::text_or(model, defaults.0),
                                    reasoning_effort: task_edits::text_or(effort, defaults.1),
                                    sandbox,
                                },
                            )
                        }
                    },
                },
            },
        },
    }
}

fn read_manner(body: &Json, issue: &Option<Json>, model: &str, effort: &str) -> (r: Result<
    Manner,
    Step,
>)
    ensures
        exchange::agrees(r, manner(body@, issue.deep_view(), (model@, effort@))),
{
    let asked_title = store::lift(fields::string_value(body, "title", 160))?;
    let asked_model = store::lift(fields::string_value(body, "model", 128))?;
    let asked_effort = store::lift(fields::string_value(body, "reasoningEffort", 64))?;
    let asked_sandbox = store::lift(fields::string_value(body, "sandbox", 64))?;
    let sandbox = task_edits::or_text(asked_sandbox, "workspace-write");
    if !ai_models::is_ai_sandbox(&sandbox) {
        return Err(Step::Answer(refuse_sandbox()));
    }
    let named = task_edits::or_text(read_issue_text(issue, "identifier"), "New conversation");
    Ok(
        Manner {
            title: task_edits::or_text(asked_title, &named),
            model: task_edits::or_text(asked_model, model),
            reasoning_effort: task_edits::or_text(asked_effort, effort),
            sandbox,
        },
    )
}

/// The statement that adds a thread.
pub open spec fn thread_insert(
    id: Seq<char>,
    workspace: AiWorkspaceView,
    issue: Option<JsonView>,
    codex_thread_id: Option<Seq<char>>,
    manner: MannerView,
    timestamp: Seq<char>,
) -> StatementView {
    store::stated(
        INSERT_THREAD@,
        store::params().push(store::text_param(id)).push(store::text_param(manner.title)).push(
            store::text_param(workspace.project_id),
        ).push(store::text_param(workspace.project_name)).push(
            store::text_param(workspace.workspace_path),
        ).push(store::optional_param(issue_text(issue, "id"@))).push(
            store::optional_param(issue_text(issue, "identifier"@)),
        ).push(store::optional_param(codex_thread_id)).push(
            store::text_param(manner.model),
        ).push(store::text_param(manner.reasoning_effort)).push(
            store::text_param(manner.sandbox),
        ).push(store::text_param(timestamp)),
    )
}

fn make_thread_insert(
    id: &str,
    workspace: &AiWorkspace,
    issue: &Option<Json>,
    codex_thread_id: Option<String>,
    manner: &Manner,
    timestamp: &str,
) -> (r: Statement)
    ensures
        r@ == thread_insert(
            id@,
            workspace@,
            issue.deep_view(),
            codex_thread_id.deep_view(),
            manner@,
            timestamp@,
        ),
{
    let mut values: Vec<SqlValue> = json::none();
    store::bind_text(&mut values, id);
    store::bind_text(&mut values, &manner.title);
    store::bind_text(&mut values, &workspace.project_id);
    store::bind_text(&mut values, &workspace.project_name);
    store::bind_text(&mut values, &workspace.workspace_path);
    json::put(&mut values, store::sql_optional(read_issue_text(issue, "id")));
    json::put(&mut values, store::sql_optional(read_issue_text(issue, "identifier")));
    json::put(&mut values, store::sql_optional(codex_thread_id));
    store::bind_text(&mut values, &manner.model);
    store::bind_text(&mut values, &manner.reasoning_effort);
    store::bind_text(&mut values, &manner.sandbox);
    store::bind_text(&mut values, timestamp);
    store::statement(INSERT_THREAD, values)
}

/// How a new thread is stored and shown. The replies start at `at`.
pub open spec fn thread_stored(
    replies: Seq<ReplyView>,
    at: int,
    workspace: AiWorkspaceView,
    issue: Option<JsonView>,
    body: JsonView,
    manner: MannerView,
) -> Result<ResponseView, StepView> {
    match store::id_at(replies, at) {
        Err(s) => Err(s),
        Ok(id) => match store::now_at(replies, at + 1) {
            Err(s) => Err(s),
            Ok(timestamp) => match fields::text_of(body, "codexThreadId"@, 256) {
                Err(m) => Err(StepView::Fail(m)),
                Ok(codex_thread_id) => match exchange::changed_at(
                    replies,
                    at + 2,
                    thread_insert(id, workspace, issue, codex_thread_id, manner, timestamp),
                ) {
                    Err(s) => Err(s),
                    Ok(_) => shown_thread(replies, at + 3, id, 201),
                },
            },
        },
    }
}

fn store_thread(
    replies: &Vec<Reply>,
    at: usize,
    workspace: &AiWorkspace,
    issue: &Option<Json>,
    body: &Json,
    manner: &Manner,
) -> (r: Result<Response, Step>)
    ensures
        exchange::agrees(
            r,
            thread_stored(
                replies.deep_view(),
                at as int,
                workspace@,
                issue.deep_view(),
                body@,
                manner@,
            ),
        ),
{
    let total: usize = replies.len();
    let id = store::new_id_from(replies, at)?;
    let timestamp = store::db_now(replies, at + 1)?;
    let codex_thread_id = store::lift(fields::string_value(body, "codexThreadId", 256))?;
    let _ = exchange::changed(
        replies,
        at + 2,
        make_thread_insert(id, workspace, issue, codex_thread_id, manner, &timestamp),
    )?;
    show_thread(replies, at + 3, id, 201)
}

/// How the creation of a thread goes.
pub open spec fn thread_created(replies: Seq<ReplyView>, body: JsonView) -> Result<
    ResponseView,
    StepView,
> {
    match fields::required_text(body, "projectId"@, 64) {
        Err(m) => Err(StepView::Fail(m)),
        Ok(project_id) => match ai_models::workspace_at(replies, project_id) {
            Err(s) => Err(s),
            Ok(workspace) => match issue_at(replies, 2, project_id, body) {
                Err(s) => Err(s),
                Ok((issue, next)) => match ai_models::configured_at(replies, next) {
                    Err(s) => Err(s),
                    Ok(defaults) => match manner(body, issue, defaults) {
                        Err(s) => Err(s),
                        Ok(manner) => thread_stored(
                            replies,
                            next + 1,
                            workspace,
                            issue,
                            body,
                            manner,
                        ),
                    },
                },
            },
        },
    }
}

/// Creates a thread.
pub fn create_ai_chat_thread(replies: &Vec<Reply>, body: &Json) -> (r: Result<Response, Step>)
    ensures
        exchange::agrees(r, thread_created(replies.deep_view(), body@)),
{
    let total: usize = replies.len();
    let project_id = store::lift(fields::required_string(body, "projectId", 64))?;
    let workspace = ai_models::resolve_ai_workspace(replies, &project_id)?;
    let (issue, next) = read_issue(replies, 2, &project_id, body)?;
    let (model, effort) = ai_models::read_configured(replies, next)?;
    let manner = read_manner(body, &issue, &model, &effort)?;
    store_thread(replies, next + 1, &workspace, &issue, body, &manner)
}

/// That a thread has a run which is not over.
pub open spec fn thread_busy() -> ResponseView {
    exchange::refusal(409, "THREAD_BUSY"@, "AI chat thread has a running turn"@)
}

/// The thread with an identifier, which must be there and have no run that is not over; and the
/// place of the next reply.
pub open spec fn resting_thread(replies: Seq<ReplyView>, id: Seq<char>) -> Result<
    (JsonView, int),
    StepView,
> {
    match thread_at(replies, 0, id) {
        Err(s) => Err(s),
        Ok((None, _)) => Err(StepView::Answer(thread_not_found())),
        Ok((Some(thread), next)) => if !json::absent(thread, "currentRun"@) {
            Err(StepView::Answer(thread_busy()))
        } else {
            Ok((thread, next))
        },
    }
}

/// Reads a thread that has no run which is not over.
pub fn read_resting_thread(replies: &Vec<Reply>, id: &str) -> (r: Result<(Json, usize), Step>)
    ensures
        exchange::reaches(r, resting_thread(replies.deep_view(), id@)),
        r is Ok ==> (r->Ok_0).1 <= replies@.len(),
{
    let (found, next) = get_ai_chat_thread(replies, 0, id)?;
    let thread = match found {
        Some(thread) => thread,
        None => {
            return Err(Step::Answer(no_thread()));
        },
    };
    if !thread.lacks("currentRun") {
        return Err(
            Step::Answer(
                exchange::api_error(409, "THREAD_BUSY", "AI chat thread has a running turn"),
            ),
        );
    }
    Ok((thread, next))
}

/// The changes that an update of a thread makes.
pub open spec fn thread_changes(body: JsonView) -> Result<ChangesView, StepView> {
    match task_edits::with_required(ChangesView::none(), body, "title"@, 160, "title = ?"@) {
        Err(m) => Err(StepView::Fail(m)),
        Ok(titled) => match task_edits::with_required(
            titled,
            body,
            "model"@,
            128,
            "model = ?"@,
        ) {
            Err(m) => Err(StepView::Fail(m)),
            Ok(modelled) => match task_edits::with_required(
                modelled,
                body,
                "reasoningEffort"@,
                64,
                "reasoning_effort = ?"@,
            ) {
                Err(m) => Err(StepView::Fail(m)),
                Ok(weighed) => with_sandbox(weighed, body),
            },
        },
    }
}

/// The change that a sandbox makes.
pub open spec fn with_sandbox(changes: ChangesView, body: JsonView) -> Result<
    ChangesView,
    StepView,
> {
    if json::field(body, "sandbox"@) is None {
        Ok(changes)
    } else {
        match fields::required_text(body, "sandbox"@, 64) {
            Err(m) => Err(StepView::Fail(m)),
            Ok(sandbox) => if !ai_models::is_sandbox(sandbox) {
                Err(StepView::Answer(invalid_sandbox()))
            } else {
                Ok(changes.with("sandbox = ?"@, SqlView::Text(sandbox)))
            },
        }
    }
}

fn read_thread_changes(body: &Json) -> (r: Result<Changes, Step>)
    ensures
        exchange::agrees(r, thread_changes(body@)),
{
    let mut changes = Changes::none();
    store::lift(
        task_edits::push_string_change(&mut changes, body, "title", 160, "title = ?"),
    )?;
    store::lift(
        task_edits::push_string_change(&mut changes, body, "model", 128, "model = ?"),
    )?;
    store::lift(
        task_edits::push_string_change(
            &mut changes,
            body,
            "reasoningEffort",
            64,
            "reasoning_effort = ?",
        ),
    )?;
    if body.get("sandbox").is_some() {
        let sandbox = store::lift(fields::required_string(body, "sandbox", 64))?;
        if !ai_models::is_ai_sandbox(&sandbox) {
            return Err(Step::Answer(refuse_sandbox()));
        }
        changes.set("sandbox = ?", SqlValue::Text(sandbox));
    }
    Ok(changes)
}

/// The statement that applies changes to a thread.
pub open spec fn thread_update(
    changes: ChangesView,
    id: Seq<char>,
    timestamp: Seq<char>,
) -> StatementView {
    store::stated(
        "UPDATE ai_chat_threads SET "@ + text::joined(
            changes.assignments.push("updated_at = ?"@),
            ", "@,
        ) + " WHERE id = ?"@,
        changes.values.push(store::text_param(timestamp)).push(store::text_param(id)),
    )
}

fn make_thread_update(changes: Changes, id: &str, timestamp: &str) -> (r: Statement)
    ensures
        r@ == thread_update(changes@, id@, timestamp@),
{
    let mut changes = changes;
    changes.set("updated_at = ?", SqlValue::Text(timestamp.to_owned()));
    let Changes { assignments, values } = changes;
    let mut values = values;
    store::bind_text(&mut values, id);
    let mut sql = "UPDATE ai_chat_threads SET ".to_owned();
    sql.append(&text::join(&assignments, ", "));
    sql.append(" WHERE id = ?");
    store::statement(&sql, values)
}

/// How an update of a thread goes.
pub open spec fn thread_updated(replies: Seq<ReplyView>, id: Seq<char>, body: JsonView) -> Result<
    ResponseView,
    StepView,
> {
    match resting_thread(replies, id) {
        Err(s) => Err(s),
        Ok((_, next)) => match thread_changes(body) {
            Err(s) => Err(s),
            Ok(changes) => if changes.assignments.len() == 0 {
                Ok(
                    exchange::refusal(
                        400,
                        "INVALID_BODY"@,
                        "PATCH requires at least one thread setting"@,
                    ),
                )
            } else {
                match store::now_at(replies, next) {
                    Err(s) => Err(s),
                    Ok(timestamp) => match exchange::changed_at(
                        replies,
                        next + 1,
                        thread_update(changes, id, timestamp),
                    ) {
                        Err(s) => Err(s),
                        Ok(_) => shown_thread(replies, next + 2, id, 200),
                    },
                }
            },
        },
    }
}

/// Updates a thread.
pub fn update_ai_chat_thread(replies: &Vec<Reply>, id: &str, body: &Json) -> (r: Result<
    Response,
    Step,
>)
    ensures
        exchange::agrees(r, thread_updated(replies.deep_view(), id@, body@)),
{
    let total: usize = replies.len();
    let (_, next) = read_resting_thread(replies, id)?;
    let changes = read_thread_changes(body)?;
    if changes.assignments.len() == 0 {
        return Ok(
            exchange::api_error(400, "INVALID_BODY", "PATCH requires at least one thread setting"),
        );
    }
    let timestamp = store::db_now(replies, next)?;
    let _ = exchange::changed(replies, next + 1, make_thread_update(changes, id, &timestamp))?;
    show_thread(replies, next + 2, id, 200)
}

/// How the deletion of a thread goes.
pub open spec fn thread_deleted(replies: Seq<ReplyView>, id: Seq<char>) -> Result<
    ResponseView,
    StepView,
> {
    match resting_thread(replies, id) {
        Err(s) => Err(s),
        Ok((_, next)) => match exchange::changed_at(
            replies,
            next,
            store::stated(DELETE_THREAD@, store::params().push(store::text_param(id))),
        ) {
            Err(s) => Err(s),
            Ok(_) => Ok(ResponseView::Empty(204)),
        },
    }
}

/// Deletes a thread.
pub fn delete_ai_chat_thread(replies: &Vec<Reply>, id: &str) -> (r: Result<Response, Step>)
    ensures
        exchange::agrees(r, thread_deleted(replies.deep_view(), id@)),
{
    let (_, next) = read_resting_thread(replies, id)?;
    let _ = exchange::changed(replies, next, store::keyed(DELETE_THREAD, id))?;
    Ok(Response::Empty(204))
}

/// A thread with a run that is not over is neither changed nor deleted.
pub proof fn law_busy_thread_stays(
    replies: Seq<ReplyView>,
    id: Seq<char>,
    body: JsonView,
    thread: JsonView,
    next: int,
)
    requires
        thread_at(replies, 0, id) == Ok::<(Option<JsonView>, int), StepView>(
            (Some(thread), next),
        ),
        !json::absent(thread, "currentRun"@),
    ensures
        thread_updated(replies, id, body) == Err::<ResponseView, StepView>(
            StepView::Answer(thread_busy()),
        ),
        thread_deleted(replies, id) == Err::<ResponseView, StepView>(
            StepView::Answer(thread_busy()),
        ),
{
}

/// A thread runs only in a sandbox that the store admits, whether it is created with it or changed
/// to it.
pub proof fn law_sandbox_is_known(
    body: JsonView,
    issue: Option<JsonView>,
    defaults: (Seq<char>, Seq<char>),
    changes: ChangesView,
)
    ensures
        manner(body, issue, defaults) is Ok ==> ai_models::is_sandbox(
            (manner(body, issue, defaults)->Ok_0).sandbox,
        ),
        with_sandbox(changes, body) is Ok && json::field(body, "sandbox"@) is Some
            ==> ai_models::is_sandbox(
            ((with_sandbox(changes, body)->Ok_0).values.last())->Text_0,
        ),
{
}

} // verus!
