//! Runs of conversations and what happens in them, as they stand in the store.
use crate::exchange;
use crate::exchange::{
    Action, ActionView, Reply, ReplyView, Response, ResponseView, Row, SqlValue, SqlView,
    StatementView, Step, StepView,
};
use crate::json;
use crate::json::{Json, JsonView};
use crate::rows;
use crate::rows::{Column, Kind};
use crate::store;
use crate::text;
use vstd::prelude::*;

verus! {

pub const RUN_BY_ID: &'static str = "SELECT * FROM ai_chat_runs WHERE id = ?1";

pub const LIST_RUNS: &'static str = "SELECT * FROM ai_chat_runs WHERE thread_id = ?1 ORDER BY started_at, id";

pub const INSERT_RUN: &'static str = "
            INSERT INTO ai_chat_runs (id, thread_id, status, exit_code, error, started_at, finished_at)
            VALUES (?1, ?2, 'running', NULL, NULL, ?3, NULL)
            ";

pub const THREAD_RUNS: &'static str = "UPDATE ai_chat_threads SET status = 'running', updated_at = ?1 WHERE id = ?2";

pub const UPDATE_RUN: &'static str = "
            UPDATE ai_chat_runs
            SET status = ?1, exit_code = ?2, error = ?3, finished_at = ?4
            WHERE id = ?5
            ";

pub const RUN_THREAD: &'static str = "SELECT thread_id FROM ai_chat_runs WHERE id = ?1";

pub const THREAD_RESTS: &'static str = "
                UPDATE ai_chat_threads
                SET status = ?1, updated_at = COALESCE(?2, updated_at)
                WHERE id = ?3
                  AND NOT EXISTS (
                    SELECT 1 FROM ai_chat_runs
                    WHERE thread_id = ?3 AND status = 'running'
                  )
                ";

pub const INSERT_EVENT: &'static str = "
        INSERT INTO ai_chat_events (id, thread_id, run_id, type, role, content, data, created_at)
        VALUES (?1, ?2, ?3, ?4, ?5, ?6, ?7, ?8)
        ";

pub const EVENT_BY_ID: &'static str = "SELECT * FROM ai_chat_events WHERE id = ?1";

pub const LIST_EVENTS: &'static str = "SELECT * FROM ai_chat_events WHERE thread_id = ?1 ORDER BY created_at, rowid";

pub const BEGIN: &'static str = "BEGIN IMMEDIATE";

pub const COMMIT: &'static str = "COMMIT";

pub const ROLLBACK: &'static str = "ROLLBACK";

/// What is shown of a run.
pub open spec fn run_plan() -> Seq<(Seq<char>, Seq<char>, Kind)> {
    seq![
        ("id"@, "id"@, Kind::Text),
        ("threadId"@, "thread_id"@, Kind::Text),
        ("status"@, "status"@, Kind::Text),
        ("exitCode"@, "exit_code"@, Kind::OptionalInteger),
        ("error"@, "error"@, Kind::OptionalText),
        ("startedAt"@, "started_at"@, Kind::Text),
        ("finishedAt"@, "finished_at"@, Kind::OptionalText),
    ]
}

/// The run that stands in a row.
pub open spec fn run_of_row(row: Seq<(Seq<char>, SqlView)>) -> Result<JsonView, Seq<char>> {
    rows::row_object(row, run_plan())
}

/// Reads the run that stands in a row.
pub fn ai_chat_run_from_row(row: &Row) -> (r: Result<Json, String>)
    ensures
        exchange::says(r, run_of_row(row@)),
{
    let columns = vec![
        rows::column("id", "id", Kind::Text),
        rows::column("threadId", "thread_id", Kind::Text),
        rows::column("status", "status", Kind::Text),
        rows::column("exitCode", "exit_code", Kind::OptionalInteger),
        rows::column("error", "error", Kind::OptionalText),
        rows::column("startedAt", "started_at", Kind::Text),
        rows::column("finishedAt", "finished_at", Kind::OptionalText),
    ];
    proof {
        assert(columns.deep_view() =~= run_plan());
    }
    rows::read_object(row, columns)
}

/// The run that the first of some rows shows, where there is one.
pub open spec fn first_run(found: Seq<Seq<(Seq<char>, SqlView)>>) -> Result<
    Option<JsonView>,
    Seq<char>,
> {
    if found.len() == 0 {
        Ok(None)
    } else {
        match run_of_row(found[0]) {
            Err(m) => Err(m),
            Ok(run) => Ok(Some(run)),
        }
    }
}

/// Reads the run that the first of some rows shows.
pub fn read_first_run(found: &Vec<Row>) -> (r: Result<Option<Json>, String>)
    ensures
        exchange::says(r, first_run(found.deep_view())),
{
    if found.len() == 0 {
        return Ok(None);
    }
    let run = ai_chat_run_from_row(&found[0])?;
    Ok(Some(run))
}

/// The run with an identifier, the reply at `at`.
pub open spec fn run_at(replies: Seq<ReplyView>, at: int, id: Seq<char>) -> Result<
    Option<JsonView>,
    StepView,
> {
    match exchange::rows_at(
        replies,
        at,
        store::stated(RUN_BY_ID@, store::params().push(store::text_param(id))),
    ) {
        Err(s) => Err(s),
        Ok(found) => store::lifted(first_run(found)),
    }
}

/// Reads a run.
pub fn get_ai_chat_run(replies: &Vec<Reply>, at: usize, id: &str) -> (r: Result<Option<Json>, Step>)
    ensures
        exchange::agrees(r, run_at(replies.deep_view(), at as int, id@)),
        r is Ok ==> at < replies@.len(),
{
    let found = exchange::rows(replies, at, store::keyed(RUN_BY_ID, id))?;
    store::lift(read_first_run(found))
}

/// The runs of a thread, the reply at `at`.
pub open spec fn runs_at(replies: Seq<ReplyView>, at: int, thread_id: Seq<char>) -> Result<
    Seq<JsonView>,
    StepView,
> {
    match exchange::rows_at(
        replies,
        at,
        store::stated(LIST_RUNS@, store::params().push(store::text_param(thread_id))),
    ) {
        Err(s) => Err(s),
        Ok(found) => store::lifted(
            rows::each_row(found, |row: Seq<(Seq<char>, SqlView)>| run_of_row(row)),
        ),
    }
}

/// Reads the runs of a thread.
pub fn list_ai_chat_runs(replies: &Vec<Reply>, at: usize, thread_id: &str) -> (r: Result<
    Vec<Json>,
    Step,
>)
    ensures
        exchange::agrees(r, runs_at(replies.deep_view(), at as int, thread_id@)),
{
    let found = exchange::rows(replies, at, store::keyed(LIST_RUNS, thread_id))?;
    store::lift(
        rows::read_rows(
            found,
            ai_chat_run_from_row,
            Ghost(|row: Seq<(Seq<char>, SqlView)>| run_of_row(row)),
        ),
    )
}

/// How a transaction ends that failed with a message: it is rolled back, whether or not that
/// succeeds, and the message stays.
pub open spec fn rolled_back(replies: Seq<ReplyView>, at: int, message: Seq<char>) -> StepView {
    if at >= replies.len() {
        StepView::Ask(ActionView::Batch(ROLLBACK@))
    } else {
        StepView::Fail(message)
    }
}

fn roll_back(replies: &Vec<Reply>, at: usize, message: String) -> (r: Step)
    ensures
        r@ == rolled_back(replies.deep_view(), at as int, message@),
{
    if at >= replies.len() {
        Step::Ask(Action::Batch(ROLLBACK.to_owned()))
    } else {
        Step::Fail(message)
    }
}

/// The step at which part of a transaction stopped: where it failed, the transaction is rolled
/// back. The reply to the part stands before `at`.
pub open spec fn broken_off(replies: Seq<ReplyView>, at: int, step: StepView) -> StepView {
    match step {
        StepView::Fail(m) => rolled_back(replies, at, m),
        other => other,
    }
}

fn break_off(replies: &Vec<Reply>, at: usize, step: Step) -> (r: Step)
    ensures
        r@ == broken_off(replies.deep_view(), at as int, step@),
{
    match step {
        Step::Fail(m) => roll_back(replies, at, m),
        other => other,
    }
}

/// The statement that adds a run.
pub open spec fn run_insert(
    id: Seq<char>,
    thread_id: Seq<char>,
    timestamp: Seq<char>,
) -> StatementView {
    store::stated(
        INSERT_RUN@,
        store::params().push(store::text_param(id)).push(store::text_param(thread_id)).push(
            store::text_param(timestamp),
        ),
    )
}

/// The statement that marks a thread as running.
pub open spec fn thread_runs(thread_id: Seq<char>, timestamp: Seq<char>) -> StatementView {
    store::stated(
        THREAD_RUNS@,
        store::params().push(store::text_param(timestamp)).push(store::text_param(thread_id)),
    )
}

/// How a run is created: in one transaction it is added and its thread is marked as running. The
/// replies start at `at`; the place of the next one comes with the run.
pub open spec fn run_created(replies: Seq<ReplyView>, at: int, thread_id: Seq<char>) -> Result<
    (JsonView, int),
    StepView,
> {
    match store::id_at(replies, at) {
        Err(s) => Err(s),
        Ok(id) => match store::now_at(replies, at + 1) {
            Err(s) => Err(s),
            Ok(timestamp) => match exchange::done_at(replies, at + 2, ActionView::Batch(BEGIN@)) {
                Err(s) => Err(s),
                Ok(_) => match exchange::changed_at(
                    replies,
                    at + 3,
                    run_insert(id, thread_id, timestamp),
                ) {
                    Err(s) => Err(broken_off(replies, at + 4, s)),
                    Ok(_) => match exchange::changed_at(
                        replies,
                        at + 4,
                        thread_runs(thread_id, timestamp),
                    ) {
                        Err(s) => Err(broken_off(replies, at + 5, s)),
                        Ok(_) => match exchange::done_at(
                            replies,
                            at + 5,
                            ActionView::Batch(COMMIT@),
                        ) {
                            Err(s) => Err(s),
                            Ok(_) => match run_at(replies, at + 6, id) {
                                Err(s) => Err(s),
                                Ok(None) => Err(StepView::Fail("created run"@)),
                                Ok(Some(run)) => Ok((run, at + 7)),
                            },
                        },
                    },
                },
            },
        },
    }
}

/// Creates a run, and marks its thread as running.
pub fn create_ai_chat_run(replies: &Vec<Reply>, at: usize, thread_id: &str) -> (r: Result<
    (Json, usize),
    Step,
>)
    ensures
        exchange::reaches(r, run_created(replies.deep_view(), at as int, thread_id@)),
        r is Ok ==> (r->Ok_0).1 <= replies@.len(),
{
    let total: usize = replies.len();
    let id = store::new_id_from(replies, at)?;
    let timestamp = store::db_now(replies, at + 1)?;
    exchange::done(replies, at + 2, Action::Batch(BEGIN.to_owned()))?;
    let mut values: Vec<SqlValue> = json::none();
    store::bind_text(&mut values, id);
    store::bind_text(&mut values, thread_id);
    store::bind_text(&mut values, &timestamp);
    match exchange::changed(replies, at + 3, store::statement(INSERT_RUN, values)) {
        Ok(_) => {},
        Err(s) => {
            if at + 3 >= total {
                return Err(s);
            }
            return Err(break_off(replies, at + 4, s));
        },
    }
    let mut marked: Vec<SqlValue> = json::none();
    store::bind_text(&mut marked, &timestamp);
    store::bind_text(&mut marked, thread_id);
    match exchange::changed(replies, at + 4, store::statement(THREAD_RUNS, marked)) {
        Ok(_) => {},
        Err(s) => {
            if at + 4 >= total {
                return Err(s);
            }
            return Err(break_off(replies, at + 5, s));
        },
    }
    exchange::done(replies, at + 5, Action::Batch(COMMIT.to_owned()))?;
    match get_ai_chat_run(replies, at + 6, id)? {
        Some(run) => Ok((run, at + 7)),
        None => Err(Step::Fail("created run".to_owned())),
    }
}

/// An exit code as a parameter.
pub open spec fn exit_param(exit_code: Option<i32>) -> SqlView {
    match exit_code {
        Some(i) => SqlView::Integer(i as int),
        None => SqlView::Null,
    }
}

/// The statement that sets how a run stands.
pub open spec fn run_update(
    run_id: Seq<char>,
    status: Seq<char>,
    exit_code: Option<i32>,
    error: Option<Seq<char>>,
    finished_at: Option<Seq<char>>,
) -> StatementView {
    store::stated(
        UPDATE_RUN@,
        store::params().push(store::text_param(status)).push(exit_param(exit_code)).push(
            store::optional_param(error),
        ).push(store::optional_param(finished_at)).push(store::text_param(run_id)),
    )
}

/// How the thread of a run stands that ended with a status.
pub open spec fn resting_status(status: Seq<char>) -> Seq<char> {
    if status == "failed"@ {
        "failed"@
    } else {
        "idle"@
    }
}

/// The statement that marks a thread as resting, where no run of it is running.
pub open spec fn thread_rests(
    thread_id: Seq<char>,
    status: Seq<char>,
    finished_at: Option<Seq<char>>,
) -> StatementView {
    store::stated(
        THREAD_RESTS@,
        store::params().push(store::text_param(resting_status(status))).push(
            store::optional_param(finished_at),
        ).push(store::text_param(thread_id)),
    )
}

/// How the thread of a run is marked when the run ends. The replies start at `at`; the result is
/// the place of the next one.
pub open spec fn thread_marked(
    replies: Seq<ReplyView>,
    at: int,
    thread_id: Seq<char>,
    status: Seq<char>,
    finished_at: Option<Seq<char>>,
) -> Result<int, StepView> {
    if status == "running"@ {
        Ok(at)
    } else {
        match exchange::changed_at(replies, at, thread_rests(thread_id, status, finished_at)) {
            Err(s) => Err(broken_off(replies, at + 1, s)),
            Ok(_) => Ok(at + 1),
        }
    }
}

/// How a run is updated: in one transaction it gets its status, and its thread is marked as resting
/// unless the run goes on. The replies start at `at`; the place of the next one comes with the run.
pub open spec fn run_updated(
    replies: Seq<ReplyView>,
    at: int,
    run_id: Seq<char>,
    status: Seq<char>,
    exit_code: Option<i32>,
    error: Option<Seq<char>>,
    finished_at: Option<Seq<char>>,
) -> Result<(JsonView, int), StepView> {
    match exchange::done_at(replies, at, ActionView::Batch(BEGIN@)) {
        Err(s) => Err(s),
        Ok(_) => match exchange::changed_at(
            replies,
            at + 1,
            run_update(run_id, status, exit_code, error, finished_at),
        ) {
            Err(s) => Err(broken_off(replies, at + 2, s)),
            Ok(_) => match exchange::rows_at(
                replies,
                at + 2,
                store::stated(RUN_THREAD@, store::params().push(store::text_param(run_id))),
            ) {
                Err(s) => Err(broken_off(replies, at + 3, s)),
                Ok(found) => match store::single_text(found) {
                    Err(m) => Err(rolled_back(replies, at + 3, m)),
                    Ok(thread_id) => match thread_marked(
                        replies,
                        at + 3,
                        thread_id,
                        status,
                        finished_at,
                    ) {
                        Err(s) => Err(s),
                        Ok(next) => match exchange::done_at(
                            replies,
                            next,
                            ActionView::Batch(COMMIT@),
                        ) {
                            Err(s) => Err(s),
                            Ok(_) => match run_at(replies, next + 1, run_id) {
                                Err(s) => Err(s),
                                Ok(None) => Err(StepView::Fail("updated run"@)),
                                Ok(Some(run)) => Ok((run, next + 2)),
                            },
                        },
                    },
                },
            },
        },
    }
}

fn mark_thread(
    replies: &Vec<Reply>,
    at: usize,
    thread_id: &str,
    status: &str,
    finished_at: Option<String>,
) -> (r: Result<usize, Step>)
    requires
        at <= replies@.len(),
    ensures
        match r {
            Ok(next) => thread_marked(
                replies.deep_view(),
                at as int,
                thread_id@,
                status@,
                finished_at.deep_view(),
            ) == Ok::<int, StepView>(next as int) && next <= replies@.len(),
            Err(s) => thread_marked(
                replies.deep_view(),
                at as int,
                thread_id@,
                status@,
                finished_at.deep_view(),
            ) == Err::<int, StepView>(s@),
        },
{
    let total: usize = replies.len();
    if text::same(status, "running") {
        return Ok(at);
    }
    let resting = if text::same(status, "failed") {
        "failed"
    } else {
        "idle"
    };
    let mut values: Vec<SqlValue> = json::none();
    store::bind_text(&mut values, resting);
    json::put(&mut values, store::sql_optional(finished_at));
    store::bind_text(&mut values, thread_id);
    match exchange::changed(replies, at, store::statement(THREAD_RESTS, values)) {
        Ok(_) => Ok(at + 1),
        Err(s) => {
            if at >= total {
                return Err(s);
            }
            Err(break_off(replies, at + 1, s))
        },
    }
}

fn copy_optional(s: Option<&str>) -> (r: Option<String>)
    ensures
        r.deep_view() == s.deep_view(),
{
    match s {
        Some(s) => Some(s.to_owned()),
        None => None,
    }
}

/// Updates a run, and marks its thread as resting unless the run goes on.
pub fn update_ai_chat_run(
    replies: &Vec<Reply>,
    at: usize,
    run_id: &str,
    status: &str,
    exit_code: Option<i32>,
    error: Option<&str>,
    finished_at: Option<&str>,
) -> (r: Result<(Json, usize), Step>)
    ensures
        exchange::reaches(
            r,
            run_updated(
                replies.deep_view(),
                at as int,
                run_id@,
                status@,
                exit_code,
                error.deep_view(),
                finished_at.deep_view(),
            ),
        ),
        r is Ok ==> (r->Ok_0).1 <= replies@.len(),
{
    let total: usize = replies.len();
    exchange::done(replies, at, Action::Batch(BEGIN.to_owned()))?;
    let mut values: Vec<SqlValue> = json::none();
    store::bind_text(&mut values, status);
    match exit_code {
        Some(i) => {
            json::put(&mut values, SqlValue::Integer(i as i64));
        },
        None => {
            json::put(&mut values, SqlValue::Null);
        },
    }
    json::put(&mut values, store::sql_optional(copy_optional(error)));
    json::put(&mut values, store::sql_optional(copy_optional(finished_at)));
    store::bind_text(&mut values, run_id);
    match exchange::changed(replies, at + 1, store::statement(UPDATE_RUN, values)) {
        Ok(_) => {},
        Err(s) => {
            if at + 1 >= total {
                return Err(s);
            }
            return Err(break_off(replies, at + 2, s));
        },
    }
    let found = match exchange::rows(replies, at + 2, store::keyed(RUN_THREAD, run_id)) {
        Ok(found) => found,
        Err(s) => {
            if at + 2 >= total {
                return Err(s);
            }
            return Err(break_off(replies, at + 3, s));
        },
    };
    let thread_id = match store::read_single_text(found) {
        Ok(thread_id) => thread_id,
        Err(m) => {
            return Err(roll_back(replies, at + 3, m));
        },
    };
    let next: usize = mark_thread(
        replies,
        at + 3,
        &thread_id,
        status,
        copy_optional(finished_at),
    )?;
    exchange::done(replies, next, Action::Batch(COMMIT.to_owned()))?;
    match get_ai_chat_run(replies, next + 1, run_id)? {
        Some(run) => Ok((run, next + 2)),
        None => Err(Step::Fail("updated run".to_owned())),
    }
}

/// What is shown of an event before its data.
pub open spec fn event_plan() -> Seq<(Seq<char>, Seq<char>, Kind)> {
    seq![
        ("id"@, "id"@, Kind::Text),
        ("threadId"@, "thread_id"@, Kind::Text),
        ("runId"@, "run_id"@, Kind::OptionalText),
        ("type"@, "type"@, Kind::Text),
        ("role"@, "role"@, Kind::Text),
        ("content"@, "content"@, Kind::Text),
    ]
}

fn event_columns() -> (r: Vec<Column>)
    ensures
        r.deep_view() == event_plan(),
{
    let r = vec![
        rows::column("id", "id", Kind::Text),
        rows::column("threadId", "thread_id", Kind::Text),
        rows::column("runId", "run_id", Kind::OptionalText),
        rows::column("type", "type", Kind::Text),
        rows::column("role", "role", Kind::Text),
        rows::column("content", "content", Kind::Text),
    ];
    proof {
        assert(r.deep_view() =~= event_plan());
    }
    r
}

/// The data of an event as it is shown: null where there is none or it cannot be read.
pub open spec fn shown_data(data: JsonView) -> JsonView {
    match data {
        JsonView::Text(raw) => json::stored_value(raw, JsonView::Null),
        _ => JsonView::Null,
    }
}

/// The event that stands in a row.
pub open spec fn event_of_row(row: Seq<(Seq<char>, SqlView)>) -> Result<JsonView, Seq<char>> {
    match rows::column_value(row, "data"@, Kind::OptionalText) {
        Err(m) => Err(m),
        Ok(data) => match rows::planned(row, event_plan()) {
            Err(m) => Err(m),
            Ok(members) => match rows::column_value(row, "created_at"@, Kind::Text) {
                Err(m) => Err(m),
                Ok(created_at) => Ok(
                    JsonView::Object(
                        members.push(("data"@, shown_data(data))).push(("createdAt"@, created_at)),
                    ),
                ),
            },
        },
    }
}

/// Reads the event that stands in a row.
pub fn ai_chat_event_from_row(row: &Row) -> (r: Result<Json, String>)
    ensures
        exchange::says(r, event_of_row(row@)),
{
    let data = match rows::read_column(row, "data", Kind::OptionalText)? {
        Json::Text(raw) => json::stored(&raw, Json::Null),
        _ => Json::Null,
    };
    let mut members = rows::read_columns(row, event_columns())?;
    json::member(&mut members, "data", data);
    let created_at = rows::read_column(row, "created_at", Kind::Text)?;
    json::member(&mut members, "createdAt", created_at);
    Ok(json::object(members))
}

/// The events of a thread, the reply at `at`.
pub open spec fn events_at(replies: Seq<ReplyView>, at: int, thread_id: Seq<char>) -> Result<
    Seq<JsonView>,
    StepView,
> {
    match exchange::rows_at(
        replies,
        at,
        store::stated(LIST_EVENTS@, store::params().push(store::text_param(thread_id))),
    ) {
        Err(s) => Err(s),
        Ok(found) => store::lifted(
            rows::each_row(found, |row: Seq<(Seq<char>, SqlView)>| event_of_row(row)),
        ),
    }
}

/// Reads the events of a thread.
pub fn list_ai_chat_events(replies: &Vec<Reply>, at: usize, thread_id: &str) -> (r: Result<
    Vec<Json>,
    Step,
>)
    ensures
        exchange::agrees(r, events_at(replies.deep_view(), at as int, thread_id@)),
        r is Ok ==> at < replies@.len(),
{
    let found = exchange::rows(replies, at, store::keyed(LIST_EVENTS, thread_id))?;
    store::lift(
        rows::read_rows(
            found,
            ai_chat_event_from_row,
            Ghost(|row: Seq<(Seq<char>, SqlView)>| event_of_row(row)),
        ),
    )
}

/// Something that happened in a run: its type, who did it, what it says, and data on it.
pub struct Event {
    pub kind: String,
    pub role: String,
    pub content: String,
    pub data: Option<Json>,
}

pub struct EventView {
    pub kind: Seq<char>,
    pub role: Seq<char>,
    pub content: Seq<char>,
    pub data: Option<JsonView>,
}

impl View for Event {
    type V = EventView;

    open spec fn view(&self) -> EventView {
        EventView {
            kind: self.kind@,
            role: self.role@,
            content: self.content@,
            data: self.data.deep_view(),
        }
    }
}

impl DeepView for Event {
    type V = EventView;

    open spec fn deep_view(&self) -> EventView {
        self@
    }
}

/// The statement that adds an event.
pub open spec fn event_insert(
    id: Seq<char>,
    thread_id: Seq<char>,
    run_id: Option<Seq<char>>,
    event: EventView,
    timestamp: Seq<char>,
) -> StatementView {
    let data = match event.data {
        Some(v) => SqlView::Text(json::json_text(v)),
        None => SqlView::Null,
    };
    store::stated(
        INSERT_EVENT@,
        store::params().push(store::text_param(id)).push(store::text_param(thread_id)).push(
            store::optional_param(run_id),
        ).push(store::text_param(event.kind)).push(store::text_param(event.role)).push(
            store::text_param(event.content),
        ).push(data).push(store::text_param(timestamp)),
    )
}

/// How an event is added. The replies start at `at`; the place of the next one comes with the
/// event.
pub open spec fn event_inserted(
    replies: Seq<ReplyView>,
    at: int,
    thread_id: Seq<char>,
    run_id: Option<Seq<char>>,
    event: EventView,
) -> Result<(JsonView, int), StepView> {
    match store::id_at(replies, at) {
        Err(s) => Err(s),
        Ok(id) => match store::now_at(replies, at + 1) {
            Err(s) => Err(s),
            Ok(timestamp) => match exchange::changed_at(
                replies,
                at + 2,
                event_insert(id, thread_id, run_id, event, timestamp),
            ) {
                Err(s) => Err(s),
                Ok(_) => match exchange::rows_at(
                    replies,
                    at + 3,
                    store::stated(EVENT_BY_ID@, store::params().push(store::text_param(id))),
                ) {
                    Err(s) => Err(s),
                    Ok(found) => if found.len() == 0 {
                        Err(StepView::Fail("Query returned no rows"@))
                    } else {
                        match event_of_row(found[0]) {
                            Err(m) => Err(StepView::Fail(m)),
                            Ok(shown) => Ok((shown, at + 4)),
                        }
                    },
                },
            },
        },
    }
}

/// Adds an event to a thread.
pub fn insert_ai_chat_event(
    replies: &Vec<Reply>,
    at: usize,
    thread_id: &str,
    run_id: Option<&str>,
    event: &Event,
) -> (r: Result<(Json, usize), Step>)
    ensures
        exchange::reaches(
            r,
            event_inserted(
                replies.deep_view(),
                at as int,
                thread_id@,
                run_id.deep_view(),
                event@,
            ),
        ),
        r is Ok ==> (r->Ok_0).1 <= replies@.len(),
{
    let total: usize = replies.len();
    let id = store::new_id_from(replies, at)?;
    let timestamp = store::db_now(replies, at + 1)?;
    let mut values: Vec<SqlValue> = json::none();
    store::bind_text(&mut values, id);
    store::bind_text(&mut values, thread_id);
    json::put(&mut values, store::sql_optional(copy_optional(run_id)));
    store::bind_text(&mut values, &event.kind);
    store::bind_text(&mut values, &event.role);
    store::bind_text(&mut values, &event.content);
    match &event.data {
        Some(data) => {
            json::put(&mut values, SqlValue::Text(json::written(data)));
        },
        None => {
            json::put(&mut values, SqlValue::Null);
        },
    }
    store::bind_text(&mut values, &timestamp);
    let _ = exchange::changed(replies, at + 2, store::statement(INSERT_EVENT, values))?;
    let found = exchange::rows(replies, at + 3, store::keyed(EVENT_BY_ID, id))?;
    if found.len() == 0 {
        return Err(Step::Fail("Query returned no rows".to_owned()));
    }
    let shown = store::lift(ai_chat_event_from_row(&found[0]))?;
    Ok((shown, at + 4))
}

/// The response that shows a run.
pub open spec fn run_response(status: u16, run: JsonView) -> ResponseView {
    ResponseView::Json(status, JsonView::Object(json::members().push(("run"@, run))))
}

/// How a run is interrupted: one that is running is stopped and marked, any other is shown as it
/// is.
pub open spec fn run_interrupted(replies: Seq<ReplyView>, run_id: Seq<char>) -> Result<
    ResponseView,
    StepView,
> {
    match run_at(replies, 0, run_id) {
        Err(s) => Err(s),
        Ok(None) => Ok(
            exchange::refusal(404, "AI_CHAT_RUN_NOT_FOUND"@, "AI chat run not found"@),
        ),
        Ok(Some(run)) => if json::text_field(run, "status"@) != Some("running"@) {
            Ok(run_response(200, run))
        } else {
            match exchange::done_at(replies, 1, ActionView::StopRun(run_id)) {
                Err(s) => Err(s),
                Ok(_) => match store::now_at(replies, 2) {
                    Err(s) => Err(s),
                    Ok(finished_at) => match run_updated(
                        replies,
                        3,
                        run_id,
                        "interrupted"@,
                        None,
                        Some("Interrupted"@),
                        Some(finished_at),
                    ) {
                        Err(s) => Err(s),
                        Ok((ended, _)) => Ok(run_response(200, ended)),
                    },
                },
            }
        },
    }
}

/// Interrupts a run.
pub fn interrupt_ai_chat_run(replies: &Vec<Reply>, run_id: &str) -> (r: Result<Response, Step>)
    ensures
        exchange::agrees(r, run_interrupted(replies.deep_view(), run_id@)),
{
    let run = match get_ai_chat_run(replies, 0, run_id)? {
        Some(run) => run,
        None => {
            return Ok(
                exchange::api_error(404, "AI_CHAT_RUN_NOT_FOUND", "AI chat run not found"),
            );
        },
    };
    let running = match run.text("status") {
        Some(status) => text::same(status, "running"),
        None => false,
    };
    if !running {
        return Ok(Response::Json(200, json::single("run", run)));
    }
    exchange::done(replies, 1, Action::StopRun(run_id.to_owned()))?;
    let finished_at = store::db_now(replies, 2)?;
    let (ended, _) = update_ai_chat_run(
        replies,
        3,
        run_id,
        "interrupted",
        None,
        Some("Interrupted"),
        Some(&finished_at),
    )?;
    Ok(Response::Json(200, json::single("run", ended)))
}

/// Whether a handler asks for the end of a transaction.
pub open spec fn asks_end(r: Result<(JsonView, int), StepView>) -> bool {
    ||| r == Err::<(JsonView, int), StepView>(StepView::Ask(ActionView::Batch(COMMIT@)))
    ||| r == Err::<(JsonView, int), StepView>(StepView::Ask(ActionView::Batch(ROLLBACK@)))
}

/// Whether a handler is done, with a result or a failure.
pub open spec fn is_over(r: Result<(JsonView, int), StepView>) -> bool {
    match r {
        Err(StepView::Ask(_)) => false,
        _ => true,
    }
}

/// The transaction in which a run is created is ended in every case: where it was begun and the
/// creation is over, it was asked to commit or to roll back on the way.
pub proof fn law_creation_ends_its_transaction(
    replies: Seq<ReplyView>,
    at: int,
    thread_id: Seq<char>,
)
    requires
        0 <= at,
        store::id_at(replies, at) is Ok,
        store::now_at(replies, at + 1) is Ok,
        exchange::done_at(replies, at + 2, ActionView::Batch(BEGIN@)) is Ok,
        is_over(run_created(replies, at, thread_id)),
    ensures
        exists|k: int|
            at + 2 < k < replies.len() && asks_end(
                #[trigger] run_created(replies.take(k), at, thread_id),
            ),
{
    let id = store::id_at(replies, at)->Ok_0;
    let timestamp = store::now_at(replies, at + 1)->Ok_0;
    let inserted = exchange::changed_at(replies, at + 3, run_insert(id, thread_id, timestamp));
    let marked = exchange::changed_at(replies, at + 4, thread_runs(thread_id, timestamp));
    let k = if inserted is Err {
        at + 4
    } else {
        at + 5
    };
    let before = replies.take(k);
    assert(before[at] == replies[at]);
    assert(before[at + 1] == replies[at + 1]);
    assert(before[at + 2] == replies[at + 2]);
    assert(before[at + 3] == replies[at + 3]);
    if inserted is Ok {
        assert(before[at + 4] == replies[at + 4]);
    }
    assert(asks_end(run_created(before, at, thread_id)));
}

/// The transaction in which a run is updated is ended in every case: where it was begun and the
/// update is over, it was asked to commit or to roll back on the way.
pub proof fn law_update_ends_its_transaction(
    replies: Seq<ReplyView>,
    at: int,
    run_id: Seq<char>,
    status: Seq<char>,
    exit_code: Option<i32>,
    error: Option<Seq<char>>,
    finished_at: Option<Seq<char>>,
)
    requires
        0 <= at,
        exchange::done_at(replies, at, ActionView::Batch(BEGIN@)) is Ok,
        is_over(run_updated(replies, at, run_id, status, exit_code, error, finished_at)),
    ensures
        exists|k: int|
            at < k < replies.len() && asks_end(
                #[trigger] run_updated(
                    replies.take(k),
                    at,
                    run_id,
                    status,
                    exit_code,
                    error,
                    finished_at,
                ),
            ),
{
    let updated = exchange::changed_at(
        replies,
        at + 1,
        run_update(run_id, status, exit_code, error, finished_at),
    );
    let found = exchange::rows_at(
        replies,
        at + 2,
        store::stated(RUN_THREAD@, store::params().push(store::text_param(run_id))),
    );
    let k = if updated is Err {
        at + 2
    } else if found is Err || store::single_text(found->Ok_0) is Err || status == "running"@ {
        at + 3
    } else {
        at + 4
    };
    let before = replies.take(k);
    assert(before[at] == replies[at]);
    assert(before[at + 1] == replies[at + 1]);
    if updated is Ok {
        assert(before[at + 2] == replies[at + 2]);
        if k == at + 4 {
            assert(before[at + 3] == replies[at + 3]);
        }
    }
    assert(asks_end(run_updated(before, at, run_id, status, exit_code, error, finished_at)));
}

} // verus!
