//! What Codex reports of a turn, and how a turn ends.
use crate::ai_runs;
use crate::ai_runs::{Event, EventView};
use crate::ai_turns;
use crate::exchange;
use crate::exchange::{
    Action, ActionView, Reply, ReplyView, SqlValue, StatementView, Step, StepView,
};
use crate::json;
use crate::json::{Json, JsonView};
use crate::store;
use crate::task_edits;
use crate::text;
use vstd::prelude::*;

verus! {

pub const UPDATE_CODEX_ID: &'static str = "UPDATE ai_chat_threads SET codex_thread_id = ?1, updated_at = ?2 WHERE id = ?3";

/// The greatest length of what is kept of one value.
pub const TEXT_LIMIT: usize = 65_536;

/// The first characters of a text, up to the greatest length.
pub open spec fn cut(s: Seq<char>) -> Seq<char> {
    if s.len() > TEXT_LIMIT {
        s.take(TEXT_LIMIT as int)
    } else {
        s
    }
}

fn cut_text(s: &str) -> (r: String)
    ensures
        r@ == cut(s@),
{
    let chars = text::chars_of(s);
    let to: usize = if chars.len() > TEXT_LIMIT {
        TEXT_LIMIT
    } else {
        chars.len()
    };
    proof {
        assert(s@.subrange(0, to as int) =~= cut(s@));
    }
    text::text_of(&chars, 0, to)
}

/// What is kept of a value as text: a text as it is, any other value as JSON.
pub open spec fn value_text(value: Option<JsonView>) -> Seq<char> {
    match value {
        Some(JsonView::Text(s)) => cut(s),
        Some(v) => cut(json::json_text(v)),
        None => Seq::empty(),
    }
}

/// Writes what is kept of a value as text.
pub fn capped_value_text(value: Option<&Json>) -> (r: String)
    ensures
        r@ == value_text(value.deep_view()),
{
    match value {
        Some(Json::Text(s)) => cut_text(s),
        Some(v) => cut_text(&json::written(v)),
        None => String::new(),
    }
}

/// What a report of an error says.
pub open spec fn error_text(value: JsonView) -> Seq<char> {
    if json::field(value, "message"@) is Some {
        value_text(json::field(value, "message"@))
    } else if json::field(value, "error"@) is Some {
        value_text(json::field(value, "error"@))
    } else {
        value_text(json::field(value, "status"@))
    }
}

/// Reads what a report of an error says.
pub fn codex_error_message(value: &Json) -> (r: String)
    ensures
        r@ == error_text(value@),
{
    if value.get("message").is_some() {
        capped_value_text(value.get("message"))
    } else if value.get("error").is_some() {
        capped_value_text(value.get("error"))
    } else {
        capped_value_text(value.get("status"))
    }
}

/// Data that holds a status.
pub open spec fn status_data(status: Seq<char>) -> Seq<(Seq<char>, JsonView)> {
    json::members().push(("status"@, JsonView::Text(status)))
}

fn make_status(status: &str) -> (r: Vec<(String, Json)>)
    ensures
        json::members_view(r@) == status_data(status@),
{
    let mut members = json::no_members();
    json::member(&mut members, "status", json::text_value(status));
    members
}

/// An event with data.
pub open spec fn event_of(
    kind: Seq<char>,
    role: Seq<char>,
    content: Seq<char>,
    data: Seq<(Seq<char>, JsonView)>,
) -> EventView {
    EventView { kind, role, content, data: Some(JsonView::Object(data)) }
}

fn make_event(kind: &str, role: &str, content: String, data: Vec<(String, Json)>) -> (r: Event)
    ensures
        r@ == event_of(kind@, role@, content@, json::members_view(data@)),
{
    Event {
        kind: kind.to_owned(),
        role: role.to_owned(),
        content,
        data: Some(json::object(data)),
    }
}

/// An integer of a value, or null.
pub open spec fn integer_or_null(value: JsonView, key: Seq<char>) -> JsonView {
    match json::integer_field(value, key) {
        Some(i) => JsonView::Integer(i),
        None => JsonView::Null,
    }
}

/// A command that Codex runs.
pub open spec fn command_event(item: JsonView, status: Seq<char>) -> EventView {
    let command = value_text(json::field(item, "command"@));
    event_of(
        "command_execution"@,
        "activity"@,
        command,
        status_data(status).push(("command"@, JsonView::Text(command))).push(
            (
                "output"@,
                JsonView::Text(value_text(json::field(item, "aggregated_output"@))),
            ),
        ).push(("exitCode"@, integer_or_null(item, "exit_code"@))),
    )
}

fn make_command_event(item: &Json, status: &str) -> (r: Event)
    ensures
        r@ == command_event(item@, status@),
{
    let command = capped_value_text(item.get("command"));
    let exit_code = match item.integer("exit_code") {
        Some(i) => Json::Integer(i),
        None => Json::Null,
    };
    let mut data = make_status(status);
    json::member(&mut data, "command", json::text_value(&command));
    json::member(
        &mut data,
        "output",
        Json::Text(capped_value_text(item.get("aggregated_output"))),
    );
    json::member(&mut data, "exitCode", exit_code);
    make_event("command_execution", "activity", command, data)
}

/// Something that Codex does, with one member that says what.
pub open spec fn activity_event(
    kind: Seq<char>,
    item: JsonView,
    status: Seq<char>,
    key: Seq<char>,
    shown: Seq<char>,
) -> EventView {
    let content = value_text(json::field(item, key));
    event_of(
        kind,
        "activity"@,
        content,
        status_data(status).push((shown, JsonView::Text(content))),
    )
}

fn make_activity_event(kind: &str, item: &Json, status: &str, key: &str, shown: &str) -> (r: Event)
    ensures
        r@ == activity_event(kind@, item@, status@, key@, shown@),
{
    let content = capped_value_text(item.get(key));
    let mut data = make_status(status);
    json::member(&mut data, shown, json::text_value(&content));
    make_event(kind, "activity", content, data)
}

/// The name of a tool: that of its server and its own, as far as they are there.
pub open spec fn tool_name(server: Seq<char>, tool: Seq<char>) -> Seq<char> {
    if server.len() == 0 {
        tool
    } else if tool.len() == 0 {
        server
    } else {
        server + "."@ + tool
    }
}

/// A tool that Codex calls.
pub open spec fn tool_event(item: JsonView, status: Seq<char>) -> EventView {
    event_of(
        "mcp_tool_call"@,
        if json::field(item, "error"@) is Some {
            "error"@
        } else {
            "activity"@
        },
        tool_name(
            value_text(json::field(item, "server"@)),
            value_text(json::field(item, "tool"@)),
        ),
        status_data(status).push(("detail"@, JsonView::Text(value_text(Some(item))))),
    )
}

fn make_tool_event(item: &Json, status: &str) -> (r: Event)
    ensures
        r@ == tool_event(item@, status@),
{
    let server = capped_value_text(item.get("server"));
    let tool = capped_value_text(item.get("tool"));
    let content = if server.as_str().is_empty() {
        tool
    } else if tool.as_str().is_empty() {
        server
    } else {
        let mut name = server;
        name.append(".");
        name.append(&tool);
        name
    };
    let role = if item.get("error").is_some() {
        "error"
    } else {
        "activity"
    };
    let mut data = make_status(status);
    json::member(&mut data, "detail", Json::Text(capped_value_text(Some(item))));
    make_event("mcp_tool_call", role, content, data)
}

/// What is kept of an item that Codex reports, by its type.
pub open spec fn item_event(kind: Seq<char>, item: JsonView, status: Seq<char>) -> Option<
    EventView,
> {
    if kind == "agent_message"@ {
        Some(
            event_of(
                kind,
                "assistant"@,
                value_text(json::field(item, "text"@)),
                status_data(status),
            ),
        )
    } else if kind == "command_execution"@ {
        Some(command_event(item, status))
    } else if kind == "file_change"@ {
        Some(activity_event(kind, item, status, "changes"@, "detail"@))
    } else if kind == "mcp_tool_call"@ {
        Some(tool_event(item, status))
    } else if kind == "web_search"@ {
        Some(activity_event(kind, item, status, "query"@, "query"@))
    } else if kind == "todo_list"@ {
        Some(activity_event(kind, item, status, "items"@, "detail"@))
    } else if kind == "error"@ {
        Some(event_of(kind, "error"@, error_text(item), status_data(status)))
    } else {
        None
    }
}

fn make_item_event(kind: &str, item: &Json, status: &str) -> (r: Option<Event>)
    ensures
        r.deep_view() == item_event(kind@, item@, status@),
{
    if text::same(kind, "agent_message") {
        let content = capped_value_text(item.get("text"));
        Some(make_event(kind, "assistant", content, make_status(status)))
    } else if text::same(kind, "command_execution") {
        Some(make_command_event(item, status))
    } else if text::same(kind, "file_change") {
        Some(make_activity_event(kind, item, status, "changes", "detail"))
    } else if text::same(kind, "mcp_tool_call") {
        Some(make_tool_event(item, status))
    } else if text::same(kind, "web_search") {
        Some(make_activity_event(kind, item, status, "query", "query"))
    } else if text::same(kind, "todo_list") {
        Some(make_activity_event(kind, item, status, "items", "detail"))
    } else if text::same(kind, "error") {
        Some(make_event(kind, "error", codex_error_message(item), make_status(status)))
    } else {
        None
    }
}

/// What is kept of a report on an item.
pub open spec fn normalized_item(raw_type: Seq<char>, raw: JsonView) -> Option<EventView> {
    match json::field(raw, "item"@) {
        None => None,
        Some(item) => match json::text_field(item, "type"@) {
            None => None,
            Some(kind) => item_event(
                kind,
                item,
                task_edits::text_or(
                    json::text_field(item, "status"@),
                    text::without_prefixes(raw_type, "item."@),
                ),
            ),
        },
    }
}

/// Makes an event of a report on an item.
pub fn normalize_codex_item(raw_type: &str, raw: &Json) -> (r: Option<Event>)
    ensures
        r.deep_view() == normalized_item(raw_type@, raw@),
{
    let item = match raw.get("item") {
        Some(item) => item,
        None => {
            return None;
        },
    };
    let kind = match item.text("type") {
        Some(kind) => kind,
        None => {
            return None;
        },
    };
    let status = match item.text("status") {
        Some(status) => status.clone(),
        None => text::trim_start_matches(raw_type, "item."),
    };
    make_item_event(kind, item, &status)
}

/// What is kept of a report, where anything is.
pub open spec fn normalized(raw: JsonView) -> Option<EventView> {
    match json::text_field(raw, "type"@) {
        None => None,
        Some(raw_type) => if raw_type == "turn.started"@ {
            Some(event_of(raw_type, "activity"@, Seq::empty(), status_data("started"@)))
        } else if raw_type == "turn.completed"@ {
            Some(
                event_of(
                    raw_type,
                    "activity"@,
                    Seq::empty(),
                    status_data("completed"@).push(
                        ("usage"@, json::or_null(json::field(raw, "usage"@))),
                    ),
                ),
            )
        } else if raw_type == "turn.failed"@ || raw_type == "error"@ {
            Some(event_of(raw_type, "error"@, error_text(raw), status_data("failed"@)))
        } else if raw_type == "item.started"@ || raw_type == "item.updated"@ || raw_type
            == "item.completed"@ {
            normalized_item(raw_type, raw)
        } else {
            None
        },
    }
}

/// Makes an event of a report.
pub fn normalize_codex_event(raw: &Json) -> (r: Option<Event>)
    ensures
        r.deep_view() == normalized(raw@),
{
    let raw_type = match raw.text("type") {
        Some(raw_type) => raw_type,
        None => {
            return None;
        },
    };
    if text::same(raw_type, "turn.started") {
        Some(make_event(raw_type, "activity", String::new(), make_status("started")))
    } else if text::same(raw_type, "turn.completed") {
        let usage = match raw.get("usage") {
            Some(usage) => usage.copy(),
            None => Json::Null,
        };
        let mut data = make_status("completed");
        json::member(&mut data, "usage", usage);
        Some(make_event(raw_type, "activity", String::new(), data))
    } else if text::same(raw_type, "turn.failed") || text::same(raw_type, "error") {
        Some(make_event(raw_type, "error", codex_error_message(raw), make_status("failed")))
    } else if text::same(raw_type, "item.started") || text::same(raw_type, "item.updated")
        || text::same(raw_type, "item.completed") {
        normalize_codex_item(raw_type, raw)
    } else {
        None
    }
}

/// Whether a role is one that the store admits.
pub open spec fn is_role(role: Seq<char>) -> bool {
    role == "user"@ || role == "assistant"@ || role == "activity"@ || role == "error"@
}

/// Whatever Codex reports, what is kept of it has a role that the store admits and data, and is
/// bounded in length.
pub proof fn law_kept_events_are_admitted(raw: JsonView)
    ensures
        normalized(raw) is Some ==> is_role((normalized(raw)->0).role) && (normalized(raw)->0).data
            is Some && (normalized(raw)->0).content.len() <= 2 * TEXT_LIMIT + 1,
{
    reveal_strlit(".");
}

/// The statement that notes under which identifier Codex keeps a conversation.
pub open spec fn codex_id_update(
    thread_id: Seq<char>,
    codex_thread_id: Seq<char>,
    timestamp: Seq<char>,
) -> StatementView {
    store::stated(
        UPDATE_CODEX_ID@,
        store::params().push(store::text_param(codex_thread_id)).push(
            store::text_param(timestamp),
        ).push(store::text_param(thread_id)),
    )
}

/// How the identifier of a conversation in Codex is noted.
pub open spec fn codex_id_noted(
    replies: Seq<ReplyView>,
    thread_id: Seq<char>,
    codex_thread_id: Seq<char>,
) -> Result<(), StepView> {
    match store::now_at(replies, 0) {
        Err(s) => Err(s),
        Ok(timestamp) => match exchange::changed_at(
            replies,
            1,
            codex_id_update(thread_id, codex_thread_id, timestamp),
        ) {
            Err(s) => Err(s),
            Ok(_) => Ok(()),
        },
    }
}

/// Notes under which identifier Codex keeps a conversation.
pub fn update_ai_chat_thread_codex_id(
    replies: &Vec<Reply>,
    thread_id: &str,
    codex_thread_id: &str,
) -> (r: Result<(), Step>)
    ensures
        match r {
            Ok(_) => codex_id_noted(replies.deep_view(), thread_id@, codex_thread_id@) == Ok::<
                (),
                StepView,
            >(()),
            Err(s) => codex_id_noted(replies.deep_view(), thread_id@, codex_thread_id@) == Err::<
                (),
                StepView,
            >(s@),
        },
{
    let timestamp = store::db_now(replies, 0)?;
    let mut values: Vec<SqlValue> = json::none();
    store::bind_text(&mut values, codex_thread_id);
    store::bind_text(&mut values, &timestamp);
    store::bind_text(&mut values, thread_id);
    let _ = exchange::changed(replies, 1, store::statement(UPDATE_CODEX_ID, values))?;
    Ok(())
}

/// How a report is recorded: that of a conversation's start as its identifier, any other as an event
/// where anything is kept of it.
pub open spec fn recorded(
    replies: Seq<ReplyView>,
    thread_id: Seq<char>,
    run_id: Seq<char>,
    raw: JsonView,
) -> Result<(), StepView> {
    if json::text_field(raw, "type"@) == Some("thread.started"@) {
        match json::text_field(raw, "thread_id"@) {
            Some(codex_thread_id) => codex_id_noted(replies, thread_id, codex_thread_id),
            None => Ok(()),
        }
    } else {
        match normalized(raw) {
            None => Ok(()),
            Some(event) => match ai_runs::event_inserted(
                replies,
                0,
                thread_id,
                Some(run_id),
                event,
            ) {
                Err(s) => Err(s),
                Ok(_) => Ok(()),
            },
        }
    }
}

/// Records a report.
pub fn record_codex_event(replies: &Vec<Reply>, thread_id: &str, run_id: &str, raw: &Json) -> (r:
    Result<(), Step>)
    ensures
        match r {
            Ok(_) => recorded(replies.deep_view(), thread_id@, run_id@, raw@) == Ok::<(), StepView>(
                (),
            ),
            Err(s) => recorded(replies.deep_view(), thread_id@, run_id@, raw@) == Err::<
                (),
                StepView,
            >(s@),
        },
{
    let started = match raw.text("type") {
        Some(kind) => text::same(kind, "thread.started"),
        None => false,
    };
    if started {
        return match raw.text("thread_id") {
            Some(codex_thread_id) => update_ai_chat_thread_codex_id(
                replies,
                thread_id,
                codex_thread_id,
            ),
            None => Ok(()),
        };
    }
    match normalize_codex_event(raw) {
        None => Ok(()),
        Some(event) => {
            let _ = ai_runs::insert_ai_chat_event(replies, 0, thread_id, Some(run_id), &event)?;
            Ok(())
        },
    }
}

/// What is known of a turn while Codex reports: whether it failed, and with what message.
pub struct TurnState {
    pub failed: bool,
    pub error: String,
}

pub struct TurnStateView {
    pub failed: bool,
    pub error: Seq<char>,
}

impl View for TurnState {
    type V = TurnStateView;

    open spec fn view(&self) -> TurnStateView {
        TurnStateView { failed: self.failed, error: self.error@ }
    }
}

/// A turn of which nothing is known yet.
pub open spec fn fresh_turn() -> TurnStateView {
    TurnStateView { failed: false, error: Seq::empty() }
}

/// A turn that failed with a message.
pub open spec fn failed_turn(message: Seq<char>) -> TurnStateView {
    TurnStateView { failed: true, error: message }
}

/// How a turn stands whose reports could not be read.
pub open spec fn unread_turn() -> TurnStateView {
    failed_turn("Codex output could not be read"@)
}

impl TurnState {
    /// A turn of which nothing is known yet.
    pub fn fresh() -> (r: TurnState)
        ensures
            r@ == fresh_turn(),
    {
        TurnState { failed: false, error: String::new() }
    }

    /// A turn that failed with a message.
    pub fn with_failure(message: &str) -> (r: TurnState)
        ensures
            r@ == failed_turn(message@),
    {
        TurnState { failed: true, error: message.to_owned() }
    }

    /// The turn whose reports cannot be read.
    pub fn unreadable() -> (r: TurnState)
        ensures
            r@ == unread_turn(),
    {
        TurnState::with_failure("Codex output could not be read")
    }
}

/// How the reading of reports goes on at a line: it asks for an action, goes on to the next line, or
/// stops.
pub enum LineStep {
    Ask(Action),
    Next(TurnState),
    Stop(TurnState),
}

pub enum LineStepView {
    Ask(ActionView),
    Next(TurnStateView),
    Stop(TurnStateView),
}

impl View for LineStep {
    type V = LineStepView;

    open spec fn view(&self) -> LineStepView {
        match self {
            LineStep::Ask(a) => LineStepView::Ask(a@),
            LineStep::Next(s) => LineStepView::Next(s@),
            LineStep::Stop(s) => LineStepView::Stop(s@),
        }
    }
}

/// Whether a report says that the turn failed.
pub open spec fn reports_failure(raw: JsonView) -> bool {
    json::text_field(raw, "type"@) == Some("turn.failed"@) || json::text_field(raw, "type"@)
        == Some("error"@)
}

/// How the reading of reports goes on at a report.
pub open spec fn report_taken(
    replies: Seq<ReplyView>,
    thread_id: Seq<char>,
    run_id: Seq<char>,
    state: TurnStateView,
    raw: JsonView,
) -> LineStepView {
    match recorded(replies, thread_id, run_id, raw) {
        Err(StepView::Ask(a)) => LineStepView::Ask(a),
        Err(StepView::Fail(m)) => LineStepView::Stop(failed_turn(m)),
        Err(StepView::Answer(_)) => LineStepView::Stop(failed_turn(exchange::UNEXPECTED@)),
        Ok(_) => if reports_failure(raw) {
            LineStepView::Next(failed_turn(error_text(raw)))
        } else {
            LineStepView::Next(state)
        },
    }
}

/// Takes a report.
pub fn take_report(
    replies: &Vec<Reply>,
    thread_id: &str,
    run_id: &str,
    state: &TurnState,
    raw: &Json,
) -> (r: LineStep)
    ensures
        r@ == report_taken(replies.deep_view(), thread_id@, run_id@, state@, raw@),
{
    match record_codex_event(replies, thread_id, run_id, raw) {
        Err(Step::Ask(a)) => LineStep::Ask(a),
        Err(Step::Fail(m)) => LineStep::Stop(TurnState::with_failure(&m)),
        Err(Step::Answer(_)) => LineStep::Stop(TurnState::with_failure(exchange::UNEXPECTED)),
        Ok(_) => {
            let failure = match raw.text("type") {
                Some(kind) => text::same(kind, "turn.failed") || text::same(kind, "error"),
                None => false,
            };
            if failure {
                LineStep::Next(TurnState::with_failure(&codex_error_message(raw)))
            } else {
                LineStep::Next(TurnState { failed: state.failed, error: state.error.clone() })
            }
        },
    }
}

/// A line without the carriage return at its end.
pub open spec fn line_of(bytes: Seq<u8>) -> Seq<u8> {
    if bytes.len() > 0 && bytes.last() == 13 {
        bytes.drop_last()
    } else {
        bytes
    }
}

/// Whether a byte is ASCII white space.
pub open spec fn is_blank(b: u8) -> bool {
    b == 9 || b == 10 || b == 12 || b == 13 || b == 32
}

/// Whether a line holds ASCII white space only.
pub open spec fn is_blank_line(bytes: Seq<u8>) -> bool {
    forall|i: int| 0 <= i < bytes.len() ==> is_blank(#[trigger] bytes[i])
}

fn blank_line(bytes: &[u8]) -> (r: bool)
    ensures
        r == is_blank_line(bytes@),
{
    let mut i: usize = 0;
    while i < bytes.len()
        invariant
            i <= bytes@.len(),
            forall|k: int| 0 <= k < i ==> is_blank(#[trigger] bytes@[k]),
        decreases bytes.len() - i,
    {
        let b: u8 = bytes[i];
        if !(b == 9 || b == 10 || b == 12 || b == 13 || b == 32) {
            proof {
                assert(!is_blank(bytes@[i as int]));
            }
            return false;
        }
        i = i + 1;
    }
    true
}

/// How the reading of reports goes on at a line: a blank line is passed over, and one that is no
/// JSON ends it.
pub open spec fn line_taken(
    replies: Seq<ReplyView>,
    thread_id: Seq<char>,
    run_id: Seq<char>,
    state: TurnStateView,
    bytes: Seq<u8>,
) -> LineStepView {
    let line = line_of(bytes);
    if is_blank_line(line) {
        LineStepView::Next(state)
    } else {
        match json::json_document(line) {
            None => LineStepView::Stop(failed_turn("Codex emitted malformed JSONL"@)),
            Some(raw) => report_taken(replies, thread_id, run_id, state, raw),
        }
    }
}

/// Takes a line.
pub fn take_line(
    replies: &Vec<Reply>,
    thread_id: &str,
    run_id: &str,
    state: &TurnState,
    bytes: &Vec<u8>,
) -> (r: LineStep)
    ensures
        r@ == line_taken(replies.deep_view(), thread_id@, run_id@, state@, bytes@),
{
    let to: usize = if bytes.len() > 0 && bytes[bytes.len() - 1] == 13 {
        bytes.len() - 1
    } else {
        bytes.len()
    };
    let line = &bytes[0..to];
    proof {
        assert(line@ =~= line_of(bytes@));
    }
    if blank_line(line) {
        return LineStep::Next(TurnState { failed: state.failed, error: state.error.clone() });
    }
    match json::document(line) {
        None => LineStep::Stop(TurnState::with_failure("Codex emitted malformed JSONL")),
        Some(raw) => take_report(replies, thread_id, run_id, state, &raw),
    }
}

/// How Codex ended: whether with success, and with which code.
pub struct Exit {
    pub success: bool,
    pub code: Option<i32>,
}

/// How a turn ended.
pub struct Outcome {
    pub status: &'static str,
    pub exit_code: Option<i32>,
    pub error: Option<String>,
}

pub struct OutcomeView {
    pub status: Seq<char>,
    pub exit_code: Option<i32>,
    pub error: Option<Seq<char>>,
}

impl View for Outcome {
    type V = OutcomeView;

    open spec fn view(&self) -> OutcomeView {
        OutcomeView {
            status: self.status@,
            exit_code: self.exit_code,
            error: self.error.deep_view(),
        }
    }
}

/// The code with which Codex ended, where it is known.
pub open spec fn code_of(exit: Option<Exit>) -> Option<i32> {
    match exit {
        Some(e) => e.code,
        None => None,
    }
}

/// How a turn ended, out of what its reports said, whether it was interrupted, and how Codex ended.
pub open spec fn turn_outcome(
    state: TurnStateView,
    interrupted: bool,
    exit: Option<Exit>,
) -> OutcomeView {
    if interrupted {
        OutcomeView { status: "interrupted"@, exit_code: None, error: Some("Interrupted"@) }
    } else if state.failed {
        OutcomeView { status: "failed"@, exit_code: code_of(exit), error: Some(state.error) }
    } else if exit is Some && (exit->0).success {
        OutcomeView { status: "completed"@, exit_code: code_of(exit), error: None }
    } else {
        OutcomeView {
            status: "failed"@,
            exit_code: code_of(exit),
            error: Some("Codex turn failed"@),
        }
    }
}

/// Decides how a turn ended.
pub fn decide_outcome(state: &TurnState, interrupted: bool, exit: Option<Exit>) -> (r: Outcome)
    ensures
        r@ == turn_outcome(state@, interrupted, exit),
{
    let (success, code) = match exit {
        Some(e) => (e.success, e.code),
        None => (false, None),
    };
    if interrupted {
        Outcome {
            status: "interrupted",
            exit_code: None,
            error: Some("Interrupted".to_owned()),
        }
    } else if state.failed {
        Outcome { status: "failed", exit_code: code, error: Some(state.error.clone()) }
    } else if success {
        Outcome { status: "completed", exit_code: code, error: None }
    } else {
        Outcome { status: "failed", exit_code: code, error: Some("Codex turn failed".to_owned()) }
    }
}

/// A turn completes exactly where it was not interrupted, nothing in its reports failed, and Codex
/// ended with success; only then has it no error.
pub proof fn law_completed_turn(state: TurnStateView, interrupted: bool, exit: Option<Exit>)
    ensures
        (turn_outcome(state, interrupted, exit).error is None) <==> (!interrupted && !state.failed
            && exit is Some && (exit->0).success),
        (turn_outcome(state, interrupted, exit).error is None) <==> turn_outcome(
            state,
            interrupted,
            exit,
        ).status == "completed"@,
{
    reveal_strlit("interrupted");
    reveal_strlit("failed");
    reveal_strlit("completed");
    assert("interrupted"@.len() != "completed"@.len());
    assert("failed"@.len() != "completed"@.len());
}

/// How far the closing of a turn is. What a stage cannot do is left out, and the closing goes on.
pub enum Closing {
    /// The time is asked for.
    Time,
    /// The failure is noted as an event.
    Noting(Option<String>),
    /// The run is updated.
    Updating(Option<String>),
    Over,
}

pub enum ClosingView {
    Time,
    Noting(Option<Seq<char>>),
    Updating(Option<Seq<char>>),
    Over,
}

impl View for Closing {
    type V = ClosingView;

    open spec fn view(&self) -> ClosingView {
        match self {
            Closing::Time => ClosingView::Time,
            Closing::Noting(t) => ClosingView::Noting(t.deep_view()),
            Closing::Updating(t) => ClosingView::Updating(t.deep_view()),
            Closing::Over => ClosingView::Over,
        }
    }
}

/// How the closing of a turn goes on: it asks for an action, or goes on to a stage, whose replies
/// start anew.
pub enum ClosingStep {
    Ask(Action),
    Go(Closing),
}

pub enum ClosingStepView {
    Ask(ActionView),
    Go(ClosingView),
}

impl View for ClosingStep {
    type V = ClosingStepView;

    open spec fn view(&self) -> ClosingStepView {
        match self {
            ClosingStep::Ask(a) => ClosingStepView::Ask(a@),
            ClosingStep::Go(c) => ClosingStepView::Go(c@),
        }
    }
}

/// The stage behind that which asks for the time: a failure is noted first.
pub open spec fn behind_time(outcome: OutcomeView, finished_at: Option<Seq<char>>) -> ClosingView {
    if outcome.status == "failed"@ {
        ClosingView::Noting(finished_at)
    } else {
        ClosingView::Updating(finished_at)
    }
}

/// The message of a failed turn.
pub open spec fn failure_message(outcome: OutcomeView) -> Seq<char> {
    task_edits::text_or(outcome.error, "Codex turn failed"@)
}

/// How the closing of a turn goes on at a stage.
pub open spec fn closing_next(
    replies: Seq<ReplyView>,
    closing: ClosingView,
    outcome: OutcomeView,
    thread_id: Seq<char>,
    run_id: Seq<char>,
) -> ClosingStepView {
    match closing {
        ClosingView::Time => match store::now_at(replies, 0) {
            Err(StepView::Ask(a)) => ClosingStepView::Ask(a),
            Err(_) => ClosingStepView::Go(behind_time(outcome, None)),
            Ok(finished_at) => ClosingStepView::Go(behind_time(outcome, Some(finished_at))),
        },
        ClosingView::Noting(finished_at) => match ai_runs::event_inserted(
            replies,
            0,
            thread_id,
            Some(run_id),
            ai_turns::error_event(failure_message(outcome)),
        ) {
            Err(StepView::Ask(a)) => ClosingStepView::Ask(a),
            _ => ClosingStepView::Go(ClosingView::Updating(finished_at)),
        },
        ClosingView::Updating(finished_at) => match ai_runs::run_updated(
            replies,
            0,
            run_id,
            outcome.status,
            outcome.exit_code,
            outcome.error,
            finished_at,
        ) {
            Err(StepView::Ask(a)) => ClosingStepView::Ask(a),
            _ => ClosingStepView::Go(ClosingView::Over),
        },
        ClosingView::Over => ClosingStepView::Go(ClosingView::Over),
    }
}

fn stage_behind_time(outcome: &Outcome, finished_at: Option<String>) -> (r: Closing)
    ensures
        r@ == behind_time(outcome@, finished_at.deep_view()),
{
    if text::same(outcome.status, "failed") {
        Closing::Noting(finished_at)
    } else {
        Closing::Updating(finished_at)
    }
}

fn copy_time(time: &Option<String>) -> (r: Option<String>)
    ensures
        r.deep_view() == time.deep_view(),
{
    match time {
        Some(s) => Some(s.clone()),
        None => None,
    }
}

/// Closes a turn, stage by stage.
pub fn finish_codex_turn(
    replies: &Vec<Reply>,
    closing: &Closing,
    outcome: &Outcome,
    thread_id: &str,
    run_id: &str,
) -> (r: ClosingStep)
    ensures
        r@ == closing_next(replies.deep_view(), closing@, outcome@, thread_id@, run_id@),
{
    match closing {
        Closing::Time => match store::db_now(replies, 0) {
            Err(Step::Ask(a)) => ClosingStep::Ask(a),
            Err(_) => ClosingStep::Go(stage_behind_time(outcome, None)),
            Ok(finished_at) => ClosingStep::Go(stage_behind_time(outcome, Some(finished_at))),
        },
        Closing::Noting(finished_at) => {
            let message = match &outcome.error {
                Some(s) => s.clone(),
                None => "Codex turn failed".to_owned(),
            };
            match ai_runs::insert_ai_chat_event(
                replies,
                0,
                thread_id,
                Some(run_id),
                &ai_turns::make_error_event(&message),
            ) {
                Err(Step::Ask(a)) => ClosingStep::Ask(a),
                _ => ClosingStep::Go(Closing::Updating(copy_time(finished_at))),
            }
        },
        Closing::Updating(finished_at) => {
            let error = match &outcome.error {
                Some(s) => Some(s.as_str()),
                None => None,
            };
            let time = match finished_at {
                Some(s) => Some(s.as_str()),
                None => None,
            };
            match ai_runs::update_ai_chat_run(
                replies,
                0,
                run_id,
                outcome.status,
                outcome.exit_code,
                error,
                time,
            ) {
                Err(Step::Ask(a)) => ClosingStep::Ask(a),
                _ => ClosingStep::Go(Closing::Over),
            }
        },
        Closing::Over => ClosingStep::Go(Closing::Over),
    }
}

/// The rank of a stage, which grows with every stage that the closing goes on to.
pub open spec fn rank(closing: ClosingView) -> int {
    match closing {
        ClosingView::Time => 0,
        ClosingView::Noting(_) => 1,
        ClosingView::Updating(_) => 2,
        ClosingView::Over => 3,
    }
}

/// The closing of a turn comes to an end, and not before the run was updated: every stage leads to a
/// later one, only the updating leads to the end, and a failed turn is noted before it is updated.
pub proof fn law_closing_ends_with_the_update(
    replies: Seq<ReplyView>,
    closing: ClosingView,
    outcome: OutcomeView,
    thread_id: Seq<char>,
    run_id: Seq<char>,
    next: ClosingView,
)
    requires
        closing_next(replies, closing, outcome, thread_id, run_id) == ClosingStepView::Go(next),
        !(closing is Over),
    ensures
        rank(closing) < rank(next),
        next is Over ==> closing is Updating,
        closing is Time && outcome.status == "failed"@ ==> next is Noting,
        closing is Time && outcome.status != "failed"@ ==> next is Updating,
{
}

} // verus!
