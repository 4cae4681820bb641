//! What is kept of the reports of Codex, and how it is shown.
use crate::ai_runs;
use crate::ai_runs::EventView;
use crate::codex;
use crate::exchange::{ActionView, ReplyView, SqlView, StatementView, StepView};
use crate::json;
use crate::json::JsonView;
use crate::store;
use vstd::prelude::*;

verus! {

/// Whether a text is the start of another, as long as it may be.
pub open spec fn is_start(kept: Seq<char>, s: Seq<char>) -> bool {
    &&& kept.len() <= s.len()
    &&& kept.len() <= 65_536
    &&& kept.len() == s.len() || kept.len() == 65_536
    &&& forall|i: int| 0 <= i < kept.len() ==> #[trigger] kept[i] == s[i]
}

/// Whether a text is what is kept of a value: the start of a text, or of the JSON of any other value.
pub open spec fn is_kept(kept: Seq<char>, value: Option<JsonView>) -> bool {
    match value {
        None => kept.len() == 0,
        Some(JsonView::Text(s)) => is_start(kept, s),
        Some(v) => is_start(kept, json::json_text(v)),
    }
}

/// The first of three members that is there: what a report of an error says.
pub open spec fn complaint(value: JsonView) -> Option<JsonView> {
    if json::field(value, "message"@) is Some {
        json::field(value, "message"@)
    } else if json::field(value, "error"@) is Some {
        json::field(value, "error"@)
    } else {
        json::field(value, "status"@)
    }
}

/// Whether an event has a role, a content that is kept of a value, and data.
pub open spec fn is_event(
    event: Option<EventView>,
    kind: Seq<char>,
    role: Seq<char>,
    value: Option<JsonView>,
) -> bool {
    &&& event is Some
    &&& event->0.kind == kind
    &&& event->0.role == role
    &&& is_kept(event->0.content, value)
    &&& event->0.data is Some
}

/// A text in the data of an event.
pub open spec fn noted(event: Option<EventView>, key: Seq<char>) -> Option<JsonView> {
    json::field(event->0.data->0, key)
}

proof fn lemma_kept(value: Option<JsonView>)
    ensures
        is_kept(codex::value_text(value), value),
{
}

proof fn lemma_words()
    ensures
        "status"@.len() == 6,
        "command"@.len() == 7,
        "output"@.len() == 6,
        "exitCode"@.len() == 8,
        "detail"@.len() == 6,
        "query"@.len() == 5,
        "usage"@.len() == 5,
        "status"@[0] == 's',
        "output"@[0] == 'o',
        "detail"@[0] == 'd',
        "agent_message"@.len() == 13,
        "command_execution"@.len() == 17,
        "file_change"@.len() == 11,
        "mcp_tool_call"@.len() == 13,
        "web_search"@.len() == 10,
        "todo_list"@.len() == 9,
        "error"@.len() == 5,
        "agent_message"@[0] == 'a',
        "mcp_tool_call"@[0] == 'm',
        "item.started"@.len() == 12,
        "item.updated"@.len() == 12,
        "item.completed"@.len() == 14,
        "turn.started"@.len() == 12,
        "turn.completed"@.len() == 14,
        "turn.failed"@.len() == 11,
        "item.started"@[0] == 'i',
        "item.updated"@[0] == 'i',
        "item.completed"@[0] == 'i',
        "turn.started"@[0] == 't',
        "turn.completed"@[0] == 't',
        "turn.failed"@[0] == 't',
        "item.started"@[5] == 's',
        "item.updated"@[5] == 'u',
        "thread.started"@[1] == 'h',
        "turn.started"@[1] == 'u',
        "turn.completed"@[1] == 'u',
        "turn.failed"@[1] == 'u',
        "item.started"@[1] == 't',
        "item.updated"@[1] == 't',
        "item.completed"@[1] == 't',
        "error"@[1] == 'r',
{
    reveal_strlit("status");
    reveal_strlit("command");
    reveal_strlit("output");
    reveal_strlit("exitCode");
    reveal_strlit("detail");
    reveal_strlit("query");
    reveal_strlit("usage");
    reveal_strlit("agent_message");
    reveal_strlit("command_execution");
    reveal_strlit("file_change");
    reveal_strlit("mcp_tool_call");
    reveal_strlit("web_search");
    reveal_strlit("todo_list");
    reveal_strlit("error");
    reveal_strlit("item.started");
    reveal_strlit("item.updated");
    reveal_strlit("item.completed");
    reveal_strlit("turn.started");
    reveal_strlit("turn.completed");
    reveal_strlit("turn.failed");
    reveal_strlit("thread.started");
}

/// Whether a report is one on an item of a type.
pub open spec fn is_item_report(raw: JsonView, item: JsonView, kind: Seq<char>) -> bool {
    &&& json::field(raw, "item"@) == Some(item)
    &&& json::text_field(item, "type"@) == Some(kind)
    &&& {
        ||| json::text_field(raw, "type"@) == Some("item.started"@)
        ||| json::text_field(raw, "type"@) == Some("item.updated"@)
        ||| json::text_field(raw, "type"@) == Some("item.completed"@)
    }
}

/// Of a message of the agent its text is kept, as what the assistant said.
pub proof fn law_message_of_the_agent_is_kept(raw: JsonView, item: JsonView)
    requires
        is_item_report(raw, item, "agent_message"@),
    ensures
        is_event(
            codex::normalized(raw),
            "agent_message"@,
            "assistant"@,
            json::field(item, "text"@),
        ),
        forall|s: Seq<char>|
            json::text_field(item, "text"@) == Some(s) && s.len() <= 65_536 ==> #[trigger] (
            codex::normalized(raw)->0).content == s,
{
    lemma_words();
    lemma_kept(json::field(item, "text"@));
    let kept = codex::normalized(raw)->0.content;
    assert forall|s: Seq<char>|
        json::text_field(item, "text"@) == Some(s) && s.len() <= 65_536 implies #[trigger] (
    codex::normalized(raw)->0).content == s by {
        assert(kept =~= s);
    }
}

/// Of a command that Codex runs the command, its output and its exit code are kept.
pub proof fn law_command_is_kept(raw: JsonView, item: JsonView)
    requires
        is_item_report(raw, item, "command_execution"@),
    ensures
        ({
            let event = codex::normalized(raw);
            &&& is_event(
                event,
                "command_execution"@,
                "activity"@,
                json::field(item, "command"@),
            )
            &&& noted(event, "command"@) == Some(JsonView::Text(event->0.content))
            &&& noted(event, "output"@) is Some && noted(event, "output"@)->0 is Text && is_kept(
                noted(event, "output"@)->0->Text_0,
                json::field(item, "aggregated_output"@),
            )
            &&& noted(event, "exitCode"@) == Some(
                match json::integer_field(item, "exit_code"@) {
                    Some(code) => JsonView::Integer(code),
                    None => JsonView::Null,
                },
            )
        }),
{
    lemma_words();
    lemma_kept(json::field(item, "command"@));
    lemma_kept(json::field(item, "aggregated_output"@));
    let data = codex::normalized(raw)->0.data->0->Object_0;
    json::lemma_lookup(data, "command"@, 1);
    json::lemma_lookup(data, "output"@, 2);
    json::lemma_lookup(data, "exitCode"@, 3);
}

/// Of a change of files, a search and a list of things to do, what is changed, searched for and to be
/// done is kept.
pub proof fn law_activity_is_kept(raw: JsonView, item: JsonView)
    ensures
        is_item_report(raw, item, "file_change"@) ==> is_event(
            codex::normalized(raw),
            "file_change"@,
            "activity"@,
            json::field(item, "changes"@),
        ) && noted(codex::normalized(raw), "detail"@) == Some(
            JsonView::Text(codex::normalized(raw)->0.content),
        ),
        is_item_report(raw, item, "web_search"@) ==> is_event(
            codex::normalized(raw),
            "web_search"@,
            "activity"@,
            json::field(item, "query"@),
        ) && noted(codex::normalized(raw), "query"@) == Some(
            JsonView::Text(codex::normalized(raw)->0.content),
        ),
        is_item_report(raw, item, "todo_list"@) ==> is_event(
            codex::normalized(raw),
            "todo_list"@,
            "activity"@,
            json::field(item, "items"@),
        ) && noted(codex::normalized(raw), "detail"@) == Some(
            JsonView::Text(codex::normalized(raw)->0.content),
        ),
{
    lemma_words();
    lemma_kept(json::field(item, "changes"@));
    lemma_kept(json::field(item, "query"@));
    lemma_kept(json::field(item, "items"@));
    let data = codex::normalized(raw)->0.data->0->Object_0;
    if is_item_report(raw, item, "file_change"@) || is_item_report(raw, item, "todo_list"@) {
        json::lemma_lookup(data, "detail"@, 1);
    }
    if is_item_report(raw, item, "web_search"@) {
        json::lemma_lookup(data, "query"@, 1);
    }
}

/// Of a call of a tool its name is kept, behind the name of its server and a point where both are
/// there, with all of the item as a detail. It is an error exactly where the item tells one.
pub proof fn law_tool_call_is_kept(raw: JsonView, item: JsonView, server: Seq<char>, tool: Seq<char>)
    requires
        is_item_report(raw, item, "mcp_tool_call"@),
        json::text_field(item, "server"@) == Some(server),
        json::text_field(item, "tool"@) == Some(tool),
        server.len() <= 65_536,
        tool.len() <= 65_536,
    ensures
        ({
            let event = codex::normalized(raw);
            &&& event is Some
            &&& event->0.kind == "mcp_tool_call"@
            &&& event->0.role == if json::field(item, "error"@) is Some {
                "error"@
            } else {
                "activity"@
            }
            &&& server.len() > 0 && tool.len() > 0 ==> event->0.content == server + seq!['.']
                + tool
            &&& server.len() == 0 ==> event->0.content == tool
            &&& tool.len() == 0 ==> event->0.content == server
            &&& noted(event, "detail"@) is Some && noted(event, "detail"@)->0 is Text && is_kept(
                noted(event, "detail"@)->0->Text_0,
                Some(item),
            )
        }),
{
    lemma_words();
    reveal_strlit(".");
    lemma_kept(json::field(item, "server"@));
    lemma_kept(json::field(item, "tool"@));
    lemma_kept(Some(item));
    assert(codex::value_text(json::field(item, "server"@)) =~= server);
    assert(codex::value_text(json::field(item, "tool"@)) =~= tool);
    assert("."@ =~= seq!['.']);
    let data = codex::normalized(raw)->0.data->0->Object_0;
    json::lemma_lookup(data, "detail"@, 1);
}

/// Of an error, be it an item, a report of its own or the failure of the turn, what it says is kept,
/// as an error.
pub proof fn law_error_is_kept(raw: JsonView, item: JsonView)
    ensures
        is_item_report(raw, item, "error"@) ==> is_event(
            codex::normalized(raw),
            "error"@,
            "error"@,
            complaint(item),
        ),
        json::text_field(raw, "type"@) == Some("error"@) ==> is_event(
            codex::normalized(raw),
            "error"@,
            "error"@,
            complaint(raw),
        ),
        json::text_field(raw, "type"@) == Some("turn.failed"@) ==> is_event(
            codex::normalized(raw),
            "turn.failed"@,
            "error"@,
            complaint(raw),
        ),
{
    lemma_words();
    lemma_kept(complaint(item));
    lemma_kept(complaint(raw));
}

/// The start and the end of a turn are kept, the end with what it used.
pub proof fn law_start_and_end_are_kept(raw: JsonView)
    ensures
        json::text_field(raw, "type"@) == Some("turn.started"@) ==> is_event(
            codex::normalized(raw),
            "turn.started"@,
            "activity"@,
            None,
        ) && noted(codex::normalized(raw), "status"@) == Some(JsonView::Text("started"@)),
        json::text_field(raw, "type"@) == Some("turn.completed"@) ==> is_event(
            codex::normalized(raw),
            "turn.completed"@,
            "activity"@,
            None,
        ) && noted(codex::normalized(raw), "status"@) == Some(JsonView::Text("completed"@))
            && noted(codex::normalized(raw), "usage"@) == Some(
            json::or_null(json::field(raw, "usage"@)),
        ),
        json::text_field(raw, "type"@) == Some("turn.failed"@) || json::text_field(raw, "type"@)
            == Some("error"@) ==> noted(codex::normalized(raw), "status"@) == Some(
            JsonView::Text("failed"@),
        ),
{
    lemma_words();
    let data = codex::normalized(raw)->0.data->0->Object_0;
    if json::text_field(raw, "type"@) == Some("turn.started"@) || json::text_field(raw, "type"@)
        == Some("turn.failed"@) || json::text_field(raw, "type"@) == Some("error"@) {
        json::lemma_lookup(data, "status"@, 0);
    }
    if json::text_field(raw, "type"@) == Some("turn.completed"@) {
        json::lemma_lookup(data, "status"@, 0);
        json::lemma_lookup(data, "usage"@, 1);
    }
}

/// What is kept of an item says how it stands: as the item says, or else whether the report is on its
/// start, on a change or on its completion.
pub proof fn law_item_is_kept_with_its_status(raw: JsonView, item: JsonView, kind: Seq<char>)
    requires
        is_item_report(raw, item, kind),
        codex::normalized(raw) is Some,
    ensures
        noted(codex::normalized(raw), "status"@) == Some(
            JsonView::Text(
                match json::text_field(item, "status"@) {
                    Some(status) => status,
                    None => json::text_field(raw, "type"@)->0.skip(5),
                },
            ),
        ),
        json::text_field(raw, "type"@) == Some("item.completed"@) ==> json::text_field(
            raw,
            "type"@,
        )->0.skip(5) == "completed"@,
        json::text_field(raw, "type"@) == Some("item.started"@) ==> json::text_field(
            raw,
            "type"@,
        )->0.skip(5) == "started"@,
        json::text_field(raw, "type"@) == Some("item.updated"@) ==> json::text_field(
            raw,
            "type"@,
        )->0.skip(5) == "updated"@,
{
    lemma_words();
    reveal_strlit("item.");
    reveal_strlit("completed");
    reveal_strlit("started");
    reveal_strlit("updated");
    reveal_strlit("item.started");
    reveal_strlit("item.updated");
    reveal_strlit("item.completed");
    let raw_type = json::text_field(raw, "type"@)->0;
    assert("item.completed"@.skip(5) =~= "completed"@);
    assert("item.started"@.skip(5) =~= "started"@);
    assert("item.updated"@.skip(5) =~= "updated"@);
    let prefix = "item."@;
    assert(raw_type.take(5) =~= prefix);
    let rest = raw_type.skip(5);
    assert(rest.len() >= 7);
    assert(rest[0] != 'i');
    assert(crate::text::without_prefixes(rest, prefix) == rest) by {
        if crate::text::has_prefix(rest, prefix) {
            assert(rest.take(5)[0] == rest[0]);
            assert(prefix[0] == 'i');
        }
    }
    assert(crate::text::without_prefixes(raw_type, prefix) == rest);
    let data = codex::normalized(raw)->0.data->0->Object_0;
    json::lemma_lookup(data, "status"@, 0);
}

/// Nothing is kept of a report of any other type.
pub proof fn law_other_reports_are_not_kept(raw: JsonView)
    requires
        codex::normalized(raw) is Some,
    ensures
        json::text_field(raw, "type"@) is Some,
        ({
            let t = json::text_field(raw, "type"@)->0;
            ||| t == "turn.started"@
            ||| t == "turn.completed"@
            ||| t == "turn.failed"@
            ||| t == "error"@
            ||| t == "item.started"@
            ||| t == "item.updated"@
            ||| t == "item.completed"@
        }),
{
}

/// Whether a statement adds an event to a run of a thread.
pub open spec fn writes_event(
    w: StatementView,
    thread_id: Seq<char>,
    run_id: Option<Seq<char>>,
    event: EventView,
) -> bool {
    &&& w.sql == "
        INSERT INTO ai_chat_events (id, thread_id, run_id, type, role, content, data, created_at)
        VALUES (?1, ?2, ?3, ?4, ?5, ?6, ?7, ?8)
        "@
    &&& w.params.len() == 8
    &&& w.params[1] == SqlView::Text(thread_id)
    &&& w.params[2] == match run_id {
        Some(id) => SqlView::Text(id),
        None => SqlView::Null,
    }
    &&& w.params[3] == SqlView::Text(event.kind)
    &&& w.params[4] == SqlView::Text(event.role)
    &&& w.params[5] == SqlView::Text(event.content)
    &&& w.params[6] == match event.data {
        Some(v) => SqlView::Text(json::json_text(v)),
        None => SqlView::Null,
    }
}

/// What is written of a report is the event that is kept of it, in the run and the thread that it
/// belongs to; of a report on the start of a thread it is the identifier under which Codex keeps the
/// conversation. Nothing is written of any other report.
pub proof fn law_report_is_written_as_kept(
    replies: Seq<ReplyView>,
    thread_id: Seq<char>,
    run_id: Seq<char>,
    raw: JsonView,
    w: StatementView,
)
    requires
        codex::recorded(replies, thread_id, run_id, raw) == Err::<(), StepView>(
            StepView::Ask(ActionView::Write(w)),
        ),
    ensures
        if json::text_field(raw, "type"@) == Some("thread.started"@) {
            &&& json::text_field(raw, "thread_id"@) is Some
            &&& w.sql
                == "UPDATE ai_chat_threads SET codex_thread_id = ?1, updated_at = ?2 WHERE id = ?3"@
            &&& w.params.len() == 3
            &&& w.params[0] == SqlView::Text(json::text_field(raw, "thread_id"@)->0)
            &&& w.params[2] == SqlView::Text(thread_id)
        } else {
            &&& codex::normalized(raw) is Some
            &&& writes_event(w, thread_id, Some(run_id), codex::normalized(raw)->0)
        },
{
}

/// A report of which something is kept is done with only when it is written: before the store has
/// taken it, the next step is to take an identifier, to ask for the time, to write it, or to read it
/// back.
pub proof fn law_kept_report_is_written_in_the_end(
    replies: Seq<ReplyView>,
    thread_id: Seq<char>,
    run_id: Seq<char>,
    raw: JsonView,
)
    requires
        codex::normalized(raw) is Some,
        codex::recorded(replies, thread_id, run_id, raw) is Ok,
    ensures
        replies.len() >= 4,
        replies[0] is Text,
        replies[2] is Changed,
        exists|w: StatementView|
            codex::recorded(replies.take(2), thread_id, run_id, raw) == Err::<(), StepView>(
                StepView::Ask(ActionView::Write(w)),
            ) && #[trigger] writes_event(w, thread_id, Some(run_id), codex::normalized(raw)->0)
                && w.params[0] == SqlView::Text(replies[0]->Text_0),
{
    lemma_words();
    law_other_reports_are_not_kept(raw);
    reveal_strlit("thread.started");
    assert(json::text_field(raw, "type"@) != Some("thread.started"@));
    let early = replies.take(2);
    assert(early[0] == replies[0] && early[1] == replies[1]);
    let id = store::id_at(replies, 0)->Ok_0;
    let time = store::now_at(replies, 1)->Ok_0;
    let w = ai_runs::event_insert(id, thread_id, Some(run_id), codex::normalized(raw)->0, time);
    assert(writes_event(w, thread_id, Some(run_id), codex::normalized(raw)->0));
}

/// A report of a failure makes the turn a failed one, with what it says as its error; any other
/// report leaves the turn as it was.
pub proof fn law_failure_in_a_report_fails_the_turn(
    replies: Seq<ReplyView>,
    thread_id: Seq<char>,
    run_id: Seq<char>,
    state: codex::TurnStateView,
    raw: JsonView,
    next: codex::TurnStateView,
)
    requires
        codex::report_taken(replies, thread_id, run_id, state, raw) == codex::LineStepView::Next(
            next,
        ),
    ensures
        if json::text_field(raw, "type"@) == Some("turn.failed"@) || json::text_field(raw, "type"@)
            == Some("error"@) {
            next.failed && is_kept(next.error, complaint(raw))
        } else {
            next == state
        },
{
    lemma_kept(complaint(raw));
}

/// Of a report on an item something is kept only where the item is of a known type, and what is kept
/// is of that type.
pub proof fn law_kept_items_are_of_a_known_type(raw: JsonView)
    requires
        codex::normalized(raw) is Some,
        ({
            let t = json::text_field(raw, "type"@);
            t == Some("item.started"@) || t == Some("item.updated"@) || t == Some(
                "item.completed"@,
            )
        }),
    ensures
        json::field(raw, "item"@) is Some,
        ({
            let kind = json::text_field(json::field(raw, "item"@)->0, "type"@);
            &&& kind == Some(codex::normalized(raw)->0.kind)
            &&& {
                ||| kind == Some("agent_message"@)
                ||| kind == Some("command_execution"@)
                ||| kind == Some("file_change"@)
                ||| kind == Some("mcp_tool_call"@)
                ||| kind == Some("web_search"@)
                ||| kind == Some("todo_list"@)
                ||| kind == Some("error"@)
            }
        }),
{
    lemma_words();
}

/// A line of white space leaves a turn as it is, one that is no JSON fails it, and any other is a
/// report; a return character at its end is no part of it.
pub proof fn law_line_is_a_report(
    replies: Seq<ReplyView>,
    thread_id: Seq<char>,
    run_id: Seq<char>,
    state: codex::TurnStateView,
    line: Seq<u8>,
)
    requires
        line.len() > 0 ==> line.last() != 13,
    ensures
        ({
            let blank = forall|i: int|
                0 <= i < line.len() ==> (#[trigger] line[i]) == 32 || line[i] == 9 || line[i] == 10
                    || line[i] == 12 || line[i] == 13;
            let taken = codex::line_taken(replies, thread_id, run_id, state, line);
            &&& taken == codex::line_taken(replies, thread_id, run_id, state, line.push(13))
            &&& blank ==> taken == codex::LineStepView::Next(state)
            &&& !blank && json::json_document(line) is None ==> taken is Stop
                && taken->Stop_0.failed && taken->Stop_0.error == "Codex emitted malformed JSONL"@
            &&& !blank && json::json_document(line) is Some ==> taken == codex::report_taken(
                replies,
                thread_id,
                run_id,
                state,
                json::json_document(line)->0,
            )
        }),
{
    assert(codex::line_of(line) =~= line);
    assert(codex::line_of(line.push(13)) =~= line);
    let blank = forall|i: int|
        0 <= i < line.len() ==> (#[trigger] line[i]) == 32 || line[i] == 9 || line[i] == 10
            || line[i] == 12 || line[i] == 13;
    if codex::is_blank_line(line) {
        assert forall|i: int| 0 <= i < line.len() implies (#[trigger] line[i]) == 32 || line[i] == 9
            || line[i] == 10 || line[i] == 12 || line[i] == 13 by {
            assert(codex::is_blank(line[i]));
        }
    }
    if blank {
        assert forall|i: int| 0 <= i < line.len() implies codex::is_blank(#[trigger] line[i]) by {}
    }
}

} // verus!
