//! Responses as they are written to a connection.
use crate::comments;
use crate::exchange;
use crate::exchange::{Reply, ReplyView, Response, ResponseView, Step, StepView};
use crate::json;
use crate::json::{Json, JsonView};
use crate::store;
use crate::text;
use vstd::prelude::*;
use vstd::utf8::*;

verus! {

/// What stands behind a status.
pub open spec fn reason(status: u16) -> Seq<char> {
    if status == 200 {
        "OK"@
    } else if status == 201 {
        "Created"@
    } else if status == 202 {
        "Accepted"@
    } else if status == 204 {
        "No Content"@
    } else if status == 400 {
        "Bad Request"@
    } else if status == 404 {
        "Not Found"@
    } else if status == 405 {
        "Method Not Allowed"@
    } else if status == 409 {
        "Conflict"@
    } else if status == 500 {
        "Internal Server Error"@
    } else if status == 501 {
        "Not Implemented"@
    } else {
        "OK"@
    }
}

/// Tells what stands behind a status.
pub fn status_text(status: u16) -> (r: &'static str)
    ensures
        r@ == reason(status),
{
    if status == 200 {
        "OK"
    } else if status == 201 {
        "Created"
    } else if status == 202 {
        "Accepted"
    } else if status == 204 {
        "No Content"
    } else if status == 400 {
        "Bad Request"
    } else if status == 404 {
        "Not Found"
    } else if status == 405 {
        "Method Not Allowed"
    } else if status == 409 {
        "Conflict"
    } else if status == 500 {
        "Internal Server Error"
    } else if status == 501 {
        "Not Implemented"
    } else {
        "OK"
    }
}

/// The lines that every response starts with.
pub open spec fn first_lines(status: u16) -> Seq<char> {
    "HTTP/1.1 "@ + text::decimal(status as nat) + " "@ + reason(status)
        + "\r\nx-content-type-options: nosniff\r\nreferrer-policy: no-referrer\r\nconnection: close\r\n"@
}

/// The lines of headers.
pub open spec fn header_lines(headers: Seq<(Seq<char>, Seq<char>)>) -> Seq<char>
    decreases headers.len(),
{
    if headers.len() == 0 {
        Seq::empty()
    } else {
        header_lines(headers.drop_last()) + headers.last().0 + ": "@ + headers.last().1 + "\r\n"@
    }
}

/// A response: its head, and its body behind an empty line.
pub open spec fn rendered(status: u16, headers: Seq<(Seq<char>, Seq<char>)>, body: Seq<u8>) -> Seq<
    u8,
> {
    encode_utf8(first_lines(status) + header_lines(headers) + "\r\n"@) + body
}

/// Writes a response.
pub fn write_response(status: u16, headers: &Vec<(String, String)>, body: &[u8]) -> (r: Vec<u8>)
    ensures
        r@ == rendered(status, headers.deep_view(), body@),
{
    let ghost all = headers.deep_view();
    let mut head = "HTTP/1.1 ".to_owned();
    head.append(&text::decimal_text(status as u64));
    head.append(" ");
    head.append(status_text(status));
    head.append(
        "\r\nx-content-type-options: nosniff\r\nreferrer-policy: no-referrer\r\nconnection: close\r\n",
    );
    let mut i: usize = 0;
    proof {
        assert(all.take(0) =~= Seq::empty());
        assert(head@ =~= first_lines(status) + header_lines(all.take(0)));
    }
    while i < headers.len()
        invariant
            all == headers.deep_view(),
            i <= headers@.len(),
            head@ == first_lines(status) + header_lines(all.take(i as int)),
        decreases headers.len() - i,
    {
        proof {
            assert(all.take(i + 1).drop_last() =~= all.take(i as int));
            assert(all.take(i + 1).last() == (headers@[i as int].0@, headers@[i as int].1@));
        }
        head.append(&headers[i].0);
        head.append(": ");
        head.append(&headers[i].1);
        head.append("\r\n");
        proof {
            assert(head@ =~= first_lines(status) + header_lines(all.take(i + 1)));
        }
        i = i + 1;
    }
    proof {
        assert(all.take(i as int) =~= all);
    }
    head.append("\r\n");
    let mut out: Vec<u8> = Vec::new();
    out.extend_from_slice(head.as_str().as_bytes());
    out.extend_from_slice(body);
    proof {
        assert(out@ =~= rendered(status, headers.deep_view(), body@));
    }
    out
}

/// The headers of a response with a JSON body of a length.
pub open spec fn json_headers(length: nat, more: Seq<(Seq<char>, Seq<char>)>) -> Seq<
    (Seq<char>, Seq<char>),
> {
    comments::file_headers("no-store"@, "application/json; charset=utf-8"@, length) + more
}

/// A response with a JSON body.
pub open spec fn rendered_json(status: u16, value: JsonView, more: Seq<(Seq<char>, Seq<char>)>) -> Seq<
    u8,
> {
    let body = encode_utf8(json::json_text(value));
    rendered(status, json_headers(body.len(), more), body)
}

/// Writes a response with a JSON body and more headers.
pub fn write_json_with_headers(status: u16, value: &Json, more: &Vec<(String, String)>) -> (r: Vec<
    u8,
>)
    ensures
        r@ == rendered_json(status, value@, more.deep_view()),
{
    let body = json::written(value);
    let bytes = body.as_str().as_bytes();
    let mut headers = comments::make_file_headers(
        "no-store",
        "application/json; charset=utf-8",
        bytes.len(),
    );
    let ghost first = headers.deep_view();
    let ghost all = more.deep_view();
    let mut i: usize = 0;
    proof {
        assert(first + all.take(0) =~= first);
    }
    while i < more.len()
        invariant
            all == more.deep_view(),
            i <= more@.len(),
            headers.deep_view() == first + all.take(i as int),
        decreases more.len() - i,
    {
        json::put(&mut headers, (more[i].0.clone(), more[i].1.clone()));
        proof {
            assert(headers.deep_view() =~= first + all.take(i + 1));
        }
        i = i + 1;
    }
    proof {
        assert(all.take(i as int) =~= all);
    }
    write_response(status, &headers, bytes)
}

/// Writes a response with a JSON body.
pub fn write_json(status: u16, value: &Json) -> (r: Vec<u8>)
    ensures
        r@ == rendered_json(status, value@, Seq::empty()),
{
    write_json_with_headers(status, value, &json::none())
}

/// What is written to a connection: bytes, or a stream of events.
pub enum Delivery {
    Bytes(Vec<u8>),
    /// The stream that is only kept alive.
    Events,
    /// The stream of what happens in a thread.
    AiEvents(String),
}

pub enum DeliveryView {
    Bytes(Seq<u8>),
    Events,
    AiEvents(Seq<char>),
}

impl View for Delivery {
    type V = DeliveryView;

    open spec fn view(&self) -> DeliveryView {
        match self {
            Delivery::Bytes(b) => DeliveryView::Bytes(b@),
            Delivery::Events => DeliveryView::Events,
            Delivery::AiEvents(id) => DeliveryView::AiEvents(id@),
        }
    }
}

/// What is written for a response to a request with a method. A file is written without its body
/// where only its head is asked for.
pub open spec fn delivered(response: ResponseView, method: Seq<char>) -> DeliveryView {
    match response {
        ResponseView::Empty(status) => DeliveryView::Bytes(
            rendered(status, Seq::empty(), Seq::empty()),
        ),
        ResponseView::Json(status, value) => DeliveryView::Bytes(
            rendered_json(status, value, Seq::empty()),
        ),
        ResponseView::JsonWithHeaders(status, headers, value) => DeliveryView::Bytes(
            rendered_json(status, value, headers),
        ),
        ResponseView::Static(status, headers, body) => DeliveryView::Bytes(
            rendered(
                status,
                headers,
                if method == "HEAD"@ {
                    Seq::empty()
                } else {
                    body
                },
            ),
        ),
        ResponseView::EventStream => DeliveryView::Events,
        ResponseView::AiEventStream(thread_id) => DeliveryView::AiEvents(thread_id),
    }
}

/// Writes a response to a request with a method.
pub fn deliver(response: &Response, method: &str) -> (r: Delivery)
    ensures
        r@ == delivered(response@, method@),
{
    match response {
        Response::Empty(status) => {
            let nothing: Vec<u8> = Vec::new();
            proof {
                assert(nothing@ =~= Seq::empty());
            }
            Delivery::Bytes(write_response(*status, &json::none(), &nothing))
        },
        Response::Json(status, value) => Delivery::Bytes(write_json(*status, value)),
        Response::JsonWithHeaders(status, headers, value) => Delivery::Bytes(
            write_json_with_headers(*status, value, headers),
        ),
        Response::Static(status, headers, body) => {
            if text::same(method, "HEAD") {
                let nothing: Vec<u8> = Vec::new();
                proof {
                    assert(nothing@ =~= Seq::empty());
                }
                Delivery::Bytes(write_response(*status, headers, &nothing))
            } else {
                Delivery::Bytes(write_response(*status, headers, body))
            }
        },
        Response::EventStream => Delivery::Events,
        Response::AiEventStream(thread_id) => Delivery::AiEvents(thread_id.clone()),
    }
}

/// What is written for a request that failed with a message.
pub open spec fn failure_delivered(message: Seq<char>) -> DeliveryView {
    delivered(exchange::refusal(500, "INTERNAL_ERROR"@, message), Seq::empty())
}

/// Writes the response to a request that failed.
pub fn deliver_failure(message: &str) -> (r: Delivery)
    ensures
        r@ == failure_delivered(message@),
{
    let response = exchange::api_error(500, "INTERNAL_ERROR", message);
    match response {
        Response::Json(status, value) => Delivery::Bytes(write_json(status, &value)),
        other => deliver(&other, ""),
    }
}

/// A JSON response announces the length of its body, and is not to be kept.
pub proof fn law_json_response_announces_length(
    status: u16,
    value: JsonView,
    more: Seq<(Seq<char>, Seq<char>)>,
)
    ensures
        ({
            let body = encode_utf8(json::json_text(value));
            let headers = json_headers(body.len(), more);
            &&& rendered_json(status, value, more) == rendered(status, headers, body)
            &&& headers.contains(("content-length"@, text::decimal(body.len())))
            &&& headers.contains(("cache-control"@, "no-store"@))
        }),
{
    let body = encode_utf8(json::json_text(value));
    let headers = json_headers(body.len(), more);
    assert(headers[2] == ("content-length"@, text::decimal(body.len())));
    assert(headers[0] == ("cache-control"@, "no-store"@));
}

/// What the stream that is only kept alive starts with.
pub const EVENT_STREAM_START: &'static str = "HTTP/1.1 200 OK\r\nconnection: keep-alive\r\ncache-control: no-cache, no-transform\r\ncontent-type: text/event-stream; charset=utf-8\r\nx-accel-buffering: no\r\n\r\n: connected\n\n";

/// What the stream of what happens in a thread starts with.
pub const AI_EVENT_STREAM_START: &'static str = "HTTP/1.1 200 OK\r\nconnection: keep-alive\r\ncache-control: no-cache, no-transform\r\ncontent-type: text/event-stream; charset=utf-8\r\nx-accel-buffering: no\r\n\r\n: connected\n\nevent: ai.event\ndata: {\"type\":\"ai.event\"}\n\n";

/// That nothing happened.
pub const KEEP_ALIVE: &'static str = ": keep-alive\n\n";

/// That an event was added.
pub const EVENT_MESSAGE: &'static str = "event: ai.event\ndata: {\"type\":\"ai.event\"}\n\n";

/// That a run changed.
pub const RUN_MESSAGE: &'static str = "event: ai.run\ndata: {\"type\":\"ai.run\"}\n\n";

pub const LAST_EVENT: &'static str = "SELECT COALESCE(MAX(rowid), 0) FROM ai_chat_events WHERE thread_id = ?1";

pub const RUN_STATES: &'static str = "
        SELECT COALESCE(GROUP_CONCAT(id || ':' || status || ':' || COALESCE(finished_at, ''), '|'), '')
        FROM (
          SELECT id, status, finished_at
          FROM ai_chat_runs
          WHERE thread_id = ?1
          ORDER BY started_at, id
        )
        ";

/// How far the stream of a thread is: the last event that it told of, and how the runs stood.
pub struct AiEventStreamCursor {
    pub event_rowid: i64,
    pub run_state: String,
}

pub struct CursorView {
    pub event_rowid: int,
    pub run_state: Seq<char>,
}

impl View for AiEventStreamCursor {
    type V = CursorView;

    open spec fn view(&self) -> CursorView {
        CursorView { event_rowid: self.event_rowid as int, run_state: self.run_state@ }
    }
}

impl DeepView for AiEventStreamCursor {
    type V = CursorView;

    open spec fn deep_view(&self) -> CursorView {
        self@
    }
}

impl AiEventStreamCursor {
    /// The cursor of a stream that could not be read.
    pub fn start() -> (r: AiEventStreamCursor)
        ensures
            r@ == (CursorView { event_rowid: 0, run_state: Seq::empty() }),
    {
        AiEventStreamCursor { event_rowid: 0, run_state: String::new() }
    }
}

/// How far a thread is; the first two replies.
pub open spec fn cursor_at(replies: Seq<ReplyView>, thread_id: Seq<char>) -> Result<
    CursorView,
    StepView,
> {
    let key = store::params().push(store::text_param(thread_id));
    match exchange::rows_at(replies, 0, store::stated(LAST_EVENT@, key)) {
        Err(s) => Err(s),
        Ok(found) => match store::single_integer(found) {
            Err(m) => Err(StepView::Fail(m)),
            Ok(None) => Err(StepView::Fail("Query returned no rows"@)),
            Ok(Some(event_rowid)) => match exchange::rows_at(
                replies,
                1,
                store::stated(RUN_STATES@, key),
            ) {
                Err(s) => Err(s),
                Ok(states) => match store::single_text(states) {
                    Err(m) => Err(StepView::Fail(m)),
                    Ok(run_state) => Ok(CursorView { event_rowid, run_state }),
                },
            },
        },
    }
}

/// Reads how far a thread is.
pub fn ai_event_stream_cursor(replies: &Vec<Reply>, thread_id: &str) -> (r: Result<
    AiEventStreamCursor,
    Step,
>)
    ensures
        exchange::agrees(r, cursor_at(replies.deep_view(), thread_id@)),
{
    let found = exchange::rows(replies, 0, store::keyed(LAST_EVENT, thread_id))?;
    let event_rowid: i64 = match store::lift(store::read_single_integer(found))? {
        Some(i) => i,
        None => {
            return Err(Step::Fail("Query returned no rows".to_owned()));
        },
    };
    let states = exchange::rows(replies, 1, store::keyed(RUN_STATES, thread_id))?;
    let run_state = store::lift(store::read_single_text(states))?;
    Ok(AiEventStreamCursor { event_rowid, run_state })
}

/// What a stream tells when a thread has come from one place to another.
pub open spec fn told(cursor: CursorView, next: CursorView) -> Seq<Seq<char>> {
    let events = if next.event_rowid != cursor.event_rowid {
        Seq::empty().push(EVENT_MESSAGE@)
    } else {
        Seq::empty()
    };
    let runs = if next.run_state != cursor.run_state {
        events.push(RUN_MESSAGE@)
    } else {
        events
    };
    if next == cursor {
        runs.push(KEEP_ALIVE@)
    } else {
        runs
    }
}

/// Tells what happened between two places of a thread.
pub fn stream_messages(cursor: &AiEventStreamCursor, next: &AiEventStreamCursor) -> (r: Vec<String>)
    ensures
        r.deep_view() == told(cursor@, next@),
{
    let mut messages: Vec<String> = json::none();
    let new_event = next.event_rowid != cursor.event_rowid;
    let new_state = !text::same(&next.run_state, &cursor.run_state);
    if new_event {
        json::put(&mut messages, EVENT_MESSAGE.to_owned());
    }
    if new_state {
        json::put(&mut messages, RUN_MESSAGE.to_owned());
    }
    if !new_event && !new_state {
        json::put(&mut messages, KEEP_ALIVE.to_owned());
    }
    messages
}

/// A stream always tells something, and it is kept alive only where nothing happened.
pub proof fn law_stream_never_falls_silent(cursor: CursorView, next: CursorView)
    ensures
        told(cursor, next).len() >= 1,
        next == cursor ==> told(cursor, next) == Seq::empty().push(KEEP_ALIVE@),
        next.event_rowid != cursor.event_rowid ==> told(cursor, next)[0] == EVENT_MESSAGE@,
        next.run_state != cursor.run_state ==> told(cursor, next).last() == RUN_MESSAGE@,
{
}

} // verus!
