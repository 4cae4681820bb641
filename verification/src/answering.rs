//! What is sent: pages, answers and messages of a stream.
use crate::comments;
use crate::exchange;
use crate::exchange::{ActionView, ReplyView, ResponseView, SqlView, StatementView, StepView};
use crate::json;
use crate::json::JsonView;
use crate::pages;
use crate::responses;
use crate::responses::{CursorView, DeliveryView};
use crate::store;
use crate::text;
use vstd::prelude::*;
use vstd::utf8::*;

verus! {

/// The reason that is sent with each of the statuses in use.
pub proof fn law_statuses_have_their_reasons()
    ensures
        responses::reason(200) == "OK"@,
        responses::reason(201) == "Created"@,
        responses::reason(202) == "Accepted"@,
        responses::reason(204) == "No Content"@,
        responses::reason(400) == "Bad Request"@,
        responses::reason(404) == "Not Found"@,
        responses::reason(405) == "Method Not Allowed"@,
        responses::reason(409) == "Conflict"@,
        responses::reason(500) == "Internal Server Error"@,
        responses::reason(501) == "Not Implemented"@,
{
}

/// A response starts with its status and its reason, goes on with its headers in their order, one
/// line each, and ends with its body as it is, behind an empty line.
pub proof fn law_response_ends_with_its_body(
    status: u16,
    headers: Seq<(Seq<char>, Seq<char>)>,
    body: Seq<u8>,
)
    ensures
        ({
            let sent = responses::rendered(status, headers, body);
            let head = sent.take(sent.len() - body.len());
            &&& sent.len() >= body.len()
            &&& sent.skip(sent.len() - body.len()) == body
            &&& head == encode_utf8(
                "HTTP/1.1 "@ + text::decimal(status as nat) + " "@ + responses::reason(status)
                    + "\r\nx-content-type-options: nosniff\r\nreferrer-policy: no-referrer\r\nconnection: close\r\n"@
                    + responses::header_lines(headers) + "\r\n"@,
            )
        }),
{
    let sent = responses::rendered(status, headers, body);
    let head = encode_utf8(
        responses::first_lines(status) + responses::header_lines(headers) + "\r\n"@,
    );
    assert(sent.skip(sent.len() - body.len()) =~= body);
    assert(sent.take(sent.len() - body.len()) =~= head);
}

/// One more header is one more line at the end.
pub proof fn law_headers_are_sent_line_by_line(
    headers: Seq<(Seq<char>, Seq<char>)>,
    name: Seq<char>,
    value: Seq<char>,
)
    ensures
        responses::header_lines(Seq::empty()) == Seq::<char>::empty(),
        responses::header_lines(headers.push((name, value))) == responses::header_lines(headers)
            + name + ": "@ + value + "\r\n"@,
{
    assert(headers.push((name, value)).drop_last() =~= headers);
}

/// An answer in JSON is the text of its value, with its length in bytes; a file is sent as it is, but
/// not for `HEAD`, which asks for its headers alone.
pub proof fn law_answers_are_delivered_whole(
    status: u16,
    value: JsonView,
    headers: Seq<(Seq<char>, Seq<char>)>,
    body: Seq<u8>,
    method: Seq<char>,
)
    ensures
        responses::delivered(ResponseView::Json(status, value), method) == DeliveryView::Bytes(
            responses::rendered(
                status,
                seq![
                    ("cache-control"@, "no-store"@),
                    ("content-type"@, "application/json; charset=utf-8"@),
                    ("content-length"@, text::decimal(encode_utf8(json::json_text(value)).len())),
                ],
                encode_utf8(json::json_text(value)),
            ),
        ),
        responses::delivered(ResponseView::Static(status, headers, body), method)
            == DeliveryView::Bytes(
            responses::rendered(
                status,
                headers,
                if method == "HEAD"@ {
                    Seq::empty()
                } else {
                    body
                },
            ),
        ),
        responses::delivered(ResponseView::Empty(status), method) == DeliveryView::Bytes(
            responses::rendered(status, Seq::empty(), Seq::empty()),
        ),
{
    let length = encode_utf8(json::json_text(value)).len();
    assert(responses::json_headers(length, Seq::empty()) =~= seq![
        ("cache-control"@, "no-store"@),
        ("content-type"@, "application/json; charset=utf-8"@),
        ("content-length"@, text::decimal(length)),
    ]);
}

/// A stream tells of an event exactly where the last event is another, of a run exactly where the
/// runs are others, in this order, and keeps alive exactly where nothing happened.
pub proof fn law_stream_tells_what_happened(cursor: CursorView, next: CursorView)
    ensures
        ({
            let event = "event: ai.event\ndata: {\"type\":\"ai.event\"}\n\n"@;
            let run = "event: ai.run\ndata: {\"type\":\"ai.run\"}\n\n"@;
            let alive = ": keep-alive\n\n"@;
            let new_event = next.event_rowid != cursor.event_rowid;
            let new_run = next.run_state != cursor.run_state;
            responses::told(cursor, next) == if new_event && new_run {
                seq![event, run]
            } else if new_event {
                seq![event]
            } else if new_run {
                seq![run]
            } else {
                seq![alive]
            }
        }),
{
    let event = "event: ai.event\ndata: {\"type\":\"ai.event\"}\n\n"@;
    let run = "event: ai.run\ndata: {\"type\":\"ai.run\"}\n\n"@;
    let alive = ": keep-alive\n\n"@;
    let new_event = next.event_rowid != cursor.event_rowid;
    let new_run = next.run_state != cursor.run_state;
    if !new_event && !new_run {
        assert(next == cursor);
    }
    assert(responses::told(cursor, next) =~= if new_event && new_run {
        seq![event, run]
    } else if new_event {
        seq![event]
    } else if new_run {
        seq![run]
    } else {
        seq![alive]
    });
}

/// Where a stream stands is told by the last event and by the states of the runs of the thread.
pub proof fn law_cursor_is_that_of_the_thread(replies: Seq<ReplyView>, thread_id: Seq<char>)
    ensures
        responses::cursor_at(replies, thread_id) is Ok ==> ({
            let cursor = responses::cursor_at(replies, thread_id)->Ok_0;
            &&& replies.len() >= 2 && replies[0] is Tables && replies[1] is Tables
            &&& store::single_integer(replies[0]->Tables_0[0]) == Ok::<Option<int>, Seq<char>>(
                Some(cursor.event_rowid),
            )
            &&& store::single_text(replies[1]->Tables_0[0]) == Ok::<Seq<char>, Seq<char>>(
                cursor.run_state,
            )
        }),
        replies.len() == 0 ==> responses::cursor_at(replies, thread_id) == Err::<
            CursorView,
            StepView,
        >(
            StepView::Ask(
                ActionView::Read(
                    seq![
                        StatementView {
                            sql: "SELECT COALESCE(MAX(rowid), 0) FROM ai_chat_events WHERE thread_id = ?1"@,
                            params: seq![SqlView::Text(thread_id)],
                        },
                    ],
                ),
            ),
        ),
{
    assert(store::params().push(store::text_param(thread_id)) =~= seq![SqlView::Text(thread_id)]);
}

proof fn lemma_last_dot(stem: Seq<char>, extension: Seq<char>)
    requires
        !extension.contains('.'),
    ensures
        pages::last_dot(stem + seq!['.'] + extension) == stem.len(),
    decreases extension.len(),
{
    let name = stem + seq!['.'] + extension;
    if extension.len() == 0 {
        assert(name.last() == '.');
    } else {
        let less = extension.drop_last();
        assert(name.last() == extension.last());
        assert(extension.contains(extension.last()));
        assert(name.drop_last() =~= stem + seq!['.'] + less);
        assert forall|c: char| less.contains(c) implies extension.contains(c) by {
            let i = choose|i: int| 0 <= i < less.len() && less[i] == c;
            assert(extension[i] == c);
        }
        lemma_last_dot(stem, less);
    }
}

/// The type of a page file goes by what stands behind its last dot, where something stands before
/// it, and is that of plain bytes for any other file.
pub proof fn law_page_files_have_their_type(stem: Seq<char>, extension: Seq<char>)
    requires
        stem.len() > 0,
        !extension.contains('.'),
        stem + seq!['.'] + extension != ".."@,
    ensures
        ({
            let name = stem + seq!['.'] + extension;
            let sent = pages::type_of(pages::extension_of(name));
            &&& extension == "css"@ ==> sent == "text/css; charset=utf-8"@
            &&& extension == "html"@ ==> sent == "text/html; charset=utf-8"@
            &&& extension == "js"@ ==> sent == "text/javascript; charset=utf-8"@
            &&& extension == "json"@ ==> sent == "application/json; charset=utf-8"@
            &&& extension == "png"@ ==> sent == "image/png"@
            &&& extension == "svg"@ ==> sent == "image/svg+xml"@
            &&& extension == "webp"@ ==> sent == "image/webp"@
            &&& extension == "woff2"@ ==> sent == "font/woff2"@
            &&& !seq![
                "css"@,
                "html"@,
                "js"@,
                "json"@,
                "png"@,
                "svg"@,
                "webp"@,
                "woff2"@,
            ].contains(extension) ==> sent == "application/octet-stream"@
        }),
{
    let name = stem + seq!['.'] + extension;
    lemma_last_dot(stem, extension);
    assert(name.skip(stem.len() as int + 1) =~= extension);
    assert(pages::extension_of(name) == Some(extension));
    reveal_strlit("css");
    reveal_strlit("html");
    reveal_strlit("js");
    reveal_strlit("json");
    reveal_strlit("png");
    reveal_strlit("svg");
    reveal_strlit("webp");
    reveal_strlit("woff2");
    assert("css"@.len() == 3 && "html"@.len() == 4 && "js"@.len() == 2 && "json"@.len() == 4);
    assert("png"@.len() == 3 && "svg"@.len() == 3 && "webp"@.len() == 4 && "woff2"@.len() == 5);
    assert("css"@[0] == 'c' && "png"@[0] == 'p' && "svg"@[0] == 's');
    assert("html"@[0] == 'h' && "json"@[0] == 'j' && "webp"@[0] == 'w');
    let known = seq![
        "css"@,
        "html"@,
        "js"@,
        "json"@,
        "png"@,
        "svg"@,
        "webp"@,
        "woff2"@,
    ];
    assert(known[0] == "css"@ && known[1] == "html"@ && known[2] == "js"@ && known[3] == "json"@);
    assert(known[4] == "png"@ && known[5] == "svg"@ && known[6] == "webp"@ && known[7]
        == "woff2"@);
    if !known.contains(extension) {
        assert forall|i: int| 0 <= i < 8 implies extension != #[trigger] known[i] by {}
    }
}

/// A page file is sent as it is read, with its length and its type, and is asked for anew each time.
pub proof fn law_page_file_is_sent_as_it_is(replies: Seq<ReplyView>, names: Seq<Seq<char>>)
    requires
        pages::file_sent(replies, names) is Ok,
    ensures
        replies.len() >= 2,
        replies[1] is Bytes,
        pages::file_sent(replies, names)->Ok_0 == ResponseView::Static(
            200,
            seq![
                ("cache-control"@, "no-cache"@),
                ("content-type"@, pages::type_of(pages::last_extension(names))),
                ("content-length"@, text::decimal(replies[1]->Bytes_0.len())),
            ],
            replies[1]->Bytes_0,
        ),
{
    let body = replies[1]->Bytes_0;
    let kind = pages::type_of(pages::last_extension(names));
    assert(comments::file_headers("no-cache"@, kind, body.len()) =~= seq![
        ("cache-control"@, "no-cache"@),
        ("content-type"@, kind),
        ("content-length"@, text::decimal(body.len())),
    ]);
}

/// The start page stands for the empty path and for a path without an extension whose file is not
/// there; a path that ends with a slash stands for the start page of its directory.
pub proof fn law_page_file_is_the_one_named(
    path: Seq<char>,
    decoded: Seq<char>,
    names: Seq<Seq<char>>,
)
    ensures
        decoded.len() == 0 ==> pages::candidate(path, decoded, names) == seq!["index.html"@],
        decoded.len() > 0 && path.len() > 0 && path.last() == '/' ==> pages::candidate(
            path,
            decoded,
            names,
        ) == names.push("index.html"@),
        decoded.len() > 0 && path.len() > 0 && path.last() != '/' ==> pages::candidate(
            path,
            decoded,
            names,
        ) == names,
{
    reveal_strlit("/");
    assert(pages::start_page() =~= seq!["index.html"@]);
    if path.len() > 0 {
        assert(path.skip(path.len() - 1) =~= seq![path.last()]);
        assert("/"@ =~= seq!['/']);
        assert(path.skip(path.len() - 1).last() == path.last());
    }
}

/// An answer with more headers has those of any other first; the streams are opened as what they
/// are; and a request that failed is answered with its message.
pub proof fn law_streams_and_failures_are_delivered(
    status: u16,
    headers: Seq<(Seq<char>, Seq<char>)>,
    value: JsonView,
    method: Seq<char>,
    thread_id: Seq<char>,
    message: Seq<char>,
)
    ensures
        responses::delivered(ResponseView::JsonWithHeaders(status, headers, value), method)
            == DeliveryView::Bytes(
            responses::rendered(
                status,
                seq![
                    ("cache-control"@, "no-store"@),
                    ("content-type"@, "application/json; charset=utf-8"@),
                    ("content-length"@, text::decimal(encode_utf8(json::json_text(value)).len())),
                ] + headers,
                encode_utf8(json::json_text(value)),
            ),
        ),
        responses::delivered(ResponseView::EventStream, method) == DeliveryView::Events,
        responses::delivered(ResponseView::AiEventStream(thread_id), method)
            == DeliveryView::AiEvents(thread_id),
        responses::failure_delivered(message) == responses::delivered(
            exchange::refusal(500, "INTERNAL_ERROR"@, message),
            method,
        ),
{
    let length = encode_utf8(json::json_text(value)).len();
    assert(comments::file_headers("no-store"@, "application/json; charset=utf-8"@, length) =~= seq![
        ("cache-control"@, "no-store"@),
        ("content-type"@, "application/json; charset=utf-8"@),
        ("content-length"@, text::decimal(length)),
    ]);
}

/// A path that steps out of the page is refused, and so is a file that is not there, where its name
/// has an extension; where it has none, the start page is sent in its place.
pub proof fn law_why_a_page_file_is_refused(
    replies: Seq<ReplyView>,
    path: Seq<char>,
    decoded: Seq<char>,
    parts: Seq<pages::PathPartView>,
    names: Seq<Seq<char>>,
)
    ensures
        parts.len() > 0 && parts.last() is Parent && pages::names_of(parts.drop_last()) is Ok
            ==> pages::page_file(replies, path, decoded, parts) == Err::<Seq<Seq<char>>, StepView>(
            StepView::Fail("invalid static path"@),
        ),
        pages::names_of(parts) == Ok::<Seq<Seq<char>>, Seq<char>>(names) && replies.len() > 0
            && replies[0] == ReplyView::Flag(false) ==> pages::page_file(
            replies,
            path,
            decoded,
            parts,
        ) == (if pages::last_extension(names) is Some {
            Err::<Seq<Seq<char>>, StepView>(StepView::Fail("static file not found"@))
        } else {
            Ok::<Seq<Seq<char>>, StepView>(Seq::empty().push("index.html"@))
        }),
{
}

/// The type of a file is told by the last of the names that lead to it: by what stands behind its
/// last dot, unless nothing stands before that.
pub proof fn law_last_name_tells_the_type(
    names: Seq<Seq<char>>,
    stem: Seq<char>,
    extension: Seq<char>,
)
    requires
        stem.len() > 0,
        !extension.contains('.'),
        stem + seq!['.'] + extension != ".."@,
    ensures
        pages::last_extension(names.push(stem + seq!['.'] + extension)) == Some(extension),
        pages::last_extension(names.push(extension)) is None,
        pages::last_extension(Seq::empty()) is None,
{
    let name = stem + seq!['.'] + extension;
    lemma_last_dot(stem, extension);
    assert(name.skip(stem.len() as int + 1) =~= extension);
    assert(names.push(name).last() == name);
    assert(names.push(extension).last() == extension);
    lemma_no_dot(extension);
}

proof fn lemma_no_dot(s: Seq<char>)
    requires
        !s.contains('.'),
    ensures
        pages::last_dot(s) == -1,
    decreases s.len(),
{
    if s.len() > 0 {
        assert(s.contains(s.last()));
        assert forall|c: char| s.drop_last().contains(c) implies s.contains(c) by {
            let i = choose|i: int| 0 <= i < s.drop_last().len() && s.drop_last()[i] == c;
            assert(s[i] == c);
        }
        lemma_no_dot(s.drop_last());
    }
}

} // verus!
