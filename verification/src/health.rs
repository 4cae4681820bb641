//! That the answer of the service to a question for its health passes the check of the launcher.
use crate::encoding;
use crate::json;
use crate::json::JsonView;
use crate::request;
use crate::request::RequestView;
use crate::responses;
use crate::routes;
use crate::routes::RouteView;
use crate::runtime;
use crate::text;
use vstd::prelude::*;
use vstd::utf8::*;

verus! {

/// The lines of a text are those of its parts, where the first part ends with a line feed.
proof fn lemma_lines_join(x: Seq<char>, y: Seq<char>)
    requires
        x.len() > 0,
        x.last() == '\n',
    ensures
        text::lines_spec(x + y) == text::lines_spec(x) + text::lines_spec(y),
{
    text::lemma_split_joins(x, y, '\n');
    let a = text::split_spec(x, '\n').drop_last();
    let b = text::split_spec(y, '\n');
    let f = |line: Seq<char>| text::without_cr(line);
    assert((a + b).drop_last() =~= a + b.drop_last());
    assert((a + b.drop_last()).map_values(f) =~= a.map_values(f) + b.drop_last().map_values(f));
    assert((a + b).last() == b.last());
    assert(text::lines_spec(x + y) =~= text::lines_spec(x) + text::lines_spec(y));
}

/// A text without a line feed is one line behind which a line break stands.
proof fn lemma_one_line(line: Seq<char>, end: Seq<char>)
    requires
        !line.contains('\n'),
        end == seq!['\r', '\n'],
    ensures
        text::lines_spec(line + end) == seq![line],
        (line + end).last() == '\n',
{
    let inner = line.push('\r');
    assert(!inner.contains('\n')) by {
        if inner.contains('\n') {
            let k = choose|k: int| 0 <= k < inner.len() && inner[k] == '\n';
            assert(line[k] == '\n');
        }
    }
    text::lemma_split_plain(inner, '\n');
    let whole = line + end;
    assert(whole.drop_last() =~= inner);
    assert(text::split_spec(whole, '\n') =~= seq![inner, Seq::empty()]);
    assert(text::without_cr(inner) =~= line);
    let f = |l: Seq<char>| text::without_cr(l);
    assert(seq![inner, Seq::<char>::empty()].drop_last().map_values(f) =~= seq![line]);
}

proof fn lemma_last_line(line: Seq<char>)
    requires
        !line.contains('\n'),
        line.len() > 0,
    ensures
        text::lines_spec(line) == seq![line],
{
    text::lemma_split_plain(line, '\n');
    let f = |l: Seq<char>| text::without_cr(l);
    assert(seq![line].drop_last().map_values(f) =~= Seq::empty());
    assert(Seq::<Seq<char>>::empty().push(line) =~= seq![line]);
}

/// A header as a line.
pub open spec fn header_line(header: (Seq<char>, Seq<char>)) -> Seq<char> {
    header.0 + ": "@ + header.1
}

/// Whether a header stands on one line, and its name before the first colon of it.
pub open spec fn is_plain(header: (Seq<char>, Seq<char>)) -> bool {
    !header.0.contains(':') && !header.0.contains('\n') && !header.1.contains('\n')
}

proof fn lemma_literals()
    ensures
        ": "@ == seq![':', ' '],
        "\r\n"@ == seq!['\r', '\n'],
{
    reveal_strlit(": ");
    reveal_strlit("\r\n");
    assert(": "@ =~= seq![':', ' ']);
    assert("\r\n"@ =~= seq!['\r', '\n']);
}

proof fn lemma_header_lines(headers: Seq<(Seq<char>, Seq<char>)>)
    requires
        forall|i: int| 0 <= i < headers.len() ==> is_plain(#[trigger] headers[i]),
    ensures
        text::lines_spec(responses::header_lines(headers)) == headers.map_values(
            |h: (Seq<char>, Seq<char>)| header_line(h),
        ),
        headers.len() > 0 ==> responses::header_lines(headers).len() > 0
            && responses::header_lines(headers).last() == '\n',
    decreases headers.len(),
{
    let f = |h: (Seq<char>, Seq<char>)| header_line(h);
    if headers.len() == 0 {
        assert(text::lines_spec(Seq::empty()) =~= Seq::empty());
        assert(headers.map_values(f) =~= Seq::empty());
    } else {
        lemma_literals();
        let before = headers.drop_last();
        let last = headers.last();
        let line = header_line(last);
        assert(is_plain(headers[headers.len() - 1]));
        assert(!line.contains('\n')) by {
            if line.contains('\n') {
                let k = choose|k: int| 0 <= k < line.len() && line[k] == '\n';
                if k < last.0.len() {
                    assert(last.0[k] == '\n');
                } else if k >= last.0.len() + 2 {
                    assert(last.1[k - last.0.len() - 2] == '\n');
                }
            }
        }
        lemma_one_line(line, "\r\n"@);
        assert forall|i: int| 0 <= i < before.len() implies is_plain(#[trigger] before[i]) by {
            assert(before[i] == headers[i]);
        }
        lemma_header_lines(before);
        let x = responses::header_lines(before);
        let y = line + "\r\n"@;
        assert(responses::header_lines(headers) =~= x + y);
        if before.len() > 0 {
            lemma_lines_join(x, y);
        } else {
            assert(x + y =~= y);
            assert(before.map_values(f) =~= Seq::empty());
        }
        assert(before.map_values(f) + seq![line] =~= headers.map_values(f));
    }
}

proof fn lemma_header_lines_join(
    a: Seq<(Seq<char>, Seq<char>)>,
    b: Seq<(Seq<char>, Seq<char>)>,
)
    ensures
        responses::header_lines(a + b) == responses::header_lines(a) + responses::header_lines(b),
    decreases b.len(),
{
    if b.len() == 0 {
        assert(a + b =~= a);
        assert(responses::header_lines(a) + responses::header_lines(b)
            =~= responses::header_lines(a));
    } else {
        lemma_header_lines_join(a, b.drop_last());
        assert((a + b).drop_last() =~= a + b.drop_last());
        assert((a + b).last() == b.last());
        assert(responses::header_lines(a + b) =~= responses::header_lines(a)
            + responses::header_lines(b));
    }
}

proof fn lemma_position_of_name(line: Seq<char>, n: int)
    requires
        0 <= n < line.len(),
        line[n] == ':',
        forall|k: int| 0 <= k < n ==> #[trigger] line[k] != ':',
    ensures
        text::position(line, ':') == n,
    decreases n,
{
    if n > 0 {
        assert(line[0] != ':');
        let rest = line.drop_first();
        assert forall|k: int| 0 <= k < n - 1 implies #[trigger] rest[k] != ':' by {
            assert(rest[k] == line[k + 1]);
        }
        lemma_position_of_name(rest, n - 1);
    }
}

/// A header line names its host where it is the header of the host.
proof fn lemma_header_binds(header: (Seq<char>, Seq<char>), host: Seq<char>)
    requires
        is_plain(header),
    ensures
        runtime::binds(header_line(header), host) == (text::lowered(header.0) == text::lowered(
            runtime::TASKBOARD_BIND_HOST_HEADER@,
        ) && text::trimmed(seq![' '] + header.1) == host),
{
    lemma_literals();
    let line = header_line(header);
    let n = header.0.len() as int;
    assert(line[n] == ':');
    assert forall|k: int| 0 <= k < n implies #[trigger] line[k] != ':' by {
        assert(line[k] == header.0[k]);
        assert(header.0.contains(header.0[k]));
    }
    lemma_position_of_name(line, n);
    assert(line.contains(':'));
    assert(line.take(n) =~= header.0);
    assert(line.skip(n + 1) =~= seq![' '] + header.1);
}

proof fn lemma_encoding_joins(a: Seq<char>, b: Seq<char>)
    ensures
        encode_utf8(a + b) == encode_utf8(a) + encode_utf8(b),
    decreases a.len(),
{
    if a.len() == 0 {
        assert(a + b =~= b);
        assert(encode_utf8(a) + encode_utf8(b) =~= encode_utf8(b));
    } else {
        lemma_encoding_joins(a.drop_first(), b);
        assert((a + b).drop_first() =~= a.drop_first() + b);
        assert(encode_utf8(a + b) =~= encode_utf8(a) + encode_utf8(b));
    }
}

/// The headers that every response has.
pub open spec fn common_headers() -> Seq<(Seq<char>, Seq<char>)> {
    seq![
        ("x-content-type-options"@, "nosniff"@),
        ("referrer-policy"@, "no-referrer"@),
        ("connection"@, "close"@),
    ]
}

/// The headers of the answer to a question for the health of the service.
pub open spec fn health_headers(length: nat) -> Seq<(Seq<char>, Seq<char>)> {
    common_headers() + responses::json_headers(
        length,
        Seq::empty().push(("x-taskboard-bind-host"@, "127.0.0.1"@)),
    )
}

proof fn lemma_decimal_of_two_hundred()
    ensures
        text::decimal(200) == seq!['2', '0', '0'],
{
    reveal_with_fuel(text::decimal, 3);
    assert(200nat / 10 == 20 && 20nat / 10 == 2 && 200nat % 10 == 0 && 20nat % 10 == 0);
    assert(text::digit(2) == '2' && text::digit(0) == '0');
    assert(text::decimal(200) =~= seq!['2', '0', '0']);
}

proof fn lemma_common_lines()
    ensures
        "\r\nx-content-type-options: nosniff\r\nreferrer-policy: no-referrer\r\nconnection: close\r\n"@
            == "\r\n"@ + responses::header_lines(common_headers()),
{
    reveal_strlit(
        "\r\nx-content-type-options: nosniff\r\nreferrer-policy: no-referrer\r\nconnection: close\r\n",
    );
    reveal_strlit("\r\n");
    reveal_strlit(": ");
    reveal_strlit("x-content-type-options");
    reveal_strlit("nosniff");
    reveal_strlit("referrer-policy");
    reveal_strlit("no-referrer");
    reveal_strlit("connection");
    reveal_strlit("close");
    let h = common_headers();
    let one = "x-content-type-options"@ + ": "@ + "nosniff"@ + "\r\n"@;
    let two = one + "referrer-policy"@ + ": "@ + "no-referrer"@ + "\r\n"@;
    let three = two + "connection"@ + ": "@ + "close"@ + "\r\n"@;
    assert(responses::header_lines(h) =~= three) by {
        reveal_with_fuel(responses::header_lines, 4);
        assert(h.drop_last().last() == h[1]);
        assert(h.drop_last().drop_last().last() == h[0]);
    }
    assert(one.len() == 33);
    assert(two.len() == 63);
    assert(three.len() == 82);
    assert("\r\nx-content-type-options: nosniff\r\nreferrer-policy: no-referrer\r\nconnection: close\r\n"@
        =~= "\r\n"@ + three);
}

proof fn lemma_first_lines()
    ensures
        responses::first_lines(200) == "HTTP/1.1 200 OK"@ + "\r\n"@ + responses::header_lines(
            common_headers(),
        ),
{
    lemma_decimal_of_two_hundred();
    lemma_common_lines();
    reveal_strlit("HTTP/1.1 200 OK");
    reveal_strlit("HTTP/1.1 ");
    reveal_strlit(" ");
    reveal_strlit("OK");
    assert("HTTP/1.1 "@ + text::decimal(200) + " "@ + "OK"@ =~= "HTTP/1.1 200 OK"@);
    assert(responses::first_lines(200) =~= "HTTP/1.1 200 OK"@ + "\r\n"@ + responses::header_lines(
        common_headers(),
    ));
}

proof fn lemma_decimal_digits(n: nat)
    ensures
        forall|i: int| 0 <= i < text::decimal(n).len() ==> text::is_digit(#[trigger] text::decimal(n)[i]),
    decreases n,
{
    if n >= 10 {
        lemma_decimal_digits(n / 10);
        assert forall|i: int| 0 <= i < text::decimal(n).len() implies text::is_digit(
            #[trigger] text::decimal(n)[i],
        ) by {
            if i < text::decimal(n / 10).len() {
                assert(text::decimal(n)[i] == text::decimal(n / 10)[i]);
            }
        }
    }
}

proof fn lemma_headers_are_plain(length: nat)
    ensures
        forall|i: int|
            0 <= i < health_headers(length).len() ==> is_plain(#[trigger] health_headers(length)[i]),
        health_headers(length).len() == 7,
        health_headers(length)[6] == ("x-taskboard-bind-host"@, "127.0.0.1"@),
        forall|i: int|
            0 <= i < 6 ==> (#[trigger] health_headers(length)[i]).0.len()
                != runtime::TASKBOARD_BIND_HOST_HEADER@.len(),
{
    reveal_strlit("x-content-type-options");
    reveal_strlit("nosniff");
    reveal_strlit("referrer-policy");
    reveal_strlit("no-referrer");
    reveal_strlit("connection");
    reveal_strlit("close");
    reveal_strlit("cache-control");
    reveal_strlit("no-store");
    reveal_strlit("content-type");
    reveal_strlit("application/json; charset=utf-8");
    reveal_strlit("content-length");
    reveal_strlit("x-taskboard-bind-host");
    reveal_strlit("127.0.0.1");
    lemma_decimal_digits(length);
    let h = health_headers(length);
    assert(h[0] == common_headers()[0] && h[1] == common_headers()[1] && h[2]
        == common_headers()[2]);
    assert(h[3] == ("cache-control"@, "no-store"@));
    assert(h[4] == ("content-type"@, "application/json; charset=utf-8"@));
    assert(h[5] == ("content-length"@, text::decimal(length)));
    assert(!text::decimal(length).contains('\n'));
}

/// The value that tells that the service is healthy.
pub open spec fn health_value() -> JsonView {
    JsonView::Object(json::members().push(("status"@, JsonView::Text("ok"@))))
}

/// The answer to a question for the health of the service, as text.
pub open spec fn health_text() -> Seq<char> {
    let body = json::json_text(health_value());
    "HTTP/1.1 200 OK"@ + "\r\n"@ + responses::header_lines(health_headers(encode_utf8(body).len()))
        + "\r\n"@ + body
}

proof fn lemma_health_text()
    ensures
        responses::delivered(routes::health(), "GET"@) == responses::DeliveryView::Bytes(
            encode_utf8(health_text()),
        ),
{
    let body = json::json_text(health_value());
    let bytes = encode_utf8(body);
    let more = Seq::empty().push(("x-taskboard-bind-host"@, "127.0.0.1"@));
    let headers = responses::json_headers(bytes.len(), more);
    lemma_first_lines();
    lemma_header_lines_join(common_headers(), headers);
    let head = responses::first_lines(200) + responses::header_lines(headers) + "\r\n"@;
    assert(health_text() =~= head + body);
    lemma_encoding_joins(head, body);
}

proof fn lemma_health_lines(body: Seq<char>, length: nat)
    requires
        !body.contains('\n'),
        body.len() > 0,
    ensures
        ({
            let f = |h: (Seq<char>, Seq<char>)| header_line(h);
            text::lines_spec(
                "HTTP/1.1 200 OK"@ + "\r\n"@ + responses::header_lines(health_headers(length))
                    + "\r\n"@ + body,
            ) == seq!["HTTP/1.1 200 OK"@] + health_headers(length).map_values(f) + seq![
                Seq::empty(),
                body,
            ]
        }),
{
    let f = |h: (Seq<char>, Seq<char>)| header_line(h);
    let headers = health_headers(length);
    let first = "HTTP/1.1 200 OK"@ + "\r\n"@;
    let middle = responses::header_lines(headers);
    let empty = Seq::<char>::empty();
    lemma_literals();
    lemma_headers_are_plain(length);
    reveal_strlit("HTTP/1.1 200 OK");
    lemma_one_line("HTTP/1.1 200 OK"@, "\r\n"@);
    lemma_one_line(empty, "\r\n"@);
    assert(empty + "\r\n"@ =~= "\r\n"@);
    lemma_header_lines(headers);
    lemma_last_line(body);
    lemma_lines_join("\r\n"@, body);
    lemma_lines_join(middle, "\r\n"@ + body);
    lemma_lines_join(first, middle + ("\r\n"@ + body));
    assert(first + middle + "\r\n"@ + body =~= first + (middle + ("\r\n"@ + body)));
    assert(seq!["HTTP/1.1 200 OK"@] + (headers.map_values(f) + (seq![empty] + seq![body]))
        =~= seq!["HTTP/1.1 200 OK"@] + headers.map_values(f) + seq![empty, body]);
}

proof fn lemma_loopback_is_trimmed()
    ensures
        text::trimmed(seq![' '] + "127.0.0.1"@) == "127.0.0.1"@,
        "127.0.0.1"@ != "0.0.0.0"@,
{
    reveal_strlit("127.0.0.1");
    reveal_strlit("0.0.0.0");
    let value = seq![' '] + "127.0.0.1"@;
    reveal_with_fuel(text::trimmed_start, 2);
    assert(value[0] == ' ');
    assert(value.drop_first() =~= "127.0.0.1"@);
    assert("127.0.0.1"@[0] == '1' && "127.0.0.1"@.last() == '1');
    assert("127.0.0.1"@.len() != "0.0.0.0"@.len());
}

proof fn lemma_held_behind(before: Seq<char>, s: Seq<char>, block: Seq<char>)
    requires
        text::holds(s, block),
    ensures
        text::holds(before + s, block),
{
    let i = choose|i: int|
        0 <= i <= s.len() - block.len() && #[trigger] s.subrange(i, i + block.len()) == block;
    let whole = before + s;
    let at = before.len() + i;
    assert(whole.subrange(at, at + block.len()) =~= s.subrange(i, i + block.len()));
}

proof fn lemma_line_without_colon(line: Seq<char>, host: Seq<char>)
    requires
        !line.contains(':'),
    ensures
        !runtime::binds(line, host),
{
}

proof fn lemma_health_text_matches(body: Seq<char>, length: nat)
    requires
        text::holds(body, "\"status\":\"ok\""@),
        !body.contains('\n'),
        !runtime::binds(body, "0.0.0.0"@),
    ensures
        ({
            let answer = "HTTP/1.1 200 OK"@ + "\r\n"@ + responses::header_lines(
                health_headers(length),
            ) + "\r\n"@ + body;
            runtime::health_matches(answer, "127.0.0.1"@) && !runtime::health_matches(
                answer,
                "0.0.0.0"@,
            )
        }),
{
    let f = |h: (Seq<char>, Seq<char>)| header_line(h);
    let headers = health_headers(length);
    let head = "HTTP/1.1 200 OK"@ + "\r\n"@ + responses::header_lines(headers) + "\r\n"@;
    let answer = head + body;
    reveal_strlit("\"status\":\"ok\"");
    reveal_strlit("HTTP/1.1 200 OK");
    reveal_strlit(" 200 ");
    assert(body.len() > 0);
    lemma_health_lines(body, length);
    lemma_headers_are_plain(length);
    lemma_loopback_is_trimmed();
    lemma_held_behind(head, body, "\"status\":\"ok\""@);
    assert(answer.subrange(8, 8int + " 200 "@.len()) =~= " 200 "@);
    let lines = text::lines_spec(answer);
    lemma_header_binds(headers[6], "127.0.0.1"@);
    assert(lines[7] == header_line(headers[6]));
    assert(runtime::binds(lines[7], "127.0.0.1"@));
    assert forall|i: int| 0 <= i < lines.len() implies !runtime::binds(
        #[trigger] lines[i],
        "0.0.0.0"@,
    ) by {
        if i == 0 {
            lemma_line_without_colon(lines[i], "0.0.0.0"@);
        } else if i < 8 {
            assert(lines[i] == header_line(headers[i - 1]));
            lemma_header_binds(headers[i - 1], "0.0.0.0"@);
            if i < 7 {
                assert(text::lowered(headers[i - 1].0).len() == headers[i - 1].0.len());
                assert(text::lowered(runtime::TASKBOARD_BIND_HOST_HEADER@).len()
                    == runtime::TASKBOARD_BIND_HOST_HEADER@.len());
            }
        } else if i == 8 {
            assert(lines[i] == Seq::<char>::empty());
            lemma_line_without_colon(lines[i], "0.0.0.0"@);
        } else {
            assert(lines[i] == body);
        }
    }
}

proof fn lemma_health_body()
    ensures
        ({
            let body = json::json_text(health_value());
            &&& text::holds(body, "\"status\":\"ok\""@)
            &&& !body.contains('\n')
            &&& !runtime::binds(body, "0.0.0.0"@)
        }),
{
    let body = json::json_text(health_value());
    let block = "\"status\":\"ok\""@;
    reveal_strlit("status");
    reveal_strlit("ok");
    reveal_strlit("{\"");
    reveal_strlit("\":\"");
    reveal_strlit("\"}");
    reveal_strlit("\"status\":\"ok\"");
    reveal_strlit("x-taskboard-bind-host");
    assert(json::is_single_text(health_value()));
    assert(body == json::single_text("status"@, "ok"@));
    assert(body.len() == 15);
    assert(body.subrange(1, 1int + block.len()) =~= block);
    assert(body[9] == ':');
    lemma_position_of_name(body, 9);
    assert(text::lowered(body.take(9)).len() == 9);
    assert(text::lowered(runtime::TASKBOARD_BIND_HOST_HEADER@).len() == 21);
}

/// The answer of the service to a question for its health passes the check of the launcher for the
/// loopback address, and never the one for the local network.
pub proof fn law_health_answer_passes_the_check(request: RequestView, skill_path: Seq<char>)
    requires
        request.path == "/health"@,
        request.method == "GET"@,
    ensures
        routes::route_of(request, skill_path) == Ok::<RouteView, Seq<char>>(
            RouteView::Answer(routes::health()),
        ),
        ({
            let bytes = responses::delivered(routes::health(), request.method)->Bytes_0;
            &&& responses::delivered(routes::health(), request.method) is Bytes
            &&& valid_utf8(bytes)
            &&& runtime::health_matches(decode_utf8(bytes), runtime::LOOPBACK_TASKBOARD_HOST@)
            &&& !runtime::health_matches(decode_utf8(bytes), runtime::LAN_TASKBOARD_HOST@)
        }),
{
    let body = json::json_text(health_value());
    lemma_health_body();
    lemma_health_text();
    lemma_health_text_matches(body, encode_utf8(body).len());
    encode_utf8_valid_utf8(health_text());
    encode_utf8_decode_utf8(health_text());
}

/// Whether a token stands on one line: it is made of ASCII characters, without a line break among
/// them.
pub open spec fn is_token(token: Seq<char>) -> bool {
    is_ascii_chars(token) && !token.contains('\r') && !token.contains('\n')
}

/// The lines of the question for the health of the service.
pub open spec fn probe_lines(token: Option<Seq<char>>) -> Seq<Seq<char>> {
    match token {
        Some(token) => seq![
            "GET /health HTTP/1.1"@,
            "Host: 127.0.0.1:47823"@,
            "Authorization: Basic "@ + token,
            "Connection: close"@,
        ],
        None => seq![
            "GET /health HTTP/1.1"@,
            "Host: 127.0.0.1:47823"@,
            "Connection: close"@,
        ],
    }
}

/// Lines with a line break between each and the next.
pub open spec fn broken(lines: Seq<Seq<char>>) -> Seq<char>
    decreases lines.len(),
{
    if lines.len() == 0 {
        Seq::empty()
    } else if lines.len() == 1 {
        lines[0]
    } else {
        lines[0] + seq!['\r', '\n'] + broken(lines.skip(1))
    }
}

/// Whether a line of the head of a request is one: it is not empty, is made of ASCII characters,
/// and has no line break in it.
pub open spec fn is_line(line: Seq<char>) -> bool {
    line.len() > 0 && is_token(line)
}

proof fn lemma_broken(lines: Seq<Seq<char>>)
    requires
        lines.len() > 0,
        forall|i: int| 0 <= i < lines.len() ==> is_line(#[trigger] lines[i]),
    ensures
        broken(lines).len() > 0,
        broken(lines)[0] != '\r',
        is_ascii_chars(broken(lines)),
        text::lines_spec(broken(lines)) == lines,
        broken(lines).last() != '\r',
        forall|k: int|
            0 <= k < broken(lines).len() - 2 && #[trigger] broken(lines)[k] == '\r' ==> broken(
                lines,
            )[k + 2] != '\r',
        forall|k: int|
            0 <= k < broken(lines).len() && #[trigger] broken(lines)[k] == '\r' ==> k
                < broken(lines).len() - 2,
    decreases lines.len(),
{
    assert(is_line(lines[0]));
    let first = lines[0];
    assert forall|k: int| 0 <= k < first.len() implies #[trigger] first[k] != '\r' by {
        assert(first.contains(first[k]));
    }
    if lines.len() == 1 {
        lemma_last_line(first);
        assert(seq![first] =~= lines);
    } else {
        let rest = lines.skip(1);
        assert forall|i: int| 0 <= i < rest.len() implies is_line(#[trigger] rest[i]) by {
            assert(rest[i] == lines[i + 1]);
        }
        lemma_broken(rest);
        let end = seq!['\r', '\n'];
        let tail = broken(rest);
        let whole = broken(lines);
        let n = first.len() as int;
        lemma_one_line(first, end);
        lemma_lines_join(first + end, tail);
        assert(seq![first] + rest =~= lines);
        assert(whole[n] == '\r' && whole[n + 1] == '\n');
        assert forall|k: int| 0 <= k < whole.len() implies '\0' <= #[trigger] whole[k] <= '\u{7f}' by {
            if k < n {
                assert(whole[k] == first[k]);
            } else if k >= n + 2 {
                assert(whole[k] == tail[k - n - 2]);
            }
        }
        assert forall|k: int| 0 <= k < whole.len() && #[trigger] whole[k] == '\r' implies k
            < whole.len() - 2 by {
            if k < n {
                assert(whole[k] == first[k]);
            } else if k >= n + 2 {
                assert(whole[k] == tail[k - n - 2]);
            }
        }
        assert forall|k: int|
            0 <= k < whole.len() - 2 && #[trigger] whole[k] == '\r' implies whole[k + 2] != '\r' by {
            if k < n {
                assert(whole[k] == first[k]);
            } else if k == n {
                assert(whole[k + 2] == tail[0]);
            } else if k >= n + 2 {
                assert(whole[k] == tail[k - n - 2]);
                assert(whole[k + 2] == tail[k - n]);
            }
        }
        assert(whole.last() == tail.last());
        assert(whole[0] == first[0]);
    }
}

proof fn lemma_head_ends(lines: Seq<Seq<char>>)
    requires
        lines.len() > 0,
        forall|i: int| 0 <= i < lines.len() ==> is_line(#[trigger] lines[i]),
    ensures
        ({
            let head = broken(lines);
            let bytes = encode_utf8(head + seq!['\r', '\n', '\r', '\n']);
            &&& request::header_end_spec(bytes) == Some(head.len() as int)
            &&& bytes.len() == head.len() + 4
            &&& text::lossy_text(bytes.take(head.len() as int)) == head
        }),
{
    let head = broken(lines);
    let whole = head + seq!['\r', '\n', '\r', '\n'];
    let n = head.len() as int;
    lemma_broken(lines);
    assert forall|k: int| 0 <= k < whole.len() implies '\0' <= #[trigger] whole[k] <= '\u{7f}' by {
        if k < n {
            assert(whole[k] == head[k]);
        }
    }
    is_ascii_chars_encode_utf8(whole);
    is_ascii_chars_encode_utf8(head);
    let bytes = encode_utf8(whole);
    assert(request::ends_head(bytes, n)) by {
        assert(whole[n] == '\r' && whole[n + 1] == '\n' && whole[n + 2] == '\r' && whole[n + 3]
            == '\n');
    }
    assert forall|k: int| 0 <= k < n implies !request::ends_head(bytes, k) by {
        if request::ends_head(bytes, k) {
            assert(whole[k] as u8 == 13 && whole[k + 2] as u8 == 13);
            assert(whole[k] == '\r' && whole[k + 2] == '\r');
            assert(head[k] == '\r');
            assert(head[k + 2] == whole[k + 2]);
        }
    }
    request::lemma_header_end_is(bytes, Some(n));
    assert(bytes.take(n) =~= encode_utf8(head)) by {
        assert forall|k: int| 0 <= k < n implies #[trigger] bytes[k] == encode_utf8(head)[k] by {
            assert(whole[k] == head[k]);
        }
    }
    encode_utf8_valid_utf8(head);
    encode_utf8_decode_utf8(head);
}

proof fn lemma_probe_lines(token: Option<Seq<char>>)
    requires
        token is Some ==> is_token(token->0),
    ensures
        forall|i: int|
            0 <= i < probe_lines(token).len() ==> is_line(#[trigger] probe_lines(token)[i]),
{
    reveal_strlit("GET /health HTTP/1.1");
    reveal_strlit("Host: 127.0.0.1:47823");
    reveal_strlit("Authorization: Basic ");
    reveal_strlit("Connection: close");
    if token is Some {
        let line = "Authorization: Basic "@ + token->0;
        assert(line[0] == 'A');
        assert forall|k: int| 0 <= k < line.len() implies '\0' <= #[trigger] line[k] <= '\u{7f}'
            && line[k] != '\r' && line[k] != '\n' by {
            if k >= "Authorization: Basic "@.len() {
                let j = k - "Authorization: Basic "@.len();
                assert(line[k] == (token->0)[j]);
                assert((token->0).contains((token->0)[j]));
            }
        }
        assert(is_line(line));
    }
    assert(is_line("GET /health HTTP/1.1"@));
    assert(is_line("Host: 127.0.0.1:47823"@));
    assert(is_line("Connection: close"@));
}

proof fn lemma_probe_text(token: Option<Seq<char>>)
    ensures
        runtime::probe_request("GET /health"@, token) == broken(probe_lines(token)) + seq![
            '\r',
            '\n',
            '\r',
            '\n',
        ],
{
    reveal_strlit("GET /health");
    reveal_strlit(" HTTP/1.1\r\nHost: 127.0.0.1:47823\r\n");
    reveal_strlit("GET /health HTTP/1.1");
    reveal_strlit("Host: 127.0.0.1:47823");
    reveal_strlit("Connection: close\r\n\r\n");
    reveal_strlit("Connection: close");
    reveal_strlit("\r\n");
    let end = seq!['\r', '\n'];
    let lines = probe_lines(token);
    let start = "GET /health HTTP/1.1"@ + end + "Host: 127.0.0.1:47823"@ + end;
    assert("GET /health"@ + " HTTP/1.1\r\nHost: 127.0.0.1:47823\r\n"@ =~= start);
    assert("Connection: close\r\n\r\n"@ =~= "Connection: close"@ + seq!['\r', '\n', '\r', '\n']);
    assert("\r\n"@ =~= end);
    reveal_with_fuel(broken, 4);
    assert(lines.skip(1)[0] == lines[1]);
    assert(lines.skip(1).skip(1)[0] == lines[2]);
    match token {
        Some(t) => {
            assert(lines.skip(1).skip(1).skip(1)[0] == lines[3]);
            assert(broken(lines) =~= start + ("Authorization: Basic "@ + t) + end
                + "Connection: close"@);
        },
        None => {
            assert(broken(lines) =~= start + "Connection: close"@);
        },
    }
    assert(runtime::probe_request("GET /health"@, token) =~= broken(lines) + seq![
        '\r',
        '\n',
        '\r',
        '\n',
    ]);
}

proof fn lemma_words()
    ensures
        text::first_word("GET /health HTTP/1.1"@) == "GET"@,
        request::target_of("GET /health HTTP/1.1"@) == "/health"@,
        request::path_and_query("/health"@) == ("/health"@, Seq::<char>::empty()),
        !"/health"@.contains('%'),
{
    reveal_strlit("GET /health HTTP/1.1");
    reveal_strlit("GET");
    reveal_strlit("/health");
    let line = "GET /health HTTP/1.1"@;
    reveal_with_fuel(text::trimmed_start, 2);
    reveal_with_fuel(text::word_len, 9);
    assert(text::trimmed_start(line) == line);
    assert(text::word_len(line) == 3);
    assert(line.take(3) =~= "GET"@);
    let rest = line.skip(3);
    assert(rest[0] == ' ');
    assert(rest.drop_first()[0] == '/');
    assert(text::trimmed_start(rest) == rest.drop_first());
    let target = rest.drop_first();
    assert(text::word_len(target) == 7);
    assert(target.take(7) =~= "/health"@);
}

proof fn lemma_trimmed_is_no_longer(s: Seq<char>)
    ensures
        text::trimmed_start(s).len() <= s.len(),
        text::trimmed_end(s).len() <= s.len(),
    decreases s.len(),
{
    if s.len() > 0 {
        lemma_trimmed_is_no_longer(s.drop_first());
        lemma_trimmed_is_no_longer(s.drop_last());
    }
}

proof fn lemma_short_name_sets_no_length(lines: Seq<Seq<char>>)
    requires
        forall|i: int|
            0 <= i < lines.len() ==> text::position(#[trigger] lines[i], ':') < 14,
    ensures
        request::named(request::header_fields(lines), "content-length"@) is None,
    decreases lines.len(),
{
    if lines.len() > 0 {
        let before = lines.drop_last();
        assert forall|i: int| 0 <= i < before.len() implies text::position(
            #[trigger] before[i],
            ':',
        ) < 14 by {
            assert(before[i] == lines[i]);
        }
        lemma_short_name_sets_no_length(before);
        let line = lines[lines.len() - 1];
        assert(text::position(line, ':') < 14);
        if line.contains(':') {
            text::lemma_position(line, ':');
            let name = line.take(text::position(line, ':'));
            lemma_trimmed_is_no_longer(name);
            lemma_trimmed_is_no_longer(text::trimmed_start(name));
            reveal_strlit("content-length");
            assert(text::lowered(text::trimmed(name)).len() < "content-length"@.len());
        }
    }
}

proof fn lemma_probe_names(token: Option<Seq<char>>)
    ensures
        forall|i: int|
            0 <= i < probe_lines(token).skip(1).len() ==> text::position(
                #[trigger] probe_lines(token).skip(1)[i],
                ':',
            ) < 14,
{
    reveal_strlit("Host: 127.0.0.1:47823");
    reveal_strlit("Authorization: Basic ");
    reveal_strlit("Connection: close");
    lemma_position_of_name("Host: 127.0.0.1:47823"@, 4);
    lemma_position_of_name("Connection: close"@, 10);
    if token is Some {
        let line = "Authorization: Basic "@ + token->0;
        assert(line[13] == ':');
        lemma_position_of_name(line, 13);
    }
}

/// The service understands the question of the launcher for its health: it is a request with the
/// method `GET` for the path `/health`, whether or not a token is carried along.
pub proof fn law_probe_is_understood(token: Option<Seq<char>>)
    requires
        token is Some ==> is_token(token->0),
        encode_utf8(runtime::probe_request("GET /health"@, token)).len() <= request::HEAD_LIMIT,
    ensures
        ({
            let received = request::received(
                Seq::empty(),
                encode_utf8(runtime::probe_request("GET /health"@, token)),
            );
            &&& received is Ok && received->Ok_0 is Some
            &&& (received->Ok_0->0).method == "GET"@
            &&& (received->Ok_0->0).path == "/health"@
        }),
{
    let lines = probe_lines(token);
    let head = broken(lines);
    let bytes = encode_utf8(runtime::probe_request("GET /health"@, token));
    lemma_probe_lines(token);
    lemma_probe_text(token);
    lemma_head_ends(lines);
    lemma_broken(lines);
    lemma_words();
    lemma_probe_names(token);
    lemma_short_name_sets_no_length(lines.skip(1));
    request::lemma_empty_query();
    request::law_plain_text_stands_for_itself("/health"@, false);
    assert(Seq::<u8>::empty() + bytes =~= bytes);
}

proof fn lemma_token_is_short(secret: Option<Seq<char>>)
    requires
        secret is Some ==> runtime::credentials(secret->0).len() <= 48_000,
    ensures
        ({
            let token = runtime::token_of(secret);
            &&& token is Some ==> is_token(token->0)
            &&& encode_utf8(runtime::probe_request("GET /health"@, token)).len()
                <= request::HEAD_LIMIT
        }),
{
    let token = runtime::token_of(secret);
    if token is Some {
        let t = token->0;
        encoding::law_base64_form(runtime::credentials(secret->0));
        assert forall|i: int| 0 <= i < t.len() implies '\0' <= #[trigger] t[i] <= '\u{7f}' && t[i]
            != '\r' && t[i] != '\n' by {
            assert(encoding::is_base64_char(t[i]));
        }
    }
    lemma_probe_lines(token);
    lemma_probe_text(token);
    lemma_head_ends(probe_lines(token));
    lemma_probe_length(token);
}

proof fn lemma_probe_length(token: Option<Seq<char>>)
    ensures
        broken(probe_lines(token)).len() <= 200 + (match token {
            Some(t) => t.len(),
            None => 0,
        }),
{
    reveal_strlit("GET /health HTTP/1.1");
    reveal_strlit("Host: 127.0.0.1:47823");
    reveal_strlit("Authorization: Basic ");
    reveal_strlit("Connection: close");
    let lines = probe_lines(token);
    reveal_with_fuel(broken, 4);
    assert(lines.skip(1)[0] == lines[1]);
    assert(lines.skip(1).skip(1)[0] == lines[2]);
    if token is Some {
        assert(lines.skip(1).skip(1).skip(1)[0] == lines[3]);
    }
}

/// The embedded service passes the launcher's own check for its health on the loopback address, and
/// never the one for the local network: from the bytes of the question, which carries the secret
/// where there is one, to those of the answer.
pub proof fn law_embedded_service_passes_its_own_check(
    secret: Option<Seq<char>>,
    skill_path: Seq<char>,
)
    requires
        secret is Some ==> runtime::credentials(secret->0).len() <= 48_000,
    ensures
        ({
            let question = runtime::probe_request("GET /health"@, runtime::token_of(secret));
            let received = request::received(Seq::empty(), encode_utf8(question));
            let request = received->Ok_0->0;
            let route = routes::route_of(request, skill_path);
            let answer = responses::delivered((route->Ok_0)->Answer_0, request.method);
            &&& received is Ok && received->Ok_0 is Some
            &&& route is Ok && route->Ok_0 is Answer && answer is Bytes
            &&& runtime::health_matches(
                decode_utf8(answer->Bytes_0),
                runtime::LOOPBACK_TASKBOARD_HOST@,
            )
            &&& !runtime::health_matches(
                decode_utf8(answer->Bytes_0),
                runtime::LAN_TASKBOARD_HOST@,
            )
        }),
{
    let token = runtime::token_of(secret);
    lemma_token_is_short(secret);
    law_probe_is_understood(token);
    let request = request::received(
        Seq::empty(),
        encode_utf8(runtime::probe_request("GET /health"@, token)),
    )->Ok_0->0;
    law_health_answer_passes_the_check(request, skill_path);
}

} // verus!
