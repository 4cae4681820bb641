//! How a request is read from what was received.
use crate::request;
use crate::request::{HeadView, RequestView};
use crate::text;
use crate::wording;
use vstd::prelude::*;
use vstd::utf8::*;

verus! {

/// Whether a text is one word.
pub open spec fn is_word(s: Seq<char>) -> bool {
    s.len() > 0 && forall|i: int| 0 <= i < s.len() ==> !text::is_white_space(#[trigger] s[i])
}

/// The first line of a request names its method and then its target, whatever follows; one without a
/// target is for the start page.
pub proof fn law_first_line_names_method_and_target(
    method: Seq<char>,
    target: Seq<char>,
    rest: Seq<char>,
)
    requires
        is_word(method),
        is_word(target),
        rest.len() > 0 ==> text::is_white_space(rest[0]),
    ensures
        text::first_word(method + " "@ + target + rest) == method,
        request::target_of(method + " "@ + target + rest) == target,
        request::target_of(method) == "/"@,
{
    reveal_strlit(" ");
    let behind = " "@ + target + rest;
    assert(text::is_white_space(behind[0]));
    wording::law_words_stand_between_white_space(Seq::empty(), method, behind);
    assert(Seq::<char>::empty() + method + behind =~= method + " "@ + target + rest);
    wording::law_words_stand_between_white_space(" "@, target, rest);
    wording::law_words_stand_between_white_space(Seq::empty(), method, Seq::empty());
    assert(Seq::<char>::empty() + method + Seq::<char>::empty() =~= method);
    assert(text::first_word(Seq::empty()).len() == 0);
}

/// The query of a target is what stands behind its first question mark, and its path is what stands
/// before it.
pub proof fn law_query_is_behind_the_question_mark(path: Seq<char>, query: Seq<char>)
    requires
        !path.contains('?'),
    ensures
        request::path_and_query(path + "?"@ + query) == (path, query),
        request::path_and_query(path) == (path, Seq::<char>::empty()),
{
    reveal_strlit("?");
    wording::law_text_is_divided_at_the_first(path, '?', query);
    assert(path.push('?') + query =~= path + "?"@ + query);
}

/// A query says what its pairs say, read one after the other: what was said before of the same name
/// is forgotten. A part without an equals sign is a name with nothing behind it.
pub proof fn law_query_says_its_pairs(
    query: Seq<char>,
    name: Seq<char>,
    value: Seq<char>,
    read_name: Seq<char>,
    read_value: Seq<char>,
    before: Map<Seq<char>, Seq<char>>,
)
    requires
        request::query_spec(query) == Ok::<Map<Seq<char>, Seq<char>>, Seq<char>>(before),
        !name.contains('='),
        !name.contains('&'),
        !value.contains('&'),
        request::percent_decoded(name, true) == Ok::<Seq<char>, Seq<char>>(read_name),
        request::percent_decoded(value, true) == Ok::<Seq<char>, Seq<char>>(read_value),
    ensures
        request::query_spec(query + "&"@ + name + "="@ + value) == Ok::<
            Map<Seq<char>, Seq<char>>,
            Seq<char>,
        >(before.insert(read_name, read_value)),
{
    reveal_strlit("&");
    reveal_strlit("=");
    let part = name + "="@ + value;
    assert(part =~= name.push('=') + value);
    wording::law_text_is_divided_at_the_first(name, '=', value);
    assert(!part.contains('&')) by {
        if part.contains('&') {
            let i = choose|i: int| 0 <= i < part.len() && part[i] == '&';
            if i < name.len() {
                assert(name[i] == '&');
                assert(name.contains('&'));
            } else if i > name.len() {
                assert(value[i - name.len() - 1] == '&');
                assert(value.contains('&'));
            }
        }
    }
    text::lemma_split_plain(part, '&');
    let x = query.push('&');
    assert(x.drop_last() =~= query);
    text::lemma_split_joins(x, part, '&');
    assert(x + part =~= query + "&"@ + name + "="@ + value);
    let parts = text::split_spec(x + part, '&');
    assert(text::split_spec(x, '&').drop_last() =~= text::split_spec(query, '&'));
    assert(parts =~= text::split_spec(query, '&').push(part));
    assert(parts.drop_last() =~= text::split_spec(query, '&'));
}

/// Nothing is said by an empty query.
pub proof fn law_empty_query_says_nothing()
    ensures
        request::query_spec(Seq::empty()) == Ok::<Map<Seq<char>, Seq<char>>, Seq<char>>(
            Map::empty(),
        ),
{
    let parts = text::split_spec(Seq::empty(), '&');
    assert(parts =~= seq![Seq::<char>::empty()]);
    assert(parts.drop_last() =~= Seq::empty());
    assert(request::query_fields(Seq::empty()) == Ok::<Map<Seq<char>, Seq<char>>, Seq<char>>(
        Map::empty(),
    ));
    assert(request::query_fields(parts) == Ok::<Map<Seq<char>, Seq<char>>, Seq<char>>(
        Map::empty(),
    ));
}

/// A header is known by its name in small letters, and its value is what stands behind the colon,
/// both without the white space around them; a later one of the same name counts, and a line without
/// a colon does not.
pub proof fn law_headers_are_known_by_their_names(
    lines: Seq<Seq<char>>,
    name: Seq<char>,
    value: Seq<char>,
)
    requires
        !name.contains(':'),
    ensures
        request::header_fields(lines.push(name + ":"@ + value)) == request::header_fields(
            lines,
        ).insert(text::lowered(text::trimmed(name)), text::trimmed(value)),
        request::header_fields(lines.push(name)) == request::header_fields(lines),
        request::header_fields(Seq::empty()) == Map::<Seq<char>, Seq<char>>::empty(),
{
    reveal_strlit(":");
    wording::law_text_is_divided_at_the_first(name, ':', value);
    assert(name + ":"@ + value =~= name.push(':') + value);
    assert(lines.push(name + ":"@ + value).drop_last() =~= lines);
    assert(lines.push(name).drop_last() =~= lines);
}

/// The length of the body is the one that its header announces, of up to 25 MiB; without the header
/// there is no body.
pub proof fn law_length_is_the_one_announced(headers: Map<Seq<char>, Seq<char>>, n: nat)
    ensures
        !headers.dom().contains("content-length"@) ==> request::announced_length(headers) == Ok::<
            nat,
            Seq<char>,
        >(0nat),
        headers.dom().contains("content-length"@) && headers["content-length"@] == text::decimal(n)
            && n <= usize::MAX ==> request::announced_length(headers) == (if n <= 26_214_400 {
            Ok::<nat, Seq<char>>(n)
        } else {
            Err::<nat, Seq<char>>("request body too large"@)
        }),
        headers.dom().contains("content-length"@) && text::parsed_usize(
            headers["content-length"@],
        ) is Err ==> request::announced_length(headers) is Err,
{
    if n <= usize::MAX {
        text::law_decimal_reads_back(n);
    }
}

/// The head of a request is read line by line: the method and the target of its first line, and the
/// headers of the others.
pub proof fn law_head_is_read_line_by_line(
    header: Seq<char>,
    query: Map<Seq<char>, Seq<char>>,
    length: nat,
)
    ensures
        ({
            let lines = text::lines_spec(header);
            let target = request::path_and_query(request::target_of(lines[0]));
            let headers = request::header_fields(lines.skip(1));
            &&& lines.len() == 0 ==> request::head_of(header) == Err::<HeadView, Seq<char>>(
                "missing request line"@,
            )
            &&& lines.len() > 0 && request::query_spec(target.1) == Ok::<
                Map<Seq<char>, Seq<char>>,
                Seq<char>,
            >(query) && request::announced_length(headers) == Ok::<nat, Seq<char>>(length)
                ==> request::head_of(header) is Ok && {
                let head = request::head_of(header)->Ok_0;
                &&& head.method == text::first_word(lines[0])
                &&& head.path == target.0
                &&& head.query == query
                &&& head.headers == headers
                &&& head.content_length == length
            }
        }),
{
}

/// Whether the head of a request ends at a place: the first that is followed by an empty line.
pub open spec fn head_ends(bytes: Seq<u8>, end: int) -> bool {
    &&& 0 <= end && end + 4 <= bytes.len()
    &&& bytes.subrange(end, end + 4) == seq![13u8, 10, 13, 10]
    &&& forall|k: int|
        0 <= k < end ==> #[trigger] bytes.subrange(k, k + 4) != seq![13u8, 10, 13, 10]
}

proof fn lemma_head_end(bytes: Seq<u8>, end: int)
    requires
        head_ends(bytes, end),
    ensures
        request::header_end_spec(bytes) == Some(end),
{
    let mark = seq![13u8, 10, 13, 10];
    let here = bytes.subrange(end, end + 4);
    assert(here[0] == bytes[end] && here[1] == bytes[end + 1] && here[2] == bytes[end + 2] && here[3]
        == bytes[end + 3]);
    assert(request::ends_head(bytes, end));
    assert forall|k: int| 0 <= k < end implies !request::ends_head(bytes, k) by {
        if request::ends_head(bytes, k) {
            assert(bytes.subrange(k, k + 4) =~= mark);
        }
    }
    assert(request::is_header_end(bytes, Some(end)));
    let r = request::header_end_spec(bytes);
    assert(request::is_header_end(bytes, r));
    match r {
        Some(i) => {
            if i < end {
                assert(!request::ends_head(bytes, i));
            }
            if end < i {
                assert(!request::ends_head(bytes, end));
            }
        },
        None => {
            assert(!request::ends_head(bytes, end));
        },
    }
}

/// A request is complete once as many bytes as its head announces stand behind the empty line, and
/// these are its body; until then more is waited for. Its path is read with its escapes.
pub proof fn law_body_stands_behind_the_head(
    before: Seq<u8>,
    chunk: Seq<u8>,
    end: int,
    head: HeadView,
    path: Seq<char>,
)
    requires
        request::header_end_spec(before) is Some || (before + chunk).len() <= 65_536,
        head_ends(before + chunk, end),
        request::head_of(text::lossy_text((before + chunk).take(end))) == Ok::<HeadView, Seq<char>>(
            head,
        ),
        request::percent_decoded(head.path, false) == Ok::<Seq<char>, Seq<char>>(path),
    ensures
        (before + chunk).len() < end + 4 + head.content_length ==> request::received(before, chunk)
            == Ok::<Option<RequestView>, Seq<char>>(None),
        (before + chunk).len() >= end + 4 + head.content_length ==> request::received(before, chunk)
            == Ok::<Option<RequestView>, Seq<char>>(
            Some(
                RequestView {
                    method: head.method,
                    path,
                    query: head.query,
                    headers: head.headers,
                    body: (before + chunk).skip(end + 4).take(head.content_length as int),
                },
            ),
        ),
{
    let all = before + chunk;
    lemma_head_end(all, end);
    let n = head.content_length;
    if all.len() >= end + 4 + n {
        assert(all.skip(end + 4).take(n as int) =~= all.subrange(end + 4, end + 4 + n));
    }
}

/// A head of more than 64 KiB is refused, and so is a request that ends before it is complete.
pub proof fn law_head_and_body_must_be_whole(before: Seq<u8>, chunk: Seq<u8>)
    ensures
        request::header_end_spec(before) is None && (before + chunk).len() > 65_536
            ==> request::received(before, chunk) == Err::<Option<RequestView>, Seq<char>>(
            "request headers too large"@,
        ),
        before.len() == 0 ==> request::ended(before) == Ok::<(), Seq<char>>(()),
        before.len() > 0 && request::header_end_spec(before) is None ==> request::ended(before)
            == Err::<(), Seq<char>>("request headers ended early"@),
        before.len() > 0 && request::header_end_spec(before) is Some ==> request::ended(before)
            == Err::<(), Seq<char>>("request body ended early"@),
{
}

/// A segment of a path is refused where it is empty, or holds more than 128 bytes.
pub proof fn law_why_a_segment_is_refused(value: Seq<char>, label: Seq<char>, read: Seq<char>)
    requires
        request::percent_decoded(value, false) == Ok::<Seq<char>, Seq<char>>(read),
    ensures
        read.len() == 0 || encode_utf8(read).len() > 128 ==> request::segment(value, label) == Err::<
            Seq<char>,
            Seq<char>,
        >(label + " is invalid"@),
        read.len() > 0 && encode_utf8(read).len() <= 128 ==> request::segment(value, label) == Ok::<
            Seq<char>,
            Seq<char>,
        >(read),
{
}

/// The value of a hexadecimal digit, of either form.
pub open spec fn digit_value(b: u8, n: int) -> bool {
    ||| 0 <= n <= 9 && b == 48 + n
    ||| 10 <= n <= 15 && b == 97 + n - 10
    ||| 10 <= n <= 15 && b == 65 + n - 10
}

/// A percent sign with two hexadecimal digits behind it stands for the byte of that value, a plus
/// for a space where that is asked for, and each other byte for itself.
pub proof fn law_bytes_are_read_one_by_one(
    high: u8,
    low: u8,
    x: int,
    y: int,
    b: u8,
    rest: Seq<u8>,
    read: Seq<u8>,
    plus_as_space: bool,
)
    requires
        digit_value(high, x),
        digit_value(low, y),
        b != 37,
        request::percent_bytes(rest, plus_as_space) == Ok::<Seq<u8>, Seq<char>>(read),
    ensures
        request::percent_bytes(seq![37u8, high, low] + rest, plus_as_space) == Ok::<
            Seq<u8>,
            Seq<char>,
        >(seq![(16 * x + y) as u8] + read),
        request::percent_bytes(seq![b] + rest, plus_as_space) == Ok::<Seq<u8>, Seq<char>>(
            seq![
                if b == 43 && plus_as_space {
                    32u8
                } else {
                    b
                },
            ] + read,
        ),
        request::percent_bytes(Seq::empty(), plus_as_space) == Ok::<Seq<u8>, Seq<char>>(
            Seq::empty(),
        ),
{
    let escaped = seq![37u8, high, low] + rest;
    assert(escaped.skip(3) =~= rest);
    assert(escaped.subrange(1, 3) =~= seq![high, low]);
    request::lemma_two_ascii_bytes(seq![high, low]);
    let plain = seq![b] + rest;
    assert(plain.skip(1) =~= rest);
    assert(plain[0] == b);
}

/// A percent sign with something else behind it is refused, unless that is a plus and one digit,
/// which stand for the digit.
pub proof fn law_why_an_escape_is_refused(
    high: u8,
    low: u8,
    y: int,
    rest: Seq<u8>,
    read: Seq<u8>,
    plus_as_space: bool,
)
    requires
        high < 128,
        low < 128,
        forall|n: int| !digit_value(high, n),
        request::percent_bytes(rest, plus_as_space) == Ok::<Seq<u8>, Seq<char>>(read),
    ensures
        high != 43 || (forall|n: int| !digit_value(low, n)) ==> request::percent_bytes(
            seq![37u8, high, low] + rest,
            plus_as_space,
        ) == Err::<Seq<u8>, Seq<char>>("invalid digit found in string"@),
        high == 43 && digit_value(low, y) ==> request::percent_bytes(
            seq![37u8, high, low] + rest,
            plus_as_space,
        ) == Ok::<Seq<u8>, Seq<char>>(seq![y as u8] + read),
{
    let escaped = seq![37u8, high, low] + rest;
    assert(escaped.skip(3) =~= rest);
    assert(escaped.subrange(1, 3) =~= seq![high, low]);
    request::lemma_two_ascii_bytes(seq![high, low]);
    assert(request::hex_digit(high) is None) by {
        if request::hex_digit(high) is Some {
            assert(digit_value(high, request::hex_digit(high)->0 as int));
        }
    }
    if request::hex_digit(low) is Some {
        assert(digit_value(low, request::hex_digit(low)->0 as int));
    }
}

} // verus!
