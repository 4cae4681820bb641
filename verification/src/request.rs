//! Requests: how they are read from a connection and what their parts are.
use crate::text;
use vstd::prelude::*;
use vstd::utf8::*;

verus! {

/// Texts by name. What is set later replaces what was set before under the same name.
pub struct Fields {
    entries: Vec<(String, String)>,
}

/// The texts by name that a row of settings leaves.
pub open spec fn settled_fields(entries: Seq<(Seq<char>, Seq<char>)>) -> Map<Seq<char>, Seq<char>>
    decreases entries.len(),
{
    if entries.len() == 0 {
        Map::empty()
    } else {
        settled_fields(entries.drop_last()).insert(entries.last().0, entries.last().1)
    }
}

impl View for Fields {
    type V = Map<Seq<char>, Seq<char>>;

    closed spec fn view(&self) -> Map<Seq<char>, Seq<char>> {
        settled_fields(self.entries.deep_view())
    }
}

impl DeepView for Fields {
    type V = Map<Seq<char>, Seq<char>>;

    open spec fn deep_view(&self) -> Map<Seq<char>, Seq<char>> {
        self@
    }
}

/// The text under a name.
pub open spec fn named(fields: Map<Seq<char>, Seq<char>>, name: Seq<char>) -> Option<Seq<char>> {
    if fields.dom().contains(name) {
        Some(fields[name])
    } else {
        None
    }
}

impl Fields {
    /// No texts.
    pub fn new() -> (r: Fields)
        ensures
            r@ == Map::<Seq<char>, Seq<char>>::empty(),
    {
        let r = Fields { entries: Vec::new() };
        proof {
            assert(r.entries.deep_view() =~= Seq::empty());
        }
        r
    }

    /// Sets the text under a name.
    pub fn insert(&mut self, name: String, value: String)
        ensures
            final(self)@ == old(self)@.insert(name@, value@),
    {
        let ghost before = self.entries.deep_view();
        let ghost entry = (name@, value@);
        self.entries.push((name, value));
        proof {
            assert(self.entries.deep_view() =~= before.push(entry));
            assert(before.push(entry).drop_last() =~= before);
        }
    }

    /// A copy of the texts.
    pub fn copy(&self) -> (r: Fields)
        ensures
            r@ == self@,
    {
        let mut entries: Vec<(String, String)> = Vec::new();
        let mut i: usize = 0;
        while i < self.entries.len()
            invariant
                i <= self.entries@.len(),
                entries@.len() == i,
                forall|k: int|
                    0 <= k < i ==> (#[trigger] entries@[k]).0@ == self.entries@[k].0@
                        && entries@[k].1@ == self.entries@[k].1@,
            decreases self.entries.len() - i,
        {
            let name = self.entries[i].0.clone();
            let value = self.entries[i].1.clone();
            entries.push((name, value));
            i = i + 1;
        }
        proof {
            assert(entries.deep_view() =~= self.entries.deep_view());
        }
        Fields { entries }
    }

    /// The text under a name.
    pub fn get(&self, name: &str) -> (r: Option<&String>)
        ensures
            r.deep_view() == named(self@, name@),
    {
        let mut i: usize = self.entries.len();
        let ghost all = self.entries.deep_view();
        proof {
            assert(all.take(i as int) =~= all);
        }
        while i > 0
            invariant
                i <= self.entries@.len(),
                all == self.entries.deep_view(),
                named(self@, name@) == named(settled_fields(all.take(i as int)), name@),
            decreases i,
        {
            i = i - 1;
            proof {
                assert(all.take(i + 1).drop_last() =~= all.take(i as int));
                assert(all.take(i + 1).last() == all[i as int]);
            }
            if text::same(&self.entries[i].0, name) {
                return Some(&self.entries[i].1);
            }
        }
        None
    }
}

/// A request.
pub struct HttpRequest {
    pub method: String,
    pub path: String,
    pub query: Fields,
    pub headers: Fields,
    pub body: Vec<u8>,
}

pub struct RequestView {
    pub method: Seq<char>,
    pub path: Seq<char>,
    pub query: Map<Seq<char>, Seq<char>>,
    pub headers: Map<Seq<char>, Seq<char>>,
    pub body: Seq<u8>,
}

impl View for HttpRequest {
    type V = RequestView;

    open spec fn view(&self) -> RequestView {
        RequestView {
            method: self.method@,
            path: self.path@,
            query: self.query@,
            headers: self.headers@,
            body: self.body@,
        }
    }
}

impl DeepView for HttpRequest {
    type V = RequestView;

    open spec fn deep_view(&self) -> RequestView {
        self@
    }
}

/// The value of a hexadecimal digit.
pub open spec fn hex_digit(b: u8) -> Option<u8> {
    if 48 <= b <= 57 {
        Some((b - 48) as u8)
    } else if 65 <= b <= 70 {
        Some((b - 55) as u8)
    } else if 97 <= b <= 102 {
        Some((b - 87) as u8)
    } else {
        None
    }
}

/// The number that two bytes write in hexadecimal: two digits, or a plus sign and a digit.
pub open spec fn hex_pair(a: u8, b: u8) -> Option<u8> {
    match (hex_digit(a), hex_digit(b)) {
        (Some(x), Some(y)) => Some((16 * x + y) as u8),
        (None, Some(y)) => if a == 43 {
            Some(y)
        } else {
            None
        },
        _ => None,
    }
}

fn hex_value(b: u8) -> (r: Option<u8>)
    ensures
        r == hex_digit(b),
{
    if 48 <= b && b <= 57 {
        Some(b - 48)
    } else if 65 <= b && b <= 70 {
        Some(b - 55)
    } else if 97 <= b && b <= 102 {
        Some(b - 87)
    } else {
        None
    }
}

fn hex_pair_value(a: u8, b: u8) -> (r: Option<u8>)
    ensures
        r == hex_pair(a, b),
{
    match (hex_value(a), hex_value(b)) {
        (Some(x), Some(y)) => Some(16 * x + y),
        (None, Some(y)) => if a == 43 {
            Some(y)
        } else {
            None
        },
        _ => None,
    }
}

/// The bytes that percent-encoded bytes stand for, or the message of the first thing in them that
/// cannot be decoded. A percent sign with fewer than two bytes behind it stands for itself, and
/// where `plus_as_space` holds a plus sign stands for a space.
pub open spec fn percent_bytes(bytes: Seq<u8>, plus_as_space: bool) -> Result<Seq<u8>, Seq<char>>
    decreases bytes.len(),
{
    if bytes.len() == 0 {
        Ok(Seq::empty())
    } else if bytes[0] == 37 && bytes.len() > 2 {
        if !valid_utf8(bytes.subrange(1, 3)) {
            Err(text::utf8_error_text(bytes.subrange(1, 3)))
        } else {
            match hex_pair(bytes[1], bytes[2]) {
                Some(b) => behind(b, percent_bytes(bytes.skip(3), plus_as_space)),
                None => Err(text::INVALID_DIGIT@),
            }
        }
    } else if bytes[0] == 43 && plus_as_space {
        behind(32, percent_bytes(bytes.skip(1), plus_as_space))
    } else {
        behind(bytes[0], percent_bytes(bytes.skip(1), plus_as_space))
    }
}

/// The bytes of `rest` behind the byte `b`.
pub open spec fn behind(b: u8, rest: Result<Seq<u8>, Seq<char>>) -> Result<Seq<u8>, Seq<char>> {
    match rest {
        Ok(bytes) => Ok(seq![b] + bytes),
        Err(m) => Err(m),
    }
}

/// The text that bytes encode, or the message of why they encode none.
pub open spec fn decoded_text(bytes: Seq<u8>) -> Result<Seq<char>, Seq<char>> {
    if valid_utf8(bytes) {
        Ok(decode_utf8(bytes))
    } else {
        Err(text::utf8_error_text(bytes))
    }
}

/// The text that a percent-encoded text stands for, or the message of why it stands for none.
pub open spec fn percent_decoded(s: Seq<char>, plus_as_space: bool) -> Result<
    Seq<char>,
    Seq<char>,
> {
    match percent_bytes(encode_utf8(s), plus_as_space) {
        Ok(bytes) => decoded_text(bytes),
        Err(m) => Err(m),
    }
}

/// Decodes a percent-encoded text.
pub fn percent_decode(value: &str, plus_as_space: bool) -> (r: Result<String, String>)
    ensures
        crate::exchange::says(r, percent_decoded(value@, plus_as_space)),
{
    let bytes = value.as_bytes();
    let mut output: Vec<u8> = Vec::new();
    let mut index: usize = 0;
    let ghost whole = percent_bytes(bytes@, plus_as_space);
    proof {
        assert(bytes@.skip(0) =~= bytes@);
        match whole {
            Ok(b) => {
                assert(output@ + b =~= b);
            },
            Err(_) => {},
        }
    }
    while index < bytes.len()
        invariant
            index <= bytes@.len(),
            bytes@ == encode_utf8(value@),
            whole == percent_bytes(bytes@, plus_as_space),
            whole == (match percent_bytes(bytes@.skip(index as int), plus_as_space) {
                Ok(b) => Ok::<Seq<u8>, Seq<char>>(output@ + b),
                Err(m) => Err(m),
            }),
        decreases bytes.len() - index,
    {
        let byte: u8 = bytes[index];
        let ghost rest = bytes@.skip(index as int);
        let ghost before = output@;
        if byte == 37 && bytes.len() - index > 2 {
            let mut pair: Vec<u8> = Vec::new();
            pair.push(bytes[index + 1]);
            pair.push(bytes[index + 2]);
            proof {
                assert(pair@ =~= rest.subrange(1, 3));
                assert(rest.skip(3) =~= bytes@.skip(index + 3));
            }
            match text::text_from_bytes(pair) {
                Ok(_) => {},
                Err(m) => {
                    return Err(m);
                },
            }
            match hex_pair_value(bytes[index + 1], bytes[index + 2]) {
                Some(b) => {
                    output.push(b);
                    index = index + 3;
                    proof {
                        lemma_moved(before, b, percent_bytes(rest.skip(3), plus_as_space));
                    }
                },
                None => {
                    return Err(text::INVALID_DIGIT.to_owned());
                },
            }
        } else {
            let next: u8 = if byte == 43 && plus_as_space {
                32
            } else {
                byte
            };
            output.push(next);
            index = index + 1;
            proof {
                assert(rest.skip(1) =~= bytes@.skip(index as int));
                lemma_moved(before, next, percent_bytes(rest.skip(1), plus_as_space));
            }
        }
    }
    proof {
        assert(bytes@.skip(index as int) =~= Seq::empty());
        assert(output@ + Seq::<u8>::empty() =~= output@);
    }
    text::text_from_bytes(output)
}

proof fn lemma_moved(before: Seq<u8>, b: u8, rest: Result<Seq<u8>, Seq<char>>)
    ensures
        behind(b, rest) is Ok ==> rest is Ok && before + behind(b, rest)->Ok_0 == before.push(b)
            + rest->Ok_0,
        behind(b, rest) is Err ==> behind(b, rest) == rest,
{
    if rest is Ok {
        assert(before + (seq![b] + rest->Ok_0) =~= before.push(b) + rest->Ok_0);
    }
}

/// A segment of a path: what it stands for, which is neither empty nor longer than 128 bytes.
pub open spec fn segment(value: Seq<char>, label: Seq<char>) -> Result<Seq<char>, Seq<char>> {
    match percent_decoded(value, false) {
        Ok(s) => if s.len() == 0 || encode_utf8(s).len() > 128 {
            Err(label + " is invalid"@)
        } else {
            Ok(s)
        },
        Err(m) => Err(m),
    }
}

/// Decodes a segment of a path, which `label` names in the message of a refusal.
pub fn decode_route_segment(value: &str, label: &str) -> (r: Result<String, String>)
    ensures
        crate::exchange::says(r, segment(value@, label@)),
{
    let decoded = percent_decode(value, false)?;
    if decoded.as_str().is_empty() || text::byte_len(&decoded) > 128 {
        let mut message = label.to_owned();
        message.append(" is invalid");
        return Err(message);
    }
    Ok(decoded)
}

/// The name and the value of a part of a query: the parts before and behind its first equals sign.
pub open spec fn query_pair(part: Seq<char>) -> (Seq<char>, Seq<char>) {
    match text::split_once_spec(part, '=') {
        Some(p) => p,
        None => (part, Seq::empty()),
    }
}

/// The texts by name that the parts of a query set.
pub open spec fn query_fields(parts: Seq<Seq<char>>) -> Result<Map<Seq<char>, Seq<char>>, Seq<char>>
    decreases parts.len(),
{
    if parts.len() == 0 {
        Ok(Map::empty())
    } else {
        match query_fields(parts.drop_last()) {
            Err(m) => Err(m),
            Ok(fields) => if parts.last().len() == 0 {
                Ok(fields)
            } else {
                let (name, value) = query_pair(parts.last());
                match (percent_decoded(name, true), percent_decoded(value, true)) {
                    (Err(m), _) => Err(m),
                    (Ok(_), Err(m)) => Err(m),
                    (Ok(n), Ok(v)) => Ok(fields.insert(n, v)),
                }
            },
        }
    }
}

/// The texts by name that a query sets.
pub open spec fn query_spec(query: Seq<char>) -> Result<Map<Seq<char>, Seq<char>>, Seq<char>> {
    query_fields(text::split_spec(query, '&'))
}

proof fn lemma_query_error_stays(parts: Seq<Seq<char>>, i: int)
    requires
        0 <= i <= parts.len(),
        query_fields(parts.take(i)) is Err,
    ensures
        query_fields(parts) == query_fields(parts.take(i)),
    decreases parts.len() - i,
{
    if i == parts.len() {
        assert(parts.take(i) =~= parts);
    } else {
        assert(parts.take(i + 1).drop_last() =~= parts.take(i));
        lemma_query_error_stays(parts, i + 1);
    }
}

/// Reads a query.
pub fn query_map(query: &str) -> (r: Result<Fields, String>)
    ensures
        crate::exchange::says(r, query_spec(query@)),
{
    let parts = text::split(query, '&');
    let ghost all = parts.deep_view();
    let mut fields = Fields::new();
    let mut i: usize = 0;
    proof {
        assert(all.take(0) =~= Seq::empty());
    }
    while i < parts.len()
        invariant
            i <= parts@.len(),
            all == parts.deep_view(),
            all == text::split_spec(query@, '&'),
            query_fields(all.take(i as int)) == Ok::<Map<Seq<char>, Seq<char>>, Seq<char>>(fields@),
        decreases parts.len() - i,
    {
        proof {
            assert(all.take(i + 1).drop_last() =~= all.take(i as int));
            assert(all.take(i + 1).last() == all[i as int]);
            if query_fields(all.take(i + 1)) is Err {
                lemma_query_error_stays(all, i + 1);
            }
        }
        if !parts[i].as_str().is_empty() {
            let (name, value) = match text::split_once(&parts[i], '=') {
                Some(pair) => pair,
                None => (parts[i].clone(), String::new()),
            };
            let n = percent_decode(&name, true)?;
            let v = percent_decode(&value, true)?;
            fields.insert(n, v);
        }
        i = i + 1;
    }
    proof {
        assert(all.take(i as int) =~= all);
    }
    Ok(fields)
}

/// Whether the four bytes that end the head of a request stand at `i`.
pub open spec fn ends_head(buffer: Seq<u8>, i: int) -> bool {
    0 <= i && i + 4 <= buffer.len() && buffer[i] == 13 && buffer[i + 1] == 10 && buffer[i + 2] == 13
        && buffer[i + 3] == 10
}

/// Whether `r` is the first place where the head of a request ends.
pub open spec fn is_header_end(buffer: Seq<u8>, r: Option<int>) -> bool {
    match r {
        Some(i) => ends_head(buffer, i) && forall|k: int| 0 <= k < i ==> !ends_head(buffer, k),
        None => forall|k: int| 0 <= k ==> !ends_head(buffer, k),
    }
}

/// The first place where the head of a request ends.
pub open spec fn header_end_spec(buffer: Seq<u8>) -> Option<int> {
    choose|r: Option<int>| is_header_end(buffer, r)
}

/// There is one first place where the head of a request ends.
pub proof fn lemma_header_end_is(buffer: Seq<u8>, r: Option<int>)
    requires
        is_header_end(buffer, r),
    ensures
        header_end_spec(buffer) == r,
{
    let c = header_end_spec(buffer);
    assert(is_header_end(buffer, c));
    match (r, c) {
        (Some(i), Some(j)) => {
            if i < j {
                assert(ends_head(buffer, i));
            }
            if j < i {
                assert(ends_head(buffer, j));
            }
        },
        (Some(i), None) => {
            assert(ends_head(buffer, i));
        },
        (None, Some(j)) => {
            assert(ends_head(buffer, j));
        },
        (None, None) => {},
    }
}

/// Finds the end of the head of a request.
pub fn header_end(buffer: &[u8]) -> (r: Option<usize>)
    ensures
        is_header_end(
            buffer@,
            match r {
                Some(i) => Some(i as int),
                None => None,
            },
        ),
        header_end_spec(buffer@) == (match r {
            Some(i) => Some(i as int),
            None => None::<int>,
        }),
{
    let mut i: usize = 0;
    while i < buffer.len()
        invariant
            i <= buffer@.len(),
            forall|k: int| 0 <= k < i ==> !ends_head(buffer@, k),
        decreases buffer.len() - i,
    {
        if buffer.len() - i >= 4 && buffer[i] == 13 && buffer[i + 1] == 10 && buffer[i + 2] == 13
            && buffer[i + 3] == 10 {
            proof {
                lemma_header_end_is(buffer@, Some(i as int));
            }
            return Some(i);
        }
        i = i + 1;
    }
    proof {
        lemma_header_end_is(buffer@, None);
    }
    None
}

/// The head of a request.
pub struct Head {
    pub method: String,
    /// The path as it was sent.
    pub path: String,
    pub query: Fields,
    pub headers: Fields,
    pub content_length: usize,
}

pub struct HeadView {
    pub method: Seq<char>,
    pub path: Seq<char>,
    pub query: Map<Seq<char>, Seq<char>>,
    pub headers: Map<Seq<char>, Seq<char>>,
    pub content_length: nat,
}

impl View for Head {
    type V = HeadView;

    open spec fn view(&self) -> HeadView {
        HeadView {
            method: self.method@,
            path: self.path@,
            query: self.query@,
            headers: self.headers@,
            content_length: self.content_length as nat,
        }
    }
}

impl DeepView for Head {
    type V = HeadView;

    open spec fn deep_view(&self) -> HeadView {
        self@
    }
}

/// The headers that lines set: the name before the first colon in small letters, the value behind
/// it, both without the white space around them. A line without a colon sets none.
pub open spec fn header_fields(lines: Seq<Seq<char>>) -> Map<Seq<char>, Seq<char>>
    decreases lines.len(),
{
    if lines.len() == 0 {
        Map::empty()
    } else {
        let fields = header_fields(lines.drop_last());
        match text::split_once_spec(lines.last(), ':') {
            Some((name, value)) => fields.insert(
                text::lowered(text::trimmed(name)),
                text::trimmed(value),
            ),
            None => fields,
        }
    }
}

/// The target of a request line: its second word, or the root.
pub open spec fn target_of(line: Seq<char>) -> Seq<char> {
    let word = text::first_word(text::behind_first_word(line));
    if word.len() == 0 {
        "/"@
    } else {
        word
    }
}

/// The path and the query of a target, which its first question mark parts.
pub open spec fn path_and_query(target: Seq<char>) -> (Seq<char>, Seq<char>) {
    match text::split_once_spec(target, '?') {
        Some(p) => p,
        None => (target, Seq::empty()),
    }
}

/// The greatest length of a body.
pub const BODY_LIMIT: usize = 26_214_400;

/// The length of the body that headers announce.
pub open spec fn announced_length(headers: Map<Seq<char>, Seq<char>>) -> Result<nat, Seq<char>> {
    match named(headers, "content-length"@) {
        None => Ok(0nat),
        Some(value) => match text::parsed_usize(value) {
            Err(m) => Err(m),
            Ok(n) => if n > BODY_LIMIT {
                Err("request body too large"@)
            } else {
                Ok(n)
            },
        },
    }
}

/// The head that a text writes, or why it writes none.
pub open spec fn head_of(header: Seq<char>) -> Result<HeadView, Seq<char>> {
    let lines = text::lines_spec(header);
    if lines.len() == 0 {
        Err("missing request line"@)
    } else {
        let (path, query) = path_and_query(target_of(lines[0]));
        let headers = header_fields(lines.skip(1));
        match query_spec(query) {
            Err(m) => Err(m),
            Ok(fields) => match announced_length(headers) {
                Err(m) => Err(m),
                Ok(n) => Ok(
                    HeadView {
                        method: text::first_word(lines[0]),
                        path,
                        query: fields,
                        headers,
                        content_length: n,
                    },
                ),
            },
        }
    }
}

fn read_headers(lines: &Vec<String>) -> (r: Fields)
    requires
        lines@.len() >= 1,
    ensures
        r@ == header_fields(lines.deep_view().skip(1)),
{
    let ghost all = lines.deep_view().skip(1);
    let mut headers = Fields::new();
    let mut i: usize = 1;
    proof {
        assert(all.take(0) =~= Seq::empty());
    }
    while i < lines.len()
        invariant
            1 <= i <= lines@.len(),
            all == lines.deep_view().skip(1),
            headers@ == header_fields(all.take(i - 1)),
        decreases lines.len() - i,
    {
        proof {
            assert(all.take(i as int).drop_last() =~= all.take(i - 1));
            assert(all.take(i as int).last() == lines@[i as int]@);
        }
        match text::split_once(&lines[i], ':') {
            Some((name, value)) => {
                let trimmed = text::trim(&name);
                headers.insert(text::to_lowercase(&trimmed), text::trim(&value));
            },
            None => {},
        }
        i = i + 1;
    }
    proof {
        assert(all.take(i - 1) =~= all);
    }
    headers
}

fn read_length(headers: &Fields) -> (r: Result<usize, String>)
    ensures
        match r {
            Ok(n) => announced_length(headers@) == Ok::<nat, Seq<char>>(n as nat),
            Err(m) => announced_length(headers@) == Err::<nat, Seq<char>>(m@),
        },
{
    match headers.get("content-length") {
        None => Ok(0),
        Some(value) => match text::parse_usize(value) {
            Err(m) => Err(m),
            Ok(n) => if n > BODY_LIMIT {
                Err("request body too large".to_owned())
            } else {
                Ok(n)
            },
        },
    }
}

/// An empty query sets nothing.
pub proof fn lemma_empty_query()
    ensures
        query_spec(Seq::empty()) == Ok::<Map<Seq<char>, Seq<char>>, Seq<char>>(Map::empty()),
{
    let parts = text::split_spec(Seq::empty(), '&');
    assert(parts.drop_last() =~= Seq::<Seq<char>>::empty());
    reveal_with_fuel(query_fields, 2);
}

/// Reads the head of a request.
pub fn read_head(header: &str) -> (r: Result<Head, String>)
    ensures
        crate::exchange::says(r, head_of(header@)),
{
    let lines = text::lines(header);
    if lines.len() == 0 {
        return Err("missing request line".to_owned());
    }
    let (method, rest) = text::next_word(&lines[0]);
    let (word, _) = text::next_word(&rest);
    let target = if word.as_str().is_empty() {
        "/".to_owned()
    } else {
        word
    };
    let (path, query) = match text::split_once(&target, '?') {
        Some((path, query)) => (path, query_map(&query)?),
        None => {
            proof {
                lemma_empty_query();
            }
            (target, Fields::new())
        },
    };
    let headers = read_headers(&lines);
    let content_length: usize = read_length(&headers)?;
    Ok(Head { method, path, query, headers, content_length })
}

/// The greatest length of what is received before the head of a request has ended.
pub const HEAD_LIMIT: usize = 65_536;

/// The request that stands in what was received, once its body is there as well. Its head ends at
/// `end`.
pub open spec fn request_in(received: Seq<u8>, end: int, head: HeadView) -> Result<
    Option<RequestView>,
    Seq<char>,
> {
    if received.len() < end + 4 + head.content_length {
        Ok(None)
    } else {
        match percent_decoded(head.path, false) {
            Err(m) => Err(m),
            Ok(path) => Ok(
                Some(
                    RequestView {
                        method: head.method,
                        path,
                        query: head.query,
                        headers: head.headers,
                        body: received.subrange(end + 4, end + 4 + head.content_length),
                    },
                ),
            ),
        }
    }
}

/// What comes of receiving `chunk` behind `before`: the request, once it is there, or why it is
/// refused.
pub open spec fn received(before: Seq<u8>, chunk: Seq<u8>) -> Result<
    Option<RequestView>,
    Seq<char>,
> {
    let all = before + chunk;
    if header_end_spec(before) is None && all.len() > HEAD_LIMIT {
        Err("request headers too large"@)
    } else {
        match header_end_spec(all) {
            None => Ok(None),
            Some(end) => match head_of(text::lossy_text(all.take(end))) {
                Err(m) => Err(m),
                Ok(head) => request_in(all, end, head),
            },
        }
    }
}

/// What comes of a connection that ends behind `before`, when no request is there yet.
pub open spec fn ended(before: Seq<u8>) -> Result<(), Seq<char>> {
    if before.len() == 0 {
        Ok(())
    } else if header_end_spec(before) is None {
        Err("request headers ended early"@)
    } else {
        Err("request body ended early"@)
    }
}

/// What was received of a request, and its head as soon as that has ended.
pub struct RequestReader {
    buffer: Vec<u8>,
    head: Option<(usize, Head)>,
}

impl View for RequestReader {
    type V = Seq<u8>;

    closed spec fn view(&self) -> Seq<u8> {
        self.buffer@
    }
}

impl RequestReader {
    /// Whether the head that is kept is the one that stands in what was received.
    pub closed spec fn consistent(self) -> bool {
        match self.head {
            None => header_end_spec(self.buffer@) is None,
            Some((end, head)) => {
                &&& header_end_spec(self.buffer@) == Some(end as int)
                &&& is_header_end(self.buffer@, Some(end as int))
                &&& head_of(text::lossy_text(self.buffer@.take(end as int))) == Ok::<
                    HeadView,
                    Seq<char>,
                >(head@)
            },
        }
    }

    /// A reader that has received nothing.
    pub fn new() -> (r: RequestReader)
        ensures
            r@ == Seq::<u8>::empty(),
            r.consistent(),
    {
        let buffer: Vec<u8> = Vec::new();
        proof {
            lemma_header_end_is(buffer@, None);
        }
        RequestReader { buffer, head: None }
    }

    /// Receives a piece of a request. A reader that refused one is of no further use.
    pub fn receive(&mut self, chunk: &[u8]) -> (r: Result<Option<HttpRequest>, String>)
        requires
            old(self).consistent(),
        ensures
            crate::exchange::says(r, received(old(self)@, chunk@)),
            final(self)@ == old(self)@ + chunk@,
            r is Ok ==> final(self).consistent(),
    {
        let ghost before = self.buffer@;
        self.buffer.extend_from_slice(chunk);
        proof {
            assert(self.buffer@ =~= before + chunk@);
        }
        if self.head.is_none() {
            if self.buffer.len() > HEAD_LIMIT {
                return Err("request headers too large".to_owned());
            }
            let end: usize = match header_end(&self.buffer) {
                None => {
                    return Ok(None);
                },
                Some(end) => end,
            };
            let ghost all = self.buffer@;
            let mut bytes: Vec<u8> = Vec::new();
            bytes.extend_from_slice(&self.buffer[0..end]);
            proof {
                assert(bytes@ =~= all.take(end as int));
            }
            let header = text::lossy_text_from_bytes(&bytes);
            let head = read_head(&header)?;
            self.head = Some((end, head));
        } else {
            proof {
                let end = (self.head->0).0 as int;
                assert(ends_head(self.buffer@, end));
                assert forall|k: int| 0 <= k < end implies !ends_head(self.buffer@, k) by {
                    assert(!ends_head(before, k));
                }
                lemma_header_end_is(self.buffer@, Some(end));
                assert(self.buffer@.take(end) =~= before.take(end));
            }
        }
        self.complete()
    }

    fn complete(&self) -> (r: Result<Option<HttpRequest>, String>)
        requires
            self.consistent(),
            self.head is Some,
        ensures
            crate::exchange::says(
                r,
                request_in(self.buffer@, (self.head->0).0 as int, (self.head->0).1@),
            ),
    {
        match &self.head {
            None => Ok(None),
            Some((end, head)) => {
                let total: usize = self.buffer.len();
                let start: usize = *end + 4;
                if total - start < head.content_length {
                    return Ok(None);
                }
                let stop: usize = start + head.content_length;
                let mut body: Vec<u8> = Vec::new();
                body.extend_from_slice(&self.buffer[start..stop]);
                proof {
                    assert(body@ =~= self.buffer@.subrange(start as int, stop as int));
                }
                let path = percent_decode(&head.path, false)?;
                let request = HttpRequest {
                    method: head.method.clone(),
                    path,
                    query: head.query.copy(),
                    headers: head.headers.copy(),
                    body,
                };
                Ok(Some(request))
            },
        }
    }

    /// The connection ended before a request was there.
    pub fn end(&self) -> (r: Result<(), String>)
        requires
            self.consistent(),
        ensures
            match r {
                Ok(_) => ended(self@) == Ok::<(), Seq<char>>(()),
                Err(m) => ended(self@) == Err::<(), Seq<char>>(m@),
            },
    {
        if self.buffer.len() == 0 {
            return Ok(());
        }
        if self.head.is_none() {
            Err("request headers ended early".to_owned())
        } else {
            Err("request body ended early".to_owned())
        }
    }
}

/// It makes no difference in how many pieces a request is received, as long as it is not refused
/// for the length of its head.
pub proof fn law_pieces_make_no_difference(before: Seq<u8>, first: Seq<u8>, second: Seq<u8>)
    requires
        header_end_spec(before) is Some || (before + first + second).len() <= HEAD_LIMIT,
        received(before, first) == Ok::<Option<RequestView>, Seq<char>>(None),
    ensures
        received(before + first, second) == received(before, first + second),
{
    assert((before + first) + second =~= before + (first + second));
    if header_end_spec(before) is Some {
        let end = header_end_spec(before)->0;
        lemma_header_end_exists(before);
        lemma_header_end_stays(before, first);
    }
}

proof fn lemma_header_end_exists(buffer: Seq<u8>)
    ensures
        is_header_end(buffer, header_end_spec(buffer)),
{
    if exists|k: int| ends_head(buffer, k) {
        let k = choose|k: int| ends_head(buffer, k);
        lemma_first_end(buffer, k);
    } else {
        assert(is_header_end(buffer, None));
    }
}

proof fn lemma_first_end(buffer: Seq<u8>, k: int)
    requires
        ends_head(buffer, k),
    ensures
        exists|r: Option<int>| is_header_end(buffer, r),
    decreases k,
{
    if exists|j: int| 0 <= j < k && ends_head(buffer, j) {
        let j = choose|j: int| 0 <= j < k && ends_head(buffer, j);
        lemma_first_end(buffer, j);
    } else {
        assert(is_header_end(buffer, Some(k)));
    }
}

proof fn lemma_header_end_stays(before: Seq<u8>, more: Seq<u8>)
    requires
        header_end_spec(before) is Some,
    ensures
        header_end_spec(before + more) == header_end_spec(before),
{
    let end = header_end_spec(before)->0;
    lemma_header_end_exists(before);
    let all = before + more;
    assert(ends_head(all, end));
    assert forall|k: int| 0 <= k < end implies !ends_head(all, k) by {
        assert(!ends_head(before, k));
    }
    lemma_header_end_is(all, Some(end));
}

proof fn lemma_high_bytes(c: u32)
    by (bit_vector)
    ensures
        leading_byte_width_2(c) >= 0x80,
        leading_byte_width_3(c) >= 0x80,
        leading_byte_width_4(c) >= 0x80,
        last_continuation_byte(c) >= 0x80,
        second_last_continuation_byte(c) >= 0x80,
        third_last_continuation_byte(c) >= 0x80,
        c <= 0x7f ==> leading_byte_width_1(c) == c,
{
}

proof fn lemma_different_chars(a: char, b: char)
    requires
        a != b,
    ensures
        a as u32 != b as u32,
{
}

/// A byte below 128 stands in the encoding of a text only where its character stands in the text.
proof fn lemma_ascii_bytes(s: Seq<char>, c: char)
    requires
        (c as u32) < 0x80,
        !s.contains(c),
    ensures
        !encode_utf8(s).contains(c as u8),
    decreases s.len(),
{
    if s.len() > 0 {
        let first = s[0] as u32;
        lemma_high_bytes(first);
        char_is_scalar(s[0]);
        assert(s[0] != c) by {
            assert(s.contains(s[0]));
        }
        lemma_different_chars(s[0], c);
        assert((c as u8) as u32 == c as u32);
        assert forall|k: int| 0 <= k < encode_scalar(first).len() implies encode_scalar(first)[k]
            != c as u8 by {
            if first <= 0x7f {
                assert(encode_scalar(first)[k] == leading_byte_width_1(first));
            }
        }
        assert forall|d: char| s.drop_first().contains(d) implies s.contains(d) by {
            let k = choose|k: int| 0 <= k < s.drop_first().len() && s.drop_first()[k] == d;
            assert(s[k + 1] == d);
        }
        lemma_ascii_bytes(s.drop_first(), c);
        let bytes = encode_utf8(s);
        assert forall|k: int| 0 <= k < bytes.len() implies bytes[k] != c as u8 by {
            let width = encode_scalar(first).len();
            if k >= width {
                assert(bytes[k] == encode_utf8(s.drop_first())[k - width]);
            }
        }
    }
}

proof fn lemma_plain_bytes(bytes: Seq<u8>, plus_as_space: bool)
    requires
        !bytes.contains(37),
        plus_as_space ==> !bytes.contains(43),
    ensures
        percent_bytes(bytes, plus_as_space) == Ok::<Seq<u8>, Seq<char>>(bytes),
    decreases bytes.len(),
{
    if bytes.len() > 0 {
        assert(bytes.contains(bytes[0]));
        let rest = bytes.skip(1);
        assert forall|b: u8| rest.contains(b) implies bytes.contains(b) by {
            let k = choose|k: int| 0 <= k < rest.len() && rest[k] == b;
            assert(bytes[k + 1] == b);
        }
        lemma_plain_bytes(rest, plus_as_space);
        assert(seq![bytes[0]] + rest =~= bytes);
    } else {
        assert(bytes =~= Seq::empty());
    }
}

/// A text in which nothing is encoded stands for itself: one without a percent sign and, where a
/// plus sign stands for a space, without a plus sign.
pub proof fn law_plain_text_stands_for_itself(s: Seq<char>, plus_as_space: bool)
    requires
        !s.contains('%'),
        plus_as_space ==> !s.contains('+'),
    ensures
        percent_decoded(s, plus_as_space) == Ok::<Seq<char>, Seq<char>>(s),
{
    lemma_ascii_bytes(s, '%');
    if plus_as_space {
        lemma_ascii_bytes(s, '+');
    }
    lemma_plain_bytes(encode_utf8(s), plus_as_space);
    encode_utf8_valid_utf8(s);
    encode_utf8_decode_utf8(s);
}

/// A hexadecimal digit, in capitals.
pub open spec fn hex_char(n: int) -> char {
    if n < 10 {
        ((48 + n) as u8) as char
    } else {
        ((55 + n) as u8) as char
    }
}

/// Bytes with every one of them percent-encoded.
pub open spec fn percent_encoded(bytes: Seq<u8>) -> Seq<char>
    decreases bytes.len(),
{
    if bytes.len() == 0 {
        Seq::empty()
    } else {
        seq!['%', hex_char(bytes[0] as int / 16), hex_char(bytes[0] as int % 16)]
            + percent_encoded(bytes.skip(1))
    }
}

proof fn lemma_hex_char(n: int)
    requires
        0 <= n < 16,
    ensures
        (hex_char(n) as u32) < 128,
        hex_digit(hex_char(n) as u8) == Some(n as u8),
{
}

proof fn lemma_encoded_is_ascii(bytes: Seq<u8>)
    ensures
        is_ascii_chars(percent_encoded(bytes)),
        percent_encoded(bytes).len() == 3 * bytes.len(),
    decreases bytes.len(),
{
    if bytes.len() > 0 {
        lemma_encoded_is_ascii(bytes.skip(1));
        lemma_hex_char(bytes[0] as int / 16);
        lemma_hex_char(bytes[0] as int % 16);
        let rest = percent_encoded(bytes.skip(1));
        let whole = percent_encoded(bytes);
        assert forall|i: int| 0 <= i < whole.len() implies 0 <= #[trigger] whole[i] as nat <= 127 by {
            if i >= 3 {
                assert(whole[i] == rest[i - 3]);
            }
        }
    }
}

/// Two plain bytes are a text.
pub proof fn lemma_two_ascii_bytes(bytes: Seq<u8>)
    requires
        bytes.len() == 2,
        bytes[0] < 128,
        bytes[1] < 128,
    ensures
        valid_utf8(bytes),
{
    let chars = seq![bytes[0] as char, bytes[1] as char];
    assert(is_ascii_chars(chars));
    is_ascii_chars_encode_utf8(chars);
    encode_utf8_valid_utf8(chars);
    assert(encode_utf8(chars) =~= bytes);
}

proof fn lemma_encoded_decodes(encoded: Seq<u8>, bytes: Seq<u8>, plus_as_space: bool)
    requires
        encoded.len() == 3 * bytes.len(),
        forall|i: int|
            0 <= i < encoded.len() ==> #[trigger] encoded[i] == percent_encoded(bytes)[i] as u8,
    ensures
        percent_bytes(encoded, plus_as_space) == Ok::<Seq<u8>, Seq<char>>(bytes),
    decreases bytes.len(),
{
    if bytes.len() > 0 {
        let high = bytes[0] as int / 16;
        let low = bytes[0] as int % 16;
        lemma_hex_char(high);
        lemma_hex_char(low);
        lemma_encoded_is_ascii(bytes.skip(1));
        let rest = encoded.skip(3);
        assert forall|i: int| 0 <= i < rest.len() implies #[trigger] rest[i] == percent_encoded(
            bytes.skip(1),
        )[i] as u8 by {
            assert(encoded[i + 3] == percent_encoded(bytes)[i + 3] as u8);
        }
        lemma_encoded_decodes(rest, bytes.skip(1), plus_as_space);
        assert(encoded[0] == 37 && encoded[1] == hex_char(high) as u8 && encoded[2] == hex_char(
            low,
        ) as u8);
        lemma_two_ascii_bytes(encoded.subrange(1, 3));
        assert(seq![bytes[0]] + bytes.skip(1) =~= bytes);
    } else {
        assert(bytes =~= Seq::empty());
        assert(encoded =~= Seq::empty());
    }
}

/// Decoding undoes a full percent-encoding: a text of which every byte is encoded stands for the
/// text, whether or not a plus sign stands for a space.
pub proof fn law_decoding_undoes_encoding(s: Seq<char>, plus_as_space: bool)
    ensures
        percent_decoded(percent_encoded(encode_utf8(s)), plus_as_space) == Ok::<
            Seq<char>,
            Seq<char>,
        >(s),
{
    let bytes = encode_utf8(s);
    let encoded = percent_encoded(bytes);
    lemma_encoded_is_ascii(bytes);
    is_ascii_chars_encode_utf8(encoded);
    lemma_encoded_decodes(encode_utf8(encoded), bytes, plus_as_space);
    encode_utf8_valid_utf8(s);
    encode_utf8_decode_utf8(s);
}

} // verus!
