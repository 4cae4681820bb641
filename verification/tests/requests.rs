use taskboard::request::{
    decode_route_segment, header_end, percent_decode, query_map, HttpRequest, RequestReader,
};

#[test]
fn query_decode_handles_task_filters() {
    let query = query_map("projectId=abc%201&archived=false").unwrap();
    assert_eq!(query.get("projectId").map(String::as_str), Some("abc 1"));
    assert_eq!(query.get("archived").map(String::as_str), Some("false"));
}

#[test]
fn later_parts_of_a_query_replace_earlier_ones() {
    let query = query_map("a=1&&b&a=2&c=x=y&d=1+2%2B3").unwrap();
    assert_eq!(query.get("a").map(String::as_str), Some("2"));
    assert_eq!(query.get("b").map(String::as_str), Some(""));
    assert_eq!(query.get("c").map(String::as_str), Some("x=y"));
    assert_eq!(query.get("d").map(String::as_str), Some("1 2+3"));
    assert_eq!(query.get("e"), None);
    assert!(query_map("").unwrap().get("").is_none());
    assert!(query_map("a=%zz").is_err());
}

#[test]
fn plain_text_stands_for_itself() {
    let text = "ab/\u{e9}\u{4e2d}.txt";
    assert_eq!(percent_decode(text, false), Ok(text.to_string()));
    assert_eq!(percent_decode(text, true), Ok(text.to_string()));
    assert_eq!(percent_decode("a+b", false), Ok("a+b".to_string()));
    assert_eq!(percent_decode("a+b", true), Ok("a b".to_string()));
}

#[test]
fn decoding_undoes_a_full_encoding() {
    for text in ["", "a+b%2F /", "\u{e9}\u{4e2d}\u{1f600}\n"] {
        let encoded: String = text.bytes().map(|b| format!("%{:02X}", b)).collect();
        assert_eq!(percent_decode(&encoded, false), Ok(text.to_string()));
        assert_eq!(percent_decode(&encoded, true), Ok(text.to_string()));
    }
}

#[test]
fn percent_signs_are_decoded_where_two_bytes_follow() {
    assert_eq!(percent_decode("%E4%b8%AD", false), Ok("\u{4e2d}".to_string()));
    assert_eq!(percent_decode("100%", false), Ok("100%".to_string()));
    assert_eq!(percent_decode("%4", false), Ok("%4".to_string()));
    assert_eq!(percent_decode("%+f", false), Ok("\u{f}".to_string()));
    assert_eq!(percent_decode("%2g", false), Err("invalid digit found in string".to_string()));
    assert_eq!(percent_decode("%-1", false), Err("invalid digit found in string".to_string()));
    assert_eq!(
        percent_decode("%ff", false),
        Err("invalid utf-8 sequence of 1 bytes from index 0".to_string())
    );
    assert_eq!(
        percent_decode("%\u{4e2d}", false),
        Err("incomplete utf-8 byte sequence from index 0".to_string())
    );
}

#[test]
fn segments_are_short_and_not_empty() {
    assert_eq!(decode_route_segment("a%20b", "task id"), Ok("a b".to_string()));
    assert_eq!(decode_route_segment("", "task id"), Err("task id is invalid".to_string()));
    let longest = "x".repeat(128);
    assert_eq!(decode_route_segment(&longest, "id"), Ok(longest.clone()));
    assert_eq!(decode_route_segment(&"x".repeat(129), "id"), Err("id is invalid".to_string()));
    assert!(decode_route_segment(&"\u{e9}".repeat(65), "id").is_err());
}

#[test]
fn head_ends_at_the_first_empty_line() {
    assert_eq!(header_end(b"a\r\n\r\nb\r\n\r\n"), Some(1));
    assert_eq!(header_end(b"a\r\n\r"), None);
    assert_eq!(header_end(b"\r\n\r\n"), Some(0));
    assert_eq!(header_end(b""), None);
}

fn receive_all(pieces: &[&[u8]]) -> Result<Option<HttpRequest>, String> {
    let mut reader = RequestReader::new();
    for piece in pieces {
        match reader.receive(piece)? {
            Some(request) => return Ok(Some(request)),
            None => {}
        }
    }
    reader.end().map(|_| None)
}

const REQUEST: &[u8] = b"POST /a%20b?x=1 HTTP/1.1\r\n Name : v 1 \r\nname: second\r\nno colon\r\nContent-Length: +4\r\n\r\nbodyrest";

fn check(request: &HttpRequest) {
    assert_eq!(request.method, "POST");
    assert_eq!(request.path, "/a b");
    assert_eq!(request.query.get("x").map(String::as_str), Some("1"));
    assert_eq!(request.headers.get("name").map(String::as_str), Some("second"));
    assert_eq!(request.headers.get("Name"), None);
    assert_eq!(request.body, b"body".to_vec());
}

#[test]
fn pieces_make_no_difference() {
    check(&receive_all(&[REQUEST]).unwrap().unwrap());
    for cut in [1, 20, 60, 90, REQUEST.len() - 6] {
        let (first, second) = REQUEST.split_at(cut);
        check(&receive_all(&[first, second]).unwrap().unwrap());
    }
    let bytes: Vec<&[u8]> = REQUEST.chunks(1).collect();
    check(&receive_all(&bytes).unwrap().unwrap());
}

fn refusal(pieces: &[&[u8]]) -> String {
    match receive_all(pieces) {
        Err(message) => message,
        Ok(_) => panic!("it was not refused"),
    }
}

#[test]
fn requests_are_refused_with_a_reason() {
    assert!(matches!(receive_all(&[]), Ok(None)));
    assert_eq!(refusal(&[b"GET / HTTP/1.1\r\n"]), "request headers ended early");
    assert_eq!(
        refusal(&[b"GET / HTTP/1.1\r\nContent-Length: 2\r\n\r\nx"]),
        "request body ended early"
    );
    assert_eq!(
        refusal(&[b"GET / HTTP/1.1\r\nContent-Length: 26214401\r\n\r\n"]),
        "request body too large"
    );
    assert_eq!(
        refusal(&[b"GET / HTTP/1.1\r\nContent-Length: 4x\r\n\r\n"]),
        "invalid digit found in string"
    );
    assert_eq!(
        refusal(&[b"GET / HTTP/1.1\r\nContent-Length:\r\n\r\n"]),
        "cannot parse integer from empty string"
    );
    assert_eq!(
        refusal(&[b"GET / HTTP/1.1\r\nContent-Length: 99999999999999999999\r\n\r\n"]),
        "number too large to fit in target type"
    );
    assert_eq!(refusal(&[b"\r\n\r\n"]), "missing request line");
    assert_eq!(refusal(&[&vec![b'a'; 65_537]]), "request headers too large");
    assert!(refusal(&[b"GET /%ff HTTP/1.1\r\n\r\n"]).starts_with("invalid utf-8"));
}

#[test]
fn long_bodies_are_received_behind_a_short_head() {
    let mut head = b"POST / HTTP/1.1\r\nContent-Length: 100000\r\n\r\n".to_vec();
    let start = head.clone();
    let body = vec![7_u8; 100_000];
    let request = receive_all(&[&start, &body]).unwrap().unwrap();
    assert_eq!(request.body, body);
    head.extend_from_slice(&body);
    assert_eq!(refusal(&[&head]), "request headers too large");
}

#[test]
fn words_of_a_request_line_may_be_missing() {
    let request = receive_all(&[b"GET\r\n\r\n"]).unwrap().unwrap();
    assert_eq!((request.method.as_str(), request.path.as_str()), ("GET", "/"));
    let request = receive_all(&[b"  \r\n\r\n"]).unwrap().unwrap();
    assert_eq!((request.method.as_str(), request.path.as_str()), ("", "/"));
    let request = receive_all(&[b"GET /\xff HTTP/1.1\r\n\r\n"]).unwrap().unwrap();
    assert_eq!(request.path, "/\u{fffd}");
}
