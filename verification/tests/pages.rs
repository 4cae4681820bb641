use taskboard::exchange::{Action, Reply, Response, Step};
use taskboard::pages::{content_type, extension, serve_static, static_file_path};
use taskboard::responses::{deliver, status_text, write_json, Delivery};
use taskboard::json::Json;

#[test]
fn static_paths_reject_parent_segments() {
    for path in ["/../taskboard.sqlite", "/%2e%2e/taskboard.sqlite"] {
        match static_file_path(&vec![], path) {
            Err(Step::Fail(message)) => assert_eq!(message, "invalid static path"),
            _ => panic!("it is refused"),
        }
    }
}

fn asked(path: &str) -> Vec<String> {
    match static_file_path(&vec![], path) {
        Err(Step::Ask(Action::IsPageFile(names))) => names,
        _ => panic!("a file is asked for"),
    }
}

#[test]
fn paths_name_files_below_the_page_directory() {
    assert_eq!(asked("/"), vec!["index.html"]);
    assert_eq!(asked("///"), vec!["index.html"]);
    assert_eq!(asked("/assets/app.js"), vec!["assets", "app.js"]);
    assert_eq!(asked("/assets//./app.js"), vec!["assets", "app.js"]);
    assert_eq!(asked("/docs/"), vec!["docs", "index.html"]);
    assert_eq!(asked("/a%2fb"), vec!["a", "b"]);
    for path in ["/./a", "/a/../b", "/%2fetc/passwd", "/a/%2e%2e"] {
        match static_file_path(&vec![], path) {
            Err(Step::Fail(message)) => assert_eq!(message, "invalid static path"),
            _ => panic!("{} is refused", path),
        }
    }
    assert!(matches!(static_file_path(&vec![], "/%zz"), Err(Step::Fail(_))));
}

#[test]
fn missing_files_fall_back_to_the_start_page() {
    let found = static_file_path(&vec![Reply::Flag(true)], "/board/a.b").unwrap_or_default();
    assert_eq!(found, vec!["board", "a.b"]);
    let page = static_file_path(&vec![Reply::Flag(false)], "/board/12").unwrap_or_default();
    assert_eq!(page, vec!["index.html"]);
    match static_file_path(&vec![Reply::Flag(false)], "/app.js") {
        Err(Step::Fail(message)) => assert_eq!(message, "static file not found"),
        _ => panic!("it is missing"),
    }
}

#[test]
fn extensions_stand_behind_the_last_dot() {
    assert_eq!(extension("a.b.css"), Some("css".to_string()));
    assert_eq!(extension("a."), Some(String::new()));
    assert_eq!(extension(".hidden"), None);
    assert_eq!(extension("plain"), None);
    assert_eq!(extension(".."), None);
    assert_eq!(extension("..x"), Some("x".to_string()));
    let kind = |name: &str| content_type(&vec![name.to_string()]);
    assert_eq!(kind("a.css"), "text/css; charset=utf-8");
    assert_eq!(kind("a.html"), "text/html; charset=utf-8");
    assert_eq!(kind("a.js"), "text/javascript; charset=utf-8");
    assert_eq!(kind("a.json"), "application/json; charset=utf-8");
    assert_eq!(kind("a.png"), "image/png");
    assert_eq!(kind("a.svg"), "image/svg+xml");
    assert_eq!(kind("a.webp"), "image/webp");
    assert_eq!(kind("a.woff2"), "font/woff2");
    assert_eq!(kind("a.CSS"), "application/octet-stream");
    assert_eq!(content_type(&vec![]), "application/octet-stream");
}

fn served(method: &str) -> Vec<u8> {
    let replies = vec![Reply::Flag(true), Reply::Bytes(b"body".to_vec())];
    match serve_static(&replies, method, "/a.css") {
        Ok(response) => match deliver(&response, method) {
            Delivery::Bytes(bytes) => bytes,
            _ => panic!("a stream"),
        },
        Err(_) => panic!("it is sent"),
    }
}

#[test]
fn page_files_are_sent_with_their_type() {
    let head = "HTTP/1.1 200 OK\r\nx-content-type-options: nosniff\r\nreferrer-policy: no-referrer\r\nconnection: close\r\ncache-control: no-cache\r\ncontent-type: text/css; charset=utf-8\r\ncontent-length: 4\r\n\r\n";
    assert_eq!(served("GET"), format!("{}body", head).into_bytes());
    assert_eq!(served("HEAD"), head.as_bytes().to_vec());
    match serve_static(&vec![], "POST", "/") {
        Err(Step::Fail(message)) => assert_eq!(message, "method not allowed"),
        _ => panic!("it is refused"),
    }
    match serve_static(&vec![Reply::Flag(true)], "GET", "/a.css") {
        Err(Step::Ask(Action::ReadPageFile(names))) => assert_eq!(names, vec!["a.css"]),
        _ => panic!("the file is read"),
    }
    match serve_static(&vec![Reply::Failed("denied".to_string())], "GET", "/a.css") {
        Err(Step::Fail(message)) => assert_eq!(message, "denied"),
        _ => panic!("it fails"),
    }
}

#[test]
fn json_responses_announce_their_length() {
    let value = Json::Text("\u{e9}\"".to_string());
    let written = String::from_utf8(write_json(409, &value)).unwrap();
    assert!(written.starts_with("HTTP/1.1 409 Conflict\r\n"));
    assert!(written.contains("\r\ncache-control: no-store\r\n"));
    assert!(written.contains("\r\ncontent-length: 6\r\n"));
    assert!(written.ends_with("\r\n\r\n\"\u{e9}\\\"\""));
    match deliver(&Response::Empty(204), "GET") {
        Delivery::Bytes(bytes) => assert_eq!(
            bytes,
            b"HTTP/1.1 204 No Content\r\nx-content-type-options: nosniff\r\nreferrer-policy: no-referrer\r\nconnection: close\r\n\r\n".to_vec()
        ),
        _ => panic!("a stream"),
    }
}

#[test]
fn statuses_have_their_reasons() {
    let reasons = [
        (200, "OK"),
        (201, "Created"),
        (202, "Accepted"),
        (204, "No Content"),
        (400, "Bad Request"),
        (404, "Not Found"),
        (405, "Method Not Allowed"),
        (409, "Conflict"),
        (500, "Internal Server Error"),
        (501, "Not Implemented"),
        (299, "OK"),
    ];
    for (status, reason) in reasons {
        assert_eq!(status_text(status), reason);
    }
}
