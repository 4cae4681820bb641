use taskboard::encoding::{decode, encode};
use taskboard::fields::{
    development_context, due_date, labels_json, positive_i64, recurrence, required_string,
    string_value,
};
use taskboard::ids::{is_project_id, new_id, project_prefix, slugify, task_identifier};
use taskboard::json::{document, stored, written, Json};
use taskboard::relations::{relation_endpoints, task_relation_path};
use taskboard::routes::{routable, route_tail};
use taskboard::text::{before, decimal_text, integer_text, lines, parse_usize, trim};

fn json(text: &str) -> Json {
    match document(text.as_bytes()) {
        Some(json) => json,
        None => panic!("no document"),
    }
}

#[test]
fn documents_are_read_and_written() {
    let text = "{\"a\":[1,-2,18446744073709551615,2.5,true,null],\"b\":\"\\u00e9\\n\"}";
    assert_eq!(
        written(&json(text)),
        "{\"a\":[1,-2,18446744073709551615,2.5,true,null],\"b\":\"\u{e9}\\n\"}"
    );
    assert_eq!(written(&json(" {\"b\":1,\"a\":2,\"b\":3} ")), "{\"a\":2,\"b\":3}");
    assert!(document(b"{").is_none());
    assert!(document(b"").is_none());
    assert!(document(b"1 2").is_none());
    assert!(document(b"\"\xff\"").is_none());
    let deepest = format!("{}{}", "[".repeat(127), "]".repeat(127));
    assert_eq!(written(&json(&deepest)), deepest);
    assert!(document(format!("[{}]", deepest).as_bytes()).is_none());
    assert_eq!(written(&stored("[1]", Json::Null)), "[1]");
    assert_eq!(written(&stored("no", Json::Bool(false))), "false");
    assert_eq!(written(&Json::Real("1000".to_string())), "1000.0");
    assert_eq!(written(&Json::Real("inf".to_string())), "null");
}

#[test]
fn members_are_found_by_their_key() {
    let value = json("{\"t\":\"x\",\"i\":7,\"n\":null,\"big\":9223372036854775808}");
    assert_eq!(value.text("t").map(String::as_str), Some("x"));
    assert_eq!(value.text("i"), None);
    assert_eq!(value.integer("i"), Some(7));
    assert_eq!(value.integer("big"), None);
    assert!(value.lacks("n") && value.lacks("none") && !value.lacks("t"));
    assert!(json("[]").get("t").is_none());
    assert_eq!(written(&value.copy()), written(&value));
}

#[test]
fn bytes_are_encoded_with_padding() {
    assert_eq!(encode(b""), "");
    assert_eq!(encode(b"a"), "YQ==");
    assert_eq!(encode(b"\xff\xfe\xfd"), "//79");
    assert_eq!(decode("YQ=="), Ok(b"a".to_vec()));
    assert!(decode("YQ").is_err());
    assert!(decode("Y Q=").is_err());
}

#[test]
fn slugs_are_project_identifiers() {
    assert_eq!(slugify("My  App!"), "my-app");
    assert_eq!(slugify("--A--b--"), "a-b");
    assert_eq!(slugify("\u{4e2d}\u{6587}"), "");
    assert_eq!(slugify("caf\u{e9} 1"), "caf-1");
    assert_eq!(slugify("abc123"), "abc123");
    assert_eq!(slugify("-_ !"), "");
    assert_eq!(slugify("!Z!"), "z");
    let long = slugify(&format!("{} b", "a".repeat(63)));
    assert_eq!(long, "a".repeat(63));
    for name in ["My  App!", "x", "caf\u{e9} 1", &"z ".repeat(100)] {
        assert!(is_project_id(&slugify(name)));
        assert_eq!(slugify(&slugify(name)), slugify(name));
        assert!(!slugify(name).contains("--"));
    }
    assert!(!is_project_id("") && !is_project_id("-a") && !is_project_id("a-"));
    assert!(!is_project_id("A") && !is_project_id("a_b") && is_project_id("a--b"));
    assert!(is_project_id(&"a".repeat(64)) && !is_project_id(&"a".repeat(65)));
}

#[test]
fn identifiers_start_with_the_prefix_of_their_project() {
    assert_eq!(project_prefix("my-app2"), "MYAPP2");
    assert_eq!(project_prefix("---"), "TASK");
    assert_eq!(project_prefix("abcdefghijklmnop"), "ABCDEFGHIJKL");
    assert_eq!(task_identifier("local", 42), "LOCAL-42");
    assert_eq!(task_identifier("local", -1), "LOCAL--1");
}

#[test]
fn fresh_identifiers_have_their_form() {
    let id = new_id();
    assert_eq!(id.len(), 36);
    for (i, c) in id.chars().enumerate() {
        if i == 8 || i == 13 || i == 18 || i == 23 {
            assert_eq!(c, '-');
        } else {
            assert!(c.is_ascii_digit() || ('a'..='f').contains(&c));
        }
    }
    assert_eq!(&id[14..15], "4");
    assert!("89ab".contains(&id[19..20]));
    assert_ne!(id, new_id());
}

#[test]
fn fields_are_trimmed_and_bounded() {
    let body = json("{\"a\":\" x \",\"e\":\" \",\"n\":null,\"i\":3,\"z\":0,\"w\":\"\u{e9}\u{e9}\"}");
    assert_eq!(string_value(&body, "a", 1), Ok(Some("x".to_string())));
    assert_eq!(string_value(&body, "n", 1), Ok(None));
    assert_eq!(string_value(&body, "none", 1), Ok(None));
    assert_eq!(string_value(&body, "i", 1), Err("i must be a string".to_string()));
    assert_eq!(string_value(&body, "w", 3), Err("w is too long".to_string()));
    assert_eq!(string_value(&body, "w", 4), Ok(Some("\u{e9}\u{e9}".to_string())));
    assert_eq!(required_string(&body, "e", 9), Err("e cannot be empty".to_string()));
    assert_eq!(required_string(&body, "n", 9), Err("n is required".to_string()));
    assert_eq!(positive_i64(&body, "i", true), Ok(Some(3)));
    assert_eq!(positive_i64(&body, "z", false), Err("z must be positive".to_string()));
    assert_eq!(positive_i64(&body, "a", false), Ok(None));
    assert_eq!(positive_i64(&body, "a", true), Err("a is required".to_string()));
}

#[test]
fn labels_read_back_as_they_were_stored() {
    assert_eq!(labels_json(None), Ok("[]".to_string()));
    let labels = labels_json(Some(&json("[\" b \",\"a\\\"\"]"))).unwrap();
    assert_eq!(labels, "[\"b\",\"a\\\"\"]");
    assert_eq!(written(&stored(&labels, Json::Null)), labels);
    let twenty: Vec<String> = (0..20).map(|i| format!("\"l{}\"", i)).collect();
    assert!(labels_json(Some(&json(&format!("[{}]", twenty.join(","))))).is_ok());
    let long = format!("[\"{}\"]", "x".repeat(65));
    assert_eq!(labels_json(Some(&json(&long))), Err("label is invalid".to_string()));
}

#[test]
fn dates_and_recurrences_are_checked() {
    assert_eq!(due_date(Some(&json("\"2026-02-31\""))), Ok(Some("2026-02-31".to_string())));
    assert_eq!(due_date(Some(&Json::Null)), Ok(None));
    for wrong in ["\"2026-2-31\"", "\"2026-02-311\"", "\"2026x02-31\"", "\"\u{e9}26-02-311\""] {
        assert_eq!(due_date(Some(&json(wrong))), Err("invalid dueDate".to_string()));
    }
    let every = json("{\"interval\":1,\"unit\":\"month\"}");
    assert_eq!(recurrence(Some(&every)), Ok(Some((1, "month".to_string()))));
    assert_eq!(recurrence(None), Ok(None));
    assert_eq!(
        recurrence(Some(&json("{\"interval\":0,\"unit\":\"day\"}"))),
        Err("invalid recurrence interval".to_string())
    );
    let branch = json("{\"type\":\"branch\",\"branch\":\" \"}");
    assert_eq!(development_context(Some(&branch)), Ok((None, None, None)));
    let tree = json("{\"type\":\"worktree\",\"path\":\"/p\",\"branch\":\" \"}");
    let expected = (None, Some("/p".to_string()), Some(String::new()));
    assert_eq!(development_context(Some(&tree)), Ok(expected));
}

#[test]
fn relations_have_one_way_to_be_stored() {
    assert_eq!(relation_endpoints("parent", "a", "b"), Ok(("parent", "b", "a")));
    assert_eq!(relation_endpoints("blocks", "a", "b"), Ok(("blocks", "a", "b")));
    assert_eq!(relation_endpoints("blocked_by", "b", "a"), Ok(("blocks", "a", "b")));
    assert_eq!(relation_endpoints("related", "a", "b"), Ok(("related", "a", "b")));
    assert_eq!(relation_endpoints("related", "b", "a"), Ok(("related", "a", "b")));
    assert_eq!(relation_endpoints("", "b", "a"), Err("invalid relation type".to_string()));
    assert!(before("a", "b") && before("a", "aa") && !before("b", "a") && !before("a", "a"));
    let path = task_relation_path("/api/tasks/a%20b/relations/blocks/c");
    let expected = ("a b".to_string(), "blocks".to_string(), "c".to_string());
    assert_eq!(path, Ok(Some(expected)));
    assert_eq!(task_relation_path("/api/tasks/a/relations/blocks"), Ok(None));
    assert_eq!(task_relation_path("/api/tasks/a/links/blocks/c"), Ok(None));
    assert_eq!(task_relation_path("/api/task"), Ok(None));
    assert_eq!(
        task_relation_path("/api/tasks/a/relations//c"),
        Err("relation type is invalid".to_string())
    );
}

#[test]
fn tails_are_single_segments() {
    let tail = |path: &str| route_tail(path, "/api/tasks/", "/comments");
    assert_eq!(tail("/api/tasks/x/comments"), Ok(Some("x".to_string())));
    assert_eq!(tail("/api/tasks/x/y/comments"), Ok(None));
    assert_eq!(tail("/api/tasks/x"), Ok(None));
    assert_eq!(tail("/api/tasks//comments"), Err("route segment is invalid".to_string()));
    assert!(!routable("/api/tasks/comments"));
    assert!(!routable("/api/attachments/content"));
    assert!(routable("/api/tasks/x/comments") && routable("/api/tasks/archive"));
}

#[test]
fn texts_are_taken_apart() {
    assert_eq!(trim(" \t\u{3000}a b\u{85}\n"), "a b");
    assert_eq!(trim(" \n"), "");
    assert_eq!(lines("a\r\nb\n\nc\r"), vec!["a", "b", "", "c\r"]);
    assert_eq!(lines("a\n"), vec!["a"]);
    assert!(lines("").is_empty());
    assert_eq!(decimal_text(1000), "1000");
    for n in [0u64, 9, 10, 1000, 4294967295] {
        assert_eq!(parse_usize(&decimal_text(n)), Ok(n as usize));
    }
    assert_eq!(parse_usize("+007"), Ok(7));
    assert_eq!(parse_usize("18446744073709551615"), Ok(usize::MAX));
    assert_eq!(parse_usize("+"), Err("invalid digit found in string".to_string()));
    assert_eq!(integer_text(i64::MIN), "-9223372036854775808");
    assert_eq!(integer_text(0), "0");
}

#[test]
fn object_of_one_text_is_written_without_spaces() {
    let text = "{\"error\":\"no such page\"}";
    assert_eq!(written(&json(" { \"error\" : \"no such page\" } ")), text);
    assert_eq!(written(&json("{\"a\":\"\"}")), "{\"a\":\"\"}");
    assert_eq!(written(&json("{\"a\":\"\\\"\"}")), "{\"a\":\"\\\"\"}");
    assert_eq!(written(&json("{\"a\":\"\u{e9}\"}")), "{\"a\":\"\u{e9}\"}");
}
