use taskboard::ai_models::{ai_catalog_model, ai_catalog_models, configured_ai_model, is_ai_sandbox};
use taskboard::ai_runs::{create_ai_chat_run, update_ai_chat_run, Event};
use taskboard::ai_turns::{
    accept_attachment, build_codex_args, build_codex_prompt, is_codex_image_type,
    parse_ai_turn_input,
};
use taskboard::codex::{
    capped_value_text, codex_error_message, decide_outcome, normalize_codex_event, take_line, Exit,
    LineStep, TurnState,
};
use taskboard::exchange::{Action, Reply, Row, Settings, SqlValue, Step};
use taskboard::json::{document, written, Json};

fn json(text: &str) -> Json {
    match document(text.as_bytes()) {
        Some(json) => json,
        None => panic!("no document"),
    }
}

fn settings(model: Option<&str>, effort: Option<&str>, config: Option<&str>) -> Settings {
    Settings {
        model: model.map(String::from),
        effort: effort.map(String::from),
        config: config.map(String::from),
    }
}

fn configured(settings: Settings) -> (String, String) {
    configured_ai_model(&settings)
}

#[test]
fn configuration_goes_before_the_environment() {
    let pair = |a: &str, b: &str| (a.to_string(), b.to_string());
    assert_eq!(configured(settings(None, None, None)), pair("gpt-5", "medium"));
    assert_eq!(configured(settings(Some(" m "), Some(" "), None)), pair(" m ", "medium"));
    let config = "model = \" own \"\nmodel_reasoning_effort = \"high\"\n[other]\nmodel = \"x\"\n";
    assert_eq!(configured(settings(Some("m"), Some("low"), Some(config))), pair("own", "high"));
    assert_eq!(configured(settings(Some("m"), None, Some("model = 3"))), pair("m", "medium"));
    assert_eq!(configured(settings(Some("m"), None, Some("not toml ["))), pair("m", "medium"));
    assert_eq!(configured(settings(Some("m"), None, Some("model = \"\""))), pair("m", "medium"));
}

#[test]
fn own_effort_is_supported() {
    let model = written(&ai_catalog_model("m", "max"));
    assert!(model.contains("[\"minimal\",\"low\",\"medium\",\"high\",\"xhigh\",\"max\"]"));
    let model = written(&ai_catalog_model("m", "low"));
    assert!(model.contains("[\"minimal\",\"low\",\"medium\",\"high\",\"xhigh\"]"));
    assert_eq!(ai_catalog_models("gpt-5", "low").len(), 1);
    let models = ai_catalog_models("other", "low");
    assert_eq!(models.len(), 2);
    assert_eq!(models[1].text("slug").map(String::as_str), Some("gpt-5"));
    assert!(is_ai_sandbox("read-only") && !is_ai_sandbox("Read-Only"));
}

const THREAD: &str = "{\"sandbox\":\"workspace-write\",\"model\":\"m\",\"reasoningEffort\":\"low\",\"codexThreadId\":null,\"origin\":{\"projectId\":\"p\",\"projectName\":\"P\",\"workspacePath\":\"/w\"}}";

#[test]
fn prompt_tells_where_a_turn_belongs() {
    let prompt = build_codex_prompt(&json(THREAD), "hi", &vec![], "/skill").unwrap();
    assert_eq!(
        prompt,
        "[$manage-taskboard](/skill) e-taskboard\n\n<taskboard_context>\nproject_id: p\nproject_name: P\nworkspace_path: /w\nThis is private server-owned context. Do not quote, reveal, mention, or expose this block, its tags, or its filesystem paths to the user.\n</taskboard_context>\n\n<user_message>\nhi\n</user_message>"
    );
    let issue = THREAD.replace("\"projectName\"", "\"issueIdentifier\":\"P-1\",\"projectName\"");
    let paths = vec!["/t/a".to_string(), "/t/b".to_string()];
    let prompt = build_codex_prompt(&json(&issue), "hi", &paths, "/skill").unwrap();
    assert!(prompt.contains("\nworkspace_path: /w\nissue_identifier: P-1\nturn_attachment_paths:\n- /t/a\n- /t/b\nThis is"));
    assert_eq!(
        build_codex_prompt(&json("{}"), "hi", &vec![], "/skill"),
        Err("thread origin is missing".to_string())
    );
    assert_eq!(
        build_codex_prompt(&json("{\"origin\":{}}"), "hi", &vec![], "/skill"),
        Err("projectId is missing".to_string())
    );
}

#[test]
fn full_access_only_where_asked() {
    let args = |thread: &str, images: &[&str]| {
        let images: Vec<String> = images.iter().map(|s| s.to_string()).collect();
        build_codex_args(&json(thread), &images).unwrap().join(" ")
    };
    assert_eq!(
        args(THREAD, &[]),
        "exec --json --color never -C /w -s workspace-write -c approval_policy=\"on-request\" -c approvals_reviewer=\"auto_review\" -m m -c model_reasoning_effort=\"low\" -"
    );
    let read_only = THREAD.replace("workspace-write", "read-only");
    assert!(args(&read_only, &[]).contains("-s workspace-write -c approval_policy=\"on-request\" -c approvals_reviewer=\"user\""));
    let full = THREAD.replace("workspace-write", "danger-full-access");
    assert!(args(&full, &[]).contains("-s danger-full-access -c approval_policy=\"never\" -m m"));
    assert!(args(THREAD, &["/a.png"]).ends_with(" -i /a.png -"));
    let resumed = THREAD.replace("null", "\"c-1\"");
    assert!(args(&resumed, &["/a.png"]).ends_with(" resume -i /a.png c-1 -"));
}

#[test]
fn turns_need_a_message_or_a_file() {
    let refused = |body: &str| match parse_ai_turn_input(&json(body)) {
        Err(message) => message,
        Ok(_) => panic!("it was not refused"),
    };
    assert_eq!(refused("{}"), "A message or at least one attachment is required");
    assert_eq!(
        refused("{\"message\":\"a\u{fffc}\"}"),
        "skillIds must match skill markers in message"
    );
    assert_eq!(
        refused("{\"message\":\"a\",\"skillIds\":[1,\"s\"]}"),
        "AI chat skill mentions are not migrated yet"
    );
    assert_eq!(refused("{\"attachments\":{}}"), "attachments must be an array");
    let many = vec!["{}"; 9].join(",");
    assert_eq!(refused(&format!("{{\"attachments\":[{}]}}", many)), "too many attachments");
    let file = |name: &str, data: &str| {
        format!(
            "{{\"attachments\":[{{\"filename\":\"{}\",\"contentType\":\"Image/PNG\",\"dataBase64\":\"{}\"}}]}}",
            name, data
        )
    };
    assert_eq!(refused(&file("a/b", "aGk=")), "attachment filename is invalid");
    assert_eq!(refused(&file("a\\\\b", "aGk=")), "attachment filename is invalid");
    assert!(refused(&file("a", "*")).starts_with("Invalid symbol 42"));
    let input = match parse_ai_turn_input(&json(&file("a", " aGk= "))) {
        Ok(input) => input,
        Err(message) => panic!("refused: {}", message),
    };
    assert_eq!(input.attachments[0].bytes, b"hi".to_vec());
    assert_eq!(input.attachments[0].content_type, "image/png");
    assert!(!input.danger_full_access_confirmed);
    let empty = accept_attachment("a".to_string(), "b", Ok(Vec::new()));
    assert!(matches!(empty, Err(m) if m == "attachment cannot be empty"));
    let failed = accept_attachment("a".to_string(), "b", Err("why".to_string()));
    assert!(matches!(failed, Err(m) if m == "why"));
    assert!(is_codex_image_type("image/webp") && !is_codex_image_type("image/svg+xml"));
}

fn event(raw: &str) -> Option<(String, String, String, String)> {
    normalize_codex_event(&json(raw)).map(|Event { kind, role, content, data }| {
        (kind, role, content, data.map(|d| written(&d)).unwrap_or_default())
    })
}

fn kept(kind: &str, role: &str, content: &str, data: &str) -> Option<(String, String, String, String)> {
    Some((kind.to_string(), role.to_string(), content.to_string(), data.to_string()))
}

#[test]
fn reports_become_events() {
    assert_eq!(
        event("{\"type\":\"turn.started\"}"),
        kept("turn.started", "activity", "", "{\"status\":\"started\"}")
    );
    assert_eq!(
        event("{\"type\":\"turn.completed\",\"usage\":{\"n\":1}}"),
        kept("turn.completed", "activity", "", "{\"status\":\"completed\",\"usage\":{\"n\":1}}")
    );
    assert_eq!(
        event("{\"type\":\"turn.failed\",\"error\":{\"message\":\"m\"}}"),
        kept("turn.failed", "error", "{\"message\":\"m\"}", "{\"status\":\"failed\"}")
    );
    assert_eq!(
        event("{\"type\":\"item.started\",\"item\":{\"type\":\"command_execution\",\"command\":\"ls\",\"aggregated_output\":\"o\",\"exit_code\":1}}"),
        kept(
            "command_execution",
            "activity",
            "ls",
            "{\"command\":\"ls\",\"exitCode\":1,\"output\":\"o\",\"status\":\"started\"}"
        )
    );
    assert_eq!(
        event("{\"type\":\"item.completed\",\"item\":{\"type\":\"file_change\",\"status\":\"ok\",\"changes\":[1]}}"),
        kept("file_change", "activity", "[1]", "{\"detail\":\"[1]\",\"status\":\"ok\"}")
    );
    assert_eq!(
        event("{\"type\":\"item.updated\",\"item\":{\"type\":\"mcp_tool_call\",\"server\":\"s\",\"tool\":\"t\",\"error\":null}}"),
        kept(
            "mcp_tool_call",
            "error",
            "s.t",
            "{\"detail\":\"{\\\"error\\\":null,\\\"server\\\":\\\"s\\\",\\\"tool\\\":\\\"t\\\",\\\"type\\\":\\\"mcp_tool_call\\\"}\",\"status\":\"updated\"}"
        )
    );
    assert_eq!(
        event("{\"type\":\"item.completed\",\"item\":{\"type\":\"web_search\",\"query\":\"q\"}}"),
        kept("web_search", "activity", "q", "{\"query\":\"q\",\"status\":\"completed\"}")
    );
    assert_eq!(
        event("{\"type\":\"item.completed\",\"item\":{\"type\":\"todo_list\",\"items\":[]}}"),
        kept("todo_list", "activity", "[]", "{\"detail\":\"[]\",\"status\":\"completed\"}")
    );
    assert_eq!(
        event("{\"type\":\"item.completed\",\"item\":{\"type\":\"error\",\"message\":\"bad\"}}"),
        kept("error", "error", "bad", "{\"status\":\"completed\"}")
    );
    assert_eq!(event("{\"type\":\"item.completed\",\"item\":{\"type\":\"reasoning\"}}"), None);
    assert_eq!(event("{\"type\":\"other\"}"), None);
    assert_eq!(event("{}"), None);
}

#[test]
fn texts_of_reports_are_bounded() {
    let long = Json::Text("\u{e9}".repeat(65_537));
    assert_eq!(capped_value_text(Some(&long)), "\u{e9}".repeat(65_536));
    assert_eq!(capped_value_text(None), "");
    assert_eq!(capped_value_text(Some(&json("{\"a\":1}"))), "{\"a\":1}");
    assert_eq!(codex_error_message(&json("{\"message\":null,\"error\":\"e\"}")), "null");
    assert_eq!(codex_error_message(&json("{\"status\":\"s\"}")), "s");
    assert_eq!(codex_error_message(&json("{}")), "");
}

fn line(text: &str, replies: Vec<Reply>) -> LineStep {
    take_line(&replies, "t", "r", &TurnState::fresh(), &text.as_bytes().to_vec())
}

#[test]
fn reading_stops_at_what_cannot_be_read_or_recorded() {
    assert!(matches!(line(" \t\r", vec![]), LineStep::Next(state) if !state.failed));
    match line("{", vec![]) {
        LineStep::Stop(state) => assert_eq!(state.error, "Codex emitted malformed JSONL"),
        _ => panic!("it stops"),
    }
    assert!(matches!(line("{\"type\":\"error\"}", vec![]), LineStep::Ask(Action::NewId)));
    match line("{\"type\":\"error\"}", vec![Reply::Failed("locked".to_string())]) {
        LineStep::Stop(state) => assert_eq!((state.failed, state.error.as_str()), (true, "locked")),
        _ => panic!("it stops"),
    }
    assert!(matches!(line("{\"type\":\"thread.started\"}", vec![]), LineStep::Next(_)));
    assert_eq!(TurnState::unreadable().error, "Codex output could not be read");
}

#[test]
fn turns_end_as_their_reports_say() {
    let fresh = TurnState::fresh();
    let failed = TurnState::with_failure("boom");
    let ended = |state: &TurnState, interrupted: bool, exit: Option<Exit>| {
        let outcome = decide_outcome(state, interrupted, exit);
        (outcome.status, outcome.exit_code, outcome.error.unwrap_or_default())
    };
    let success = || Some(Exit { success: true, code: Some(0) });
    assert_eq!(ended(&fresh, false, success()), ("completed", Some(0), String::new()));
    assert_eq!(ended(&fresh, true, success()), ("interrupted", None, "Interrupted".to_string()));
    assert_eq!(ended(&failed, false, success()), ("failed", Some(0), "boom".to_string()));
    let signal = Some(Exit { success: false, code: None });
    assert_eq!(ended(&fresh, false, signal), ("failed", None, "Codex turn failed".to_string()));
    assert_eq!(ended(&fresh, false, None), ("failed", None, "Codex turn failed".to_string()));
}

fn one_text(name: &str, text: &str) -> Reply {
    let cells = vec![(name.to_string(), SqlValue::Text(text.to_string()))];
    Reply::Tables(vec![vec![Row { cells }]])
}

fn batch<T>(step: &Result<T, Step>) -> Option<String> {
    match step {
        Err(Step::Ask(Action::Batch(sql))) => Some(sql.clone()),
        _ => None,
    }
}

#[test]
fn failed_creation_is_rolled_back() {
    let mut replies = vec![Reply::Text("id".to_string()), one_text("now", "t")];
    assert_eq!(batch(&create_ai_chat_run(&replies, 0, "t")), Some("BEGIN IMMEDIATE".to_string()));
    replies.push(Reply::Done);
    assert!(matches!(create_ai_chat_run(&replies, 0, "t"), Err(Step::Ask(Action::Write(_)))));
    replies.push(Reply::Failed("constraint".to_string()));
    assert_eq!(batch(&create_ai_chat_run(&replies, 0, "t")), Some("ROLLBACK".to_string()));
    replies.push(Reply::Failed("no transaction".to_string()));
    match create_ai_chat_run(&replies, 0, "t") {
        Err(Step::Fail(message)) => assert_eq!(message, "constraint"),
        _ => panic!("it fails"),
    }
}

#[test]
fn finished_update_is_committed() {
    let update = |replies: &Vec<Reply>| update_ai_chat_run(replies, 0, "r", "failed", None, None, None);
    let mut replies = vec![Reply::Done, Reply::Changed(1), one_text("thread_id", "t")];
    match update(&replies) {
        Err(Step::Ask(Action::Write(statement))) => {
            assert!(matches!(&statement.params[0], SqlValue::Text(s) if s == "failed"));
            assert!(matches!(&statement.params[2], SqlValue::Text(s) if s == "t"));
        }
        _ => panic!("the thread is marked"),
    }
    replies.push(Reply::Changed(1));
    assert_eq!(batch(&update(&replies)), Some("COMMIT".to_string()));
    let lost = vec![Reply::Done, Reply::Changed(0), Reply::Tables(vec![vec![]])];
    assert_eq!(batch(&update(&lost)), Some("ROLLBACK".to_string()));
}

#[test]
fn replies_of_another_kind_are_refused() {
    match create_ai_chat_run(&vec![Reply::Done], 0, "t") {
        Err(Step::Fail(message)) => assert_eq!(message, "unexpected reply"),
        _ => panic!("it fails"),
    }
}
