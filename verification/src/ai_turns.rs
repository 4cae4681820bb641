//! Turns of conversations: what a request asks of Codex, and how Codex is started with it.
use crate::ai_runs;
use crate::ai_runs::{Event, EventView};
use crate::ai_threads;
use crate::comments;
use crate::encoding;
use crate::exchange;
use crate::exchange::{
    Action, ActionView, CodexStart, CodexStartView, Reply, ReplyView, Response, ResponseView, Step,
    StepView,
};
use crate::fields;
use crate::json;
use crate::json::{Json, JsonView};
use crate::store;
use crate::text;
use vstd::prelude::*;

verus! {

/// The character that stands for a skill in a message.
pub const AI_CHAT_SKILL_MARKER: char = '\u{fffc}';

/// A file that comes with a turn.
pub struct AiAttachmentInput {
    pub filename: String,
    pub content_type: String,
    pub bytes: Vec<u8>,
}

pub struct AiAttachmentView {
    pub filename: Seq<char>,
    pub content_type: Seq<char>,
    pub bytes: Seq<u8>,
}

impl View for AiAttachmentInput {
    type V = AiAttachmentView;

    open spec fn view(&self) -> AiAttachmentView {
        AiAttachmentView {
            filename: self.filename@,
            content_type: self.content_type@,
            bytes: self.bytes@,
        }
    }
}

impl DeepView for AiAttachmentInput {
    type V = AiAttachmentView;

    open spec fn deep_view(&self) -> AiAttachmentView {
        self@
    }
}

/// What a turn says, whether it confirms full access, and the files that come with it.
pub struct AiTurnInput {
    pub message: String,
    pub danger_full_access_confirmed: bool,
    pub attachments: Vec<AiAttachmentInput>,
}

pub struct AiTurnView {
    pub message: Seq<char>,
    pub danger_full_access_confirmed: bool,
    pub attachments: Seq<AiAttachmentView>,
}

impl View for AiTurnInput {
    type V = AiTurnView;

    open spec fn view(&self) -> AiTurnView {
        AiTurnView {
            message: self.message@,
            danger_full_access_confirmed: self.danger_full_access_confirmed,
            attachments: self.attachments.deep_view(),
        }
    }
}

impl DeepView for AiTurnInput {
    type V = AiTurnView;

    open spec fn deep_view(&self) -> AiTurnView {
        self@
    }
}

/// A file that a request sends with a turn, out of the text that encodes it.
pub open spec fn decoded_attachment(
    filename: Seq<char>,
    content_type: Seq<char>,
    decoded: Result<Seq<u8>, Seq<char>>,
) -> Result<AiAttachmentView, Seq<char>> {
    match decoded {
        Err(m) => Err(m),
        Ok(bytes) => if bytes.len() == 0 {
            Err("attachment cannot be empty"@)
        } else {
            Ok(AiAttachmentView { filename, content_type: text::lowered(content_type), bytes })
        },
    }
}

/// Takes the bytes of a file that came with a turn.
pub fn accept_attachment(
    filename: String,
    content_type: &str,
    decoded: Result<Vec<u8>, String>,
) -> (r: Result<AiAttachmentInput, String>)
    ensures
        exchange::says(
            r,
            decoded_attachment(
                filename@,
                content_type@,
                match decoded {
                    Ok(bytes) => Ok(bytes@),
                    Err(m) => Err(m@),
                },
            ),
        ),
{
    let bytes = decoded?;
    if bytes.len() == 0 {
        return Err("attachment cannot be empty".to_owned());
    }
    Ok(AiAttachmentInput { filename, content_type: text::to_lowercase(content_type), bytes })
}

/// One file that comes with a turn.
pub open spec fn attachment_input(value: JsonView) -> Result<AiAttachmentView, Seq<char>> {
    match fields::required_text(value, "filename"@, 240) {
        Err(m) => Err(m),
        Ok(filename) => if !comments::is_plain_name(filename) {
            Err("attachment filename is invalid"@)
        } else {
            match fields::required_text(value, "contentType"@, 256) {
                Err(m) => Err(m),
                Ok(content_type) => match fields::required_text(
                    value,
                    "dataBase64"@,
                    26_214_400,
                ) {
                    Err(m) => Err(m),
                    Ok(data) => decoded_attachment(
                        filename,
                        content_type,
                        encoding::base64_bytes(data),
                    ),
                },
            }
        },
    }
}

fn read_attachment_input(value: &Json) -> (r: Result<AiAttachmentInput, String>)
    ensures
        exchange::says(r, attachment_input(value@)),
{
    let filename = fields::required_string(value, "filename", 240)?;
    if !comments::plain_name(&filename) {
        return Err("attachment filename is invalid".to_owned());
    }
    let content_type = fields::required_string(value, "contentType", 256)?;
    let data = fields::required_string(value, "dataBase64", 26_214_400)?;
    accept_attachment(filename, &content_type, encoding::decode(&data))
}

/// The files that values describe.
pub open spec fn attachment_inputs(values: Seq<JsonView>) -> Result<
    Seq<AiAttachmentView>,
    Seq<char>,
>
    decreases values.len(),
{
    if values.len() == 0 {
        Ok(Seq::empty())
    } else {
        match attachment_inputs(values.drop_last()) {
            Err(m) => Err(m),
            Ok(done) => match attachment_input(values.last()) {
                Err(m) => Err(m),
                Ok(attachment) => Ok(done.push(attachment)),
            },
        }
    }
}

proof fn lemma_attachment_inputs_error_stays(values: Seq<JsonView>, i: int)
    requires
        0 <= i <= values.len(),
        attachment_inputs(values.take(i)) is Err,
    ensures
        attachment_inputs(values) == attachment_inputs(values.take(i)),
    decreases values.len() - i,
{
    if i == values.len() {
        assert(values.take(i) =~= values);
    } else {
        assert(values.take(i + 1).drop_last() =~= values.take(i));
        lemma_attachment_inputs_error_stays(values, i + 1);
    }
}

fn read_attachment_inputs(values: &Vec<Json>) -> (r: Result<Vec<AiAttachmentInput>, String>)
    ensures
        exchange::says(r, attachment_inputs(json::items_view(values@))),
{
    let ghost all = json::items_view(values@);
    let mut done: Vec<AiAttachmentInput> = json::none();
    let mut i: usize = 0;
    proof {
        assert(all.take(0) =~= Seq::empty());
    }
    while i < values.len()
        invariant
            all == json::items_view(values@),
            i <= values@.len(),
            attachment_inputs(all.take(i as int)) == Ok::<Seq<AiAttachmentView>, Seq<char>>(
                done.deep_view(),
            ),
        decreases values.len() - i,
    {
        proof {
            assert(all.take(i + 1).drop_last() =~= all.take(i as int));
            assert(all.take(i + 1).last() == values@[i as int]@);
            if attachment_inputs(all.take(i + 1)) is Err {
                lemma_attachment_inputs_error_stays(all, i + 1);
            }
        }
        let attachment = read_attachment_input(&values[i])?;
        json::put(&mut done, attachment);
        i = i + 1;
    }
    proof {
        assert(all.take(i as int) =~= all);
    }
    Ok(done)
}

/// The files that come with a turn: up to eight.
pub open spec fn turn_attachments(value: Option<JsonView>) -> Result<
    Seq<AiAttachmentView>,
    Seq<char>,
> {
    match value {
        None => Ok(Seq::empty()),
        Some(JsonView::Array(values)) => if values.len() > 8 {
            Err("too many attachments"@)
        } else {
            attachment_inputs(values)
        },
        Some(_) => Err("attachments must be an array"@),
    }
}

/// Reads the files that come with a turn.
pub fn parse_ai_attachments(value: Option<&Json>) -> (r: Result<Vec<AiAttachmentInput>, String>)
    ensures
        exchange::says(r, turn_attachments(value.deep_view())),
{
    match value {
        None => Ok(json::none()),
        Some(Json::Array(values)) => {
            proof {
                json::lemma_array_view(*values);
            }
            if values.len() > 8 {
                return Err("too many attachments".to_owned());
            }
            read_attachment_inputs(values)
        },
        Some(_) => Err("attachments must be an array".to_owned()),
    }
}

/// Whether a field names skills: whether it is an array that holds a text.
pub open spec fn names_skills(value: Option<JsonView>) -> bool {
    match value {
        Some(JsonView::Array(items)) => exists|i: int|
            0 <= i < items.len() && (#[trigger] items[i]) is Text,
        _ => false,
    }
}

fn has_skills(value: Option<&Json>) -> (r: bool)
    ensures
        r == names_skills(value.deep_view()),
{
    match value {
        Some(Json::Array(items)) => {
            proof {
                json::lemma_array_view(*items);
            }
            let ghost all = json::items_view(items@);
            let mut i: usize = 0;
            while i < items.len()
                invariant
                    all == json::items_view(items@),
                    value.deep_view() == Some(JsonView::Array(all)),
                    i <= items@.len(),
                    forall|k: int| 0 <= k < i ==> !((#[trigger] all[k]) is Text),
                decreases items.len() - i,
            {
                match &items[i] {
                    Json::Text(_) => {
                        proof {
                            assert(all[i as int] is Text);
                        }
                        return true;
                    },
                    _ => {
                        proof {
                            assert(!(all[i as int] is Text));
                        }
                    },
                }
                i = i + 1;
            }
            false
        },
        _ => false,
    }
}

/// Whether a field is true.
pub open spec fn is_true(value: Option<JsonView>) -> bool {
    value == Some(JsonView::Bool(true))
}

/// What a request asks of a turn.
pub open spec fn turn_input(body: JsonView) -> Result<AiTurnView, Seq<char>> {
    match fields::text_of(body, "message"@, 100_000) {
        Err(m) => Err(m),
        Ok(said) => {
            let message = match said {
                Some(s) => s,
                None => Seq::empty(),
            };
            if names_skills(json::field(body, "skillIds"@)) {
                Err("AI chat skill mentions are not migrated yet"@)
            } else if message.contains(AI_CHAT_SKILL_MARKER) {
                Err("skillIds must match skill markers in message"@)
            } else {
                match turn_attachments(json::field(body, "attachments"@)) {
                    Err(m) => Err(m),
                    Ok(attachments) => if text::trimmed(message).len() == 0 && attachments.len()
                        == 0 {
                        Err("A message or at least one attachment is required"@)
                    } else {
                        Ok(
                            AiTurnView {
                                message,
                                danger_full_access_confirmed: is_true(
                                    json::field(body, "dangerFullAccessConfirmed"@),
                                ),
                                attachments,
                            },
                        )
                    },
                }
            }
        },
    }
}

/// Reads what a request asks of a turn.
pub fn parse_ai_turn_input(body: &Json) -> (r: Result<AiTurnInput, String>)
    ensures
        exchange::says(r, turn_input(body@)),
{
    let message = match fields::string_value(body, "message", 100_000)? {
        Some(s) => s,
        None => String::new(),
    };
    if has_skills(body.get("skillIds")) {
        return Err("AI chat skill mentions are not migrated yet".to_owned());
    }
    if text::contains_char(&message, AI_CHAT_SKILL_MARKER) {
        return Err("skillIds must match skill markers in message".to_owned());
    }
    let attachments = parse_ai_attachments(body.get("attachments"))?;
    proof {
        assert(attachments.deep_view().len() == attachments@.len());
    }
    if text::trim(&message).as_str().is_empty() && attachments.len() == 0 {
        return Err("A message or at least one attachment is required".to_owned());
    }
    let danger_full_access_confirmed = match body.get("dangerFullAccessConfirmed") {
        Some(Json::Bool(b)) => *b,
        _ => false,
    };
    Ok(AiTurnInput { message, danger_full_access_confirmed, attachments })
}

/// Whether Codex takes a file of a type as an image.
pub open spec fn is_image(content_type: Seq<char>) -> bool {
    content_type == "image/gif"@ || content_type == "image/jpeg"@ || content_type == "image/png"@
        || content_type == "image/webp"@
}

/// Tells whether Codex takes a file of a type as an image.
pub fn is_codex_image_type(content_type: &str) -> (r: bool)
    ensures
        r == is_image(content_type@),
{
    text::same(content_type, "image/gif") || text::same(content_type, "image/jpeg") || text::same(
        content_type,
        "image/png",
    ) || text::same(content_type, "image/webp")
}

/// The name under which the file at an index is stored for a turn.
pub open spec fn stored_name(index: int, filename: Seq<char>) -> Seq<char> {
    "attachment-"@ + text::decimal((index + 1) as nat) + "-"@ + filename
}

/// The files of a turn, each under the name that it is stored under.
pub open spec fn turn_files(attachments: Seq<AiAttachmentView>) -> Seq<(Seq<char>, Seq<u8>)> {
    Seq::new(
        attachments.len(),
        |i: int| (stored_name(i, attachments[i].filename), attachments[i].bytes),
    )
}

fn make_turn_files(attachments: &Vec<AiAttachmentInput>) -> (r: Vec<(String, Vec<u8>)>)
    ensures
        r.deep_view() == turn_files(attachments.deep_view()),
{
    let mut files: Vec<(String, Vec<u8>)> = Vec::new();
    let mut i: usize = 0;
    while i < attachments.len()
        invariant
            i <= attachments@.len(),
            files@.len() == i,
            forall|k: int|
                0 <= k < i ==> (#[trigger] files@[k]).0@ == stored_name(
                    k,
                    attachments@[k].filename@,
                ) && files@[k].1@ == attachments@[k].bytes@,
        decreases attachments.len() - i,
    {
        let mut name = "attachment-".to_owned();
        name.append(&text::decimal_text(i as u64 + 1));
        name.append("-");
        name.append(&attachments[i].filename);
        files.push((name, comments::copy_bytes(&attachments[i].bytes)));
        i = i + 1;
    }
    proof {
        assert forall|k: int| 0 <= k < files@.len() implies files.deep_view()[k] == turn_files(
            attachments.deep_view(),
        )[k] by {
            assert(files@[k].1.deep_view() =~= files@[k].1@);
        }
        assert(files.deep_view() =~= turn_files(attachments.deep_view()));
    }
    files
}

/// The paths of the files that Codex takes as images.
pub open spec fn image_paths(attachments: Seq<AiAttachmentView>, paths: Seq<Seq<char>>) -> Seq<
    Seq<char>,
>
    decreases attachments.len(),
{
    if attachments.len() == 0 {
        Seq::empty()
    } else {
        let before = image_paths(attachments.drop_last(), paths);
        if is_image(attachments.last().content_type) {
            before.push(paths[attachments.len() - 1])
        } else {
            before
        }
    }
}

fn select_image_paths(attachments: &Vec<AiAttachmentInput>, paths: &Vec<String>) -> (r: Vec<String>)
    requires
        attachments@.len() == paths@.len(),
    ensures
        r.deep_view() == image_paths(attachments.deep_view(), paths.deep_view()),
{
    let ghost all = attachments.deep_view();
    let mut images: Vec<String> = json::none();
    let mut i: usize = 0;
    proof {
        assert(all.take(0) =~= Seq::empty());
    }
    while i < attachments.len()
        invariant
            all == attachments.deep_view(),
            i <= attachments@.len(),
            attachments@.len() == paths@.len(),
            images.deep_view() == image_paths(all.take(i as int), paths.deep_view()),
        decreases attachments.len() - i,
    {
        proof {
            assert(all.take(i + 1).drop_last() =~= all.take(i as int));
            assert(all.take(i + 1).last() == attachments@[i as int]@);
        }
        if is_codex_image_type(&attachments[i].content_type) {
            json::put(&mut images, paths[i].clone());
        }
        i = i + 1;
    }
    proof {
        assert(all.take(i as int) =~= all);
    }
    images
}

/// The files of a turn, once they are stored: their directory, their paths, and the paths of the
/// images among them.
pub struct WrittenAiAttachments {
    pub directory: Option<String>,
    pub attachment_paths: Vec<String>,
    pub image_paths: Vec<String>,
}

pub struct WrittenView {
    pub directory: Option<Seq<char>>,
    pub attachment_paths: Seq<Seq<char>>,
    pub image_paths: Seq<Seq<char>>,
}

impl View for WrittenAiAttachments {
    type V = WrittenView;

    open spec fn view(&self) -> WrittenView {
        WrittenView {
            directory: self.directory.deep_view(),
            attachment_paths: self.attachment_paths.deep_view(),
            image_paths: self.image_paths.deep_view(),
        }
    }
}

impl DeepView for WrittenAiAttachments {
    type V = WrittenView;

    open spec fn deep_view(&self) -> WrittenView {
        self@
    }
}

/// How the files of a turn are stored: none are where there are none, else they get a directory of
/// their own under a fresh name. The replies start at `at`; the place of the next one comes with
/// them.
pub open spec fn files_written(
    replies: Seq<ReplyView>,
    at: int,
    attachments: Seq<AiAttachmentView>,
) -> Result<(WrittenView, int), StepView> {
    if attachments.len() == 0 {
        Ok(
            (
                WrittenView {
                    directory: None,
                    attachment_paths: Seq::empty(),
                    image_paths: Seq::empty(),
                },
                at,
            ),
        )
    } else {
        match store::id_at(replies, at) {
            Err(s) => Err(s),
            Ok(id) => if at + 1 >= replies.len() {
                Err(
                    StepView::Ask(
                        ActionView::StoreTurnFiles(
                            "codex-taskboard-ai-turn-"@ + id,
                            turn_files(attachments),
                        ),
                    ),
                )
            } else {
                match replies[at + 1] {
                    ReplyView::Stored(directory, paths) => if paths.len() == attachments.len() {
                        Ok(
                            (
                                WrittenView {
                                    directory: Some(directory),
                                    attachment_paths: paths,
                                    image_paths: image_paths(attachments, paths),
                                },
                                at + 2,
                            ),
                        )
                    } else {
                        Err(StepView::Fail(exchange::UNEXPECTED@))
                    },
                    other => Err(exchange::unusable(other)),
                }
            },
        }
    }
}

fn copy_texts(texts: &Vec<String>) -> (r: Vec<String>)
    ensures
        r.deep_view() == texts.deep_view(),
        r@.len() == texts@.len(),
{
    let mut out: Vec<String> = Vec::new();
    let mut i: usize = 0;
    while i < texts.len()
        invariant
            i <= texts@.len(),
            out@.len() == i,
            forall|k: int| 0 <= k < i ==> (#[trigger] out@[k])@ == texts@[k]@,
        decreases texts.len() - i,
    {
        out.push(texts[i].clone());
        i = i + 1;
    }
    proof {
        assert(out.deep_view() =~= texts.deep_view());
    }
    out
}

/// Stores the files of a turn.
pub fn write_ai_attachments(
    replies: &Vec<Reply>,
    at: usize,
    attachments: &Vec<AiAttachmentInput>,
) -> (r: Result<(WrittenAiAttachments, usize), Step>)
    requires
        at <= replies@.len(),
    ensures
        exchange::reaches(
            r,
            files_written(replies.deep_view(), at as int, attachments.deep_view()),
        ),
        r is Ok ==> (r->Ok_0).1 <= replies@.len(),
{
    let total: usize = replies.len();
    proof {
        assert(attachments.deep_view().len() == attachments@.len());
    }
    if attachments.len() == 0 {
        return Ok(
            (
                WrittenAiAttachments {
                    directory: None,
                    attachment_paths: json::none(),
                    image_paths: json::none(),
                },
                at,
            ),
        );
    }
    let id = store::new_id_from(replies, at)?;
    if at + 1 >= total {
        let mut name = "codex-taskboard-ai-turn-".to_owned();
        name.append(id);
        return Err(Step::Ask(Action::StoreTurnFiles(name, make_turn_files(attachments))));
    }
    match &replies[at + 1] {
        Reply::Stored(directory, paths) => {
            proof {
                assert(paths.deep_view().len() == paths@.len());
            }
            if paths.len() != attachments.len() {
                return Err(Step::Fail(exchange::UNEXPECTED.to_owned()));
            }
            let images = select_image_paths(attachments, paths);
            Ok(
                (
                    WrittenAiAttachments {
                        directory: Some(directory.clone()),
                        attachment_paths: copy_texts(paths),
                        image_paths: images,
                    },
                    at + 2,
                ),
            )
        },
        other => Err(exchange::refuse(other)),
    }
}

/// Where a thread started from.
pub open spec fn thread_origin(thread: JsonView) -> Result<JsonView, Seq<char>> {
    match json::field(thread, "origin"@) {
        Some(origin) => Ok(origin),
        None => Err("thread origin is missing"@),
    }
}

fn read_origin<'a>(thread: &'a Json) -> (r: Result<&'a Json, String>)
    ensures
        exchange::says(r, thread_origin(thread@)),
{
    match thread.get("origin") {
        Some(origin) => Ok(origin),
        None => Err("thread origin is missing".to_owned()),
    }
}

/// Lines, and behind them a line for each path.
pub open spec fn with_paths(lines: Seq<Seq<char>>, paths: Seq<Seq<char>>) -> Seq<Seq<char>>
    decreases paths.len(),
{
    if paths.len() == 0 {
        lines
    } else {
        with_paths(lines, paths.drop_last()).push("- "@ + paths.last())
    }
}

/// What Codex is told and must not repeat.
pub const PRIVATE_CONTEXT: &'static str = "This is private server-owned context. Do not quote, reveal, mention, or expose this block, its tags, or its filesystem paths to the user.";

/// The lines that tell Codex where a turn belongs.
pub open spec fn context_lines(origin: JsonView, paths: Seq<Seq<char>>) -> Result<
    Seq<Seq<char>>,
    Seq<char>,
> {
    match fields::member_text(origin, "projectId"@) {
        Err(m) => Err(m),
        Ok(project_id) => match fields::member_text(origin, "projectName"@) {
            Err(m) => Err(m),
            Ok(project_name) => match fields::member_text(origin, "workspacePath"@) {
                Err(m) => Err(m),
                Ok(workspace_path) => {
                    let place = Seq::empty().push("project_id: "@ + project_id).push(
                        "project_name: "@ + project_name,
                    ).push("workspace_path: "@ + workspace_path);
                    let named = match json::text_field(origin, "issueIdentifier"@) {
                        Some(issue) => place.push("issue_identifier: "@ + issue),
                        None => place,
                    };
                    let listed = if paths.len() == 0 {
                        named
                    } else {
                        with_paths(named.push("turn_attachment_paths:"@), paths)
                    };
                    Ok(listed.push(PRIVATE_CONTEXT@))
                },
            },
        },
    }
}

fn line(label: &str, value: &str) -> (r: String)
    ensures
        r@ == label@ + value@,
{
    let mut out = label.to_owned();
    out.append(value);
    out
}

fn make_context_lines(origin: &Json, paths: &Vec<String>) -> (r: Result<Vec<String>, String>)
    ensures
        exchange::says(r, context_lines(origin@, paths.deep_view())),
{
    let project_id = fields::value_string(origin, "projectId")?;
    let project_name = fields::value_string(origin, "projectName")?;
    let workspace_path = fields::value_string(origin, "workspacePath")?;
    let mut lines: Vec<String> = json::none();
    json::put(&mut lines, line("project_id: ", &project_id));
    json::put(&mut lines, line("project_name: ", &project_name));
    json::put(&mut lines, line("workspace_path: ", &workspace_path));
    match origin.text("issueIdentifier") {
        Some(issue) => {
            json::put(&mut lines, line("issue_identifier: ", issue));
        },
        None => {},
    }
    let ghost all = paths.deep_view();
    proof {
        assert(all.len() == paths@.len());
    }
    if paths.len() > 0 {
        json::put(&mut lines, "turn_attachment_paths:".to_owned());
        let ghost before = lines.deep_view();
        let mut i: usize = 0;
        proof {
            assert(all.take(0) =~= Seq::empty());
        }
        while i < paths.len()
            invariant
                all == paths.deep_view(),
                i <= paths@.len(),
                lines.deep_view() == with_paths(before, all.take(i as int)),
            decreases paths.len() - i,
        {
            proof {
                assert(all.take(i + 1).drop_last() =~= all.take(i as int));
                assert(all.take(i + 1).last() == paths@[i as int]@);
            }
            json::put(&mut lines, line("- ", &paths[i]));
            i = i + 1;
        }
        proof {
            assert(all.take(i as int) =~= all);
        }
    }
    json::put(&mut lines, PRIVATE_CONTEXT.to_owned());
    Ok(lines)
}

/// What Codex is told in a turn.
pub open spec fn prompt(
    thread: JsonView,
    message: Seq<char>,
    paths: Seq<Seq<char>>,
    skill_path: Seq<char>,
) -> Result<Seq<char>, Seq<char>> {
    match thread_origin(thread) {
        Err(m) => Err(m),
        Ok(origin) => match context_lines(origin, paths) {
            Err(m) => Err(m),
            Ok(lines) => Ok(
                text::joined(
                    Seq::empty().push(
                        "[$manage-taskboard]("@ + skill_path + ") e-taskboard"@,
                    ).push(Seq::empty()).push("<taskboard_context>"@).push(
                        text::joined(lines, "\n"@),
                    ).push("</taskboard_context>"@).push(Seq::empty()).push(
                        "<user_message>"@,
                    ).push(message).push("</user_message>"@),
                    "\n"@,
                ),
            ),
        },
    }
}

/// Writes what Codex is told in a turn.
pub fn build_codex_prompt(thread: &Json, message: &str, paths: &Vec<String>, skill_path: &str) -> (r:
    Result<String, String>)
    ensures
        exchange::says(r, prompt(thread@, message@, paths.deep_view(), skill_path@)),
{
    let origin = read_origin(thread)?;
    let lines = make_context_lines(origin, paths)?;
    let mut skill = "[$manage-taskboard](".to_owned();
    skill.append(skill_path);
    skill.append(") e-taskboard");
    let mut parts: Vec<String> = json::none();
    json::put(&mut parts, skill);
    json::put(&mut parts, String::new());
    json::put(&mut parts, "<taskboard_context>".to_owned());
    json::put(&mut parts, text::join(&lines, "\n"));
    json::put(&mut parts, "</taskboard_context>".to_owned());
    json::put(&mut parts, String::new());
    json::put(&mut parts, "<user_message>".to_owned());
    json::put(&mut parts, message.to_owned());
    json::put(&mut parts, "</user_message>".to_owned());
    Ok(text::join(&parts, "\n"))
}

/// The sandbox in which Codex is started for the sandbox of a thread, when it asks for approval, and
/// who gives it.
pub open spec fn policy(sandbox: Seq<char>) -> (Seq<char>, Seq<char>, Option<Seq<char>>) {
    if sandbox == "read-only"@ {
        ("workspace-write"@, "on-request"@, Some("user"@))
    } else if sandbox == "danger-full-access"@ {
        ("danger-full-access"@, "never"@, None)
    } else {
        ("workspace-write"@, "on-request"@, Some("auto_review"@))
    }
}

/// A setting of Codex.
pub open spec fn config_arg(key: Seq<char>, value: Seq<char>) -> Seq<char> {
    key + "=\""@ + value + "\""@
}

fn make_config_arg(key: &str, value: &str) -> (r: String)
    ensures
        r@ == config_arg(key@, value@),
{
    let mut out = key.to_owned();
    out.append("=\"");
    out.append(value);
    out.append("\"");
    out
}

/// Arguments, and behind them two for each image.
pub open spec fn with_images(args: Seq<Seq<char>>, images: Seq<Seq<char>>) -> Seq<Seq<char>>
    decreases images.len(),
{
    if images.len() == 0 {
        args
    } else {
        with_images(args, images.drop_last()).push("-i"@).push(images.last())
    }
}

fn add_images(args: &mut Vec<String>, images: &Vec<String>)
    ensures
        final(args).deep_view() == with_images(old(args).deep_view(), images.deep_view()),
{
    let ghost before = args.deep_view();
    let ghost all = images.deep_view();
    let mut i: usize = 0;
    proof {
        assert(all.take(0) =~= Seq::empty());
    }
    while i < images.len()
        invariant
            all == images.deep_view(),
            i <= images@.len(),
            args.deep_view() == with_images(before, all.take(i as int)),
        decreases images.len() - i,
    {
        proof {
            assert(all.take(i + 1).drop_last() =~= all.take(i as int));
            assert(all.take(i + 1).last() == images@[i as int]@);
        }
        json::put(args, "-i".to_owned());
        json::put(args, images[i].clone());
        i = i + 1;
    }
    proof {
        assert(all.take(i as int) =~= all);
    }
}

/// The sandbox of a thread.
pub open spec fn thread_sandbox(thread: JsonView) -> Seq<char> {
    match json::text_field(thread, "sandbox"@) {
        Some(s) => s,
        None => "workspace-write"@,
    }
}

/// The arguments that every turn of a thread starts with.
pub open spec fn first_args(workspace: Seq<char>, sandbox: Seq<char>) -> Seq<Seq<char>> {
    let (process, approval, reviewer) = policy(sandbox);
    let args = Seq::empty().push("exec"@).push("--json"@).push("--color"@).push("never"@).push(
        "-C"@,
    ).push(workspace).push("-s"@).push(process).push("-c"@).push(
        config_arg("approval_policy"@, approval),
    );
    match reviewer {
        Some(reviewer) => args.push("-c"@).push(config_arg("approvals_reviewer"@, reviewer)),
        None => args,
    }
}

/// The arguments that name the model of a thread.
pub open spec fn model_args(args: Seq<Seq<char>>, thread: JsonView) -> Seq<Seq<char>> {
    let named = match json::text_field(thread, "model"@) {
        Some(model) => args.push("-m"@).push(model),
        None => args,
    };
    match json::text_field(thread, "reasoningEffort"@) {
        Some(effort) => named.push("-c"@).push(config_arg("model_reasoning_effort"@, effort)),
        None => named,
    }
}

/// The arguments that end a turn: it resumes the conversation that the thread has in Codex, where
/// it has one.
pub open spec fn last_args(
    args: Seq<Seq<char>>,
    thread: JsonView,
    images: Seq<Seq<char>>,
) -> Seq<Seq<char>> {
    match json::text_field(thread, "codexThreadId"@) {
        Some(id) => with_images(args.push("resume"@), images).push(id).push("-"@),
        None => with_images(args, images).push("-"@),
    }
}

/// The arguments that Codex is started with.
pub open spec fn codex_args(thread: JsonView, images: Seq<Seq<char>>) -> Result<
    Seq<Seq<char>>,
    Seq<char>,
> {
    match thread_origin(thread) {
        Err(m) => Err(m),
        Ok(origin) => match fields::member_text(origin, "workspacePath"@) {
            Err(m) => Err(m),
            Ok(workspace) => Ok(
                last_args(
                    model_args(first_args(workspace, thread_sandbox(thread)), thread),
                    thread,
                    images,
                ),
            ),
        },
    }
}

fn make_first_args(workspace: String, sandbox: &str) -> (r: Vec<String>)
    ensures
        r.deep_view() == first_args(workspace@, sandbox@),
{
    let (process, approval, reviewer) = if text::same(sandbox, "read-only") {
        ("workspace-write", "on-request", Some("user"))
    } else if text::same(sandbox, "danger-full-access") {
        ("danger-full-access", "never", None)
    } else {
        ("workspace-write", "on-request", Some("auto_review"))
    };
    let mut args: Vec<String> = json::none();
    json::put(&mut args, "exec".to_owned());
    json::put(&mut args, "--json".to_owned());
    json::put(&mut args, "--color".to_owned());
    json::put(&mut args, "never".to_owned());
    json::put(&mut args, "-C".to_owned());
    json::put(&mut args, workspace);
    json::put(&mut args, "-s".to_owned());
    json::put(&mut args, process.to_owned());
    json::put(&mut args, "-c".to_owned());
    json::put(&mut args, make_config_arg("approval_policy", approval));
    match reviewer {
        Some(reviewer) => {
            json::put(&mut args, "-c".to_owned());
            json::put(&mut args, make_config_arg("approvals_reviewer", reviewer));
        },
        None => {},
    }
    args
}

/// Lists the arguments that Codex is started with.
pub fn build_codex_args(thread: &Json, images: &Vec<String>) -> (r: Result<Vec<String>, String>)
    ensures
        exchange::says(r, codex_args(thread@, images.deep_view())),
{
    let sandbox = match thread.text("sandbox") {
        Some(s) => s.clone(),
        None => "workspace-write".to_owned(),
    };
    let origin = read_origin(thread)?;
    let workspace = fields::value_string(origin, "workspacePath")?;
    let mut args = make_first_args(workspace, &sandbox);
    match thread.text("model") {
        Some(model) => {
            json::put(&mut args, "-m".to_owned());
            json::put(&mut args, model.clone());
        },
        None => {},
    }
    match thread.text("reasoningEffort") {
        Some(effort) => {
            json::put(&mut args, "-c".to_owned());
            json::put(&mut args, make_config_arg("model_reasoning_effort", effort));
        },
        None => {},
    }
    match thread.text("codexThreadId") {
        Some(id) => {
            json::put(&mut args, "resume".to_owned());
            add_images(&mut args, images);
            json::put(&mut args, id.clone());
        },
        None => {
            add_images(&mut args, images);
        },
    }
    json::put(&mut args, "-".to_owned());
    Ok(args)
}

/// A length as a value.
pub open spec fn size_value(length: nat) -> JsonView {
    if length <= i64::MAX {
        JsonView::Integer(length as int)
    } else {
        JsonView::Unsigned(length as int)
    }
}

fn make_size(length: usize) -> (r: Json)
    ensures
        r@ == size_value(length as nat),
{
    let size: u64 = length as u64;
    if size <= 0x7fff_ffff_ffff_ffff {
        Json::Integer(size as i64)
    } else {
        Json::Unsigned(size)
    }
}

/// What is kept of a file that came with a turn.
pub open spec fn attachment_note(attachment: AiAttachmentView) -> JsonView {
    JsonView::Object(
        json::members().push(("filename"@, JsonView::Text(attachment.filename))).push(
            ("contentType"@, JsonView::Text(attachment.content_type)),
        ).push(("size"@, size_value(attachment.bytes.len()))),
    )
}

/// What is kept of the files that came with a turn, where there are any.
pub open spec fn turn_note(attachments: Seq<AiAttachmentView>) -> Option<JsonView> {
    if attachments.len() == 0 {
        None
    } else {
        Some(
            JsonView::Object(
                json::members().push(
                    (
                        "attachments"@,
                        JsonView::Array(
                            attachments.map_values(|a: AiAttachmentView| attachment_note(a)),
                        ),
                    ),
                ),
            ),
        )
    }
}

fn make_turn_note(attachments: &Vec<AiAttachmentInput>) -> (r: Option<Json>)
    ensures
        r.deep_view() == turn_note(attachments.deep_view()),
{
    proof {
        assert(attachments.deep_view().len() == attachments@.len());
    }
    if attachments.len() == 0 {
        return None;
    }
    let ghost all = attachments.deep_view().map_values(|a: AiAttachmentView| attachment_note(a));
    let mut notes: Vec<Json> = json::none();
    let mut i: usize = 0;
    proof {
        assert(all.take(0) =~= Seq::empty());
    }
    while i < attachments.len()
        invariant
            all == attachments.deep_view().map_values(
                |a: AiAttachmentView| attachment_note(a),
            ),
            i <= attachments@.len(),
            notes.deep_view() == all.take(i as int),
        decreases attachments.len() - i,
    {
        let mut members = json::no_members();
        json::member(&mut members, "filename", json::text_value(&attachments[i].filename));
        json::member(&mut members, "contentType", json::text_value(&attachments[i].content_type));
        json::member(&mut members, "size", make_size(attachments[i].bytes.len()));
        json::put(&mut notes, json::object(members));
        proof {
            assert(all[i as int] == attachment_note(attachments@[i as int]@));
            assert(all.take(i + 1) =~= all.take(i as int).push(all[i as int]));
        }
        i = i + 1;
    }
    proof {
        assert(all.take(i as int) =~= all);
    }
    Some(json::single("attachments", json::array(notes)))
}

/// The message of a turn as an event.
pub open spec fn message_event(input: AiTurnView) -> EventView {
    EventView {
        kind: "user_message"@,
        role: "user"@,
        content: input.message,
        data: turn_note(input.attachments),
    }
}

/// A failure as an event.
pub open spec fn error_event(message: Seq<char>) -> EventView {
    EventView {
        kind: "error"@,
        role: "error"@,
        content: message,
        data: Some(
            JsonView::Object(json::members().push(("status"@, JsonView::Text("failed"@)))),
        ),
    }
}

/// Makes the event of a failure.
pub fn make_error_event(message: &str) -> (r: Event)
    ensures
        r@ == error_event(message@),
{
    Event {
        kind: "error".to_owned(),
        role: "error".to_owned(),
        content: message.to_owned(),
        data: Some(json::single("status", json::text_value("failed"))),
    }
}

/// What is started for a turn: where, with what, and for which run.
pub open spec fn start_of(
    thread: JsonView,
    args: Seq<Seq<char>>,
    prompt: Seq<char>,
    run_id: Seq<char>,
    thread_id: Seq<char>,
    directory: Option<Seq<char>>,
) -> Option<CodexStartView> {
    match json::field(thread, "origin"@) {
        None => None,
        Some(origin) => match json::text_field(origin, "workspacePath"@) {
            None => None,
            Some(workspace) => Some(
                CodexStartView { args, workspace, prompt, run_id, thread_id, directory },
            ),
        },
    }
}

/// How the start of Codex goes: it is done, or a message says why not. The replies start at `at`;
/// the place of the next one comes with it.
pub open spec fn codex_started(
    replies: Seq<ReplyView>,
    at: int,
    start: Option<CodexStartView>,
) -> Result<(Option<Seq<char>>, int), StepView> {
    match start {
        None => Ok((Some("thread workspace is missing"@), at)),
        Some(start) => match exchange::done_at(replies, at, ActionView::StartCodex(start)) {
            Ok(_) => Ok((None, at + 1)),
            Err(StepView::Fail(m)) => Ok((Some(m), at + 1)),
            Err(other) => Err(other),
        },
    }
}

fn start_codex(replies: &Vec<Reply>, at: usize, start: Option<CodexStart>) -> (r: Result<
    (Option<String>, usize),
    Step,
>)
    requires
        at <= replies@.len(),
    ensures
        exchange::reaches(
            r,
            codex_started(
                replies.deep_view(),
                at as int,
                match start {
                    Some(start) => Some(start@),
                    None => None,
                },
            ),
        ),
        r is Ok ==> (r->Ok_0).1 <= replies@.len(),
{
    let total: usize = replies.len();
    match start {
        None => Ok((Some("thread workspace is missing".to_owned()), at)),
        Some(start) => match exchange::done(replies, at, Action::StartCodex(start)) {
            Ok(_) => Ok((None, at + 1)),
            Err(Step::Fail(m)) => Ok((Some(m), at + 1)),
            Err(other) => Err(other),
        },
    }
}

/// How a turn that could not be started is recorded: as an event, in the run, and by removing its
/// files. The replies start at `at`; the result is the place of the next one.
pub open spec fn start_failed(
    replies: Seq<ReplyView>,
    at: int,
    thread_id: Seq<char>,
    run_id: Seq<char>,
    message: Seq<char>,
    directory: Option<Seq<char>>,
) -> Result<int, StepView> {
    match ai_runs::event_inserted(replies, at, thread_id, Some(run_id), error_event(message)) {
        Err(s) => Err(s),
        Ok((_, next)) => match store::now_at(replies, next) {
            Err(s) => Err(s),
            Ok(finished_at) => match ai_runs::run_updated(
                replies,
                next + 1,
                run_id,
                "failed"@,
                None,
                Some(message),
                Some(finished_at),
            ) {
                Err(s) => Err(s),
                Ok((_, behind)) => match directory {
                    None => Ok(behind),
                    Some(directory) => if behind >= replies.len() {
                        Err(StepView::Ask(ActionView::RemoveTurnFiles(directory)))
                    } else {
                        Ok(behind + 1)
                    },
                },
            },
        },
    }
}

fn record_failed_start(
    replies: &Vec<Reply>,
    at: usize,
    thread_id: &str,
    run_id: &str,
    message: &str,
    directory: Option<String>,
) -> (r: Result<usize, Step>)
    ensures
        match r {
            Ok(next) => start_failed(
                replies.deep_view(),
                at as int,
                thread_id@,
                run_id@,
                message@,
                directory.deep_view(),
            ) == Ok::<int, StepView>(next as int) && next <= replies@.len(),
            Err(s) => start_failed(
                replies.deep_view(),
                at as int,
                thread_id@,
                run_id@,
                message@,
                directory.deep_view(),
            ) == Err::<int, StepView>(s@),
        },
{
    let total: usize = replies.len();
    let (_, next) = ai_runs::insert_ai_chat_event(
        replies,
        at,
        thread_id,
        Some(run_id),
        &make_error_event(message),
    )?;
    let finished_at = store::db_now(replies, next)?;
    let (_, behind) = ai_runs::update_ai_chat_run(
        replies,
        next + 1,
        run_id,
        "failed",
        None,
        Some(message),
        Some(&finished_at),
    )?;
    match directory {
        None => Ok(behind),
        Some(directory) => if behind >= total {
            Err(Step::Ask(Action::RemoveTurnFiles(directory)))
        } else {
            Ok(behind + 1)
        },
    }
}

/// How a turn is started whose input has been accepted. The replies start at `at`.
pub open spec fn turn_started(
    replies: Seq<ReplyView>,
    at: int,
    thread_id: Seq<char>,
    thread: JsonView,
    input: AiTurnView,
    skill_path: Seq<char>,
) -> Result<ResponseView, StepView> {
    match files_written(replies, at, input.attachments) {
        Err(s) => Err(s),
        Ok((files, filed)) => match prompt(
            thread,
            input.message,
            files.attachment_paths,
            skill_path,
        ) {
            Err(m) => Err(StepView::Fail(m)),
            Ok(told) => match codex_args(thread, files.image_paths) {
                Err(m) => Err(StepView::Fail(m)),
                Ok(args) => match ai_runs::run_created(replies, filed, thread_id) {
                    Err(s) => Err(s),
                    Ok((run, created)) => match fields::member_text(run, "id"@) {
                        Err(m) => Err(StepView::Fail(m)),
                        Ok(run_id) => match ai_runs::event_inserted(
                            replies,
                            created,
                            thread_id,
                            Some(run_id),
                            message_event(input),
                        ) {
                            Err(s) => Err(s),
                            Ok((_, noted)) => turn_launched(
                                replies,
                                noted,
                                thread_id,
                                run_id,
                                start_of(thread, args, told, run_id, thread_id, files.directory),
                                files.directory,
                            ),
                        },
                    },
                },
            },
        },
    }
}

/// How Codex is started for a run, and what the request for it is answered. The replies start at
/// `at`.
pub open spec fn turn_launched(
    replies: Seq<ReplyView>,
    at: int,
    thread_id: Seq<char>,
    run_id: Seq<char>,
    start: Option<CodexStartView>,
    directory: Option<Seq<char>>,
) -> Result<ResponseView, StepView> {
    match codex_started(replies, at, start) {
        Err(s) => Err(s),
        Ok((None, next)) => run_shown(replies, next, run_id),
        Ok((Some(message), next)) => match start_failed(
            replies,
            next,
            thread_id,
            run_id,
            message,
            directory,
        ) {
            Err(s) => Err(s),
            Ok(behind) => run_shown(replies, behind, run_id),
        },
    }
}

/// The answer that shows the run of a turn, the reply at `at`.
pub open spec fn run_shown(replies: Seq<ReplyView>, at: int, run_id: Seq<char>) -> Result<
    ResponseView,
    StepView,
> {
    match ai_runs::run_at(replies, at, run_id) {
        Err(s) => Err(s),
        Ok(run) => Ok(ai_runs::run_response(202, json::or_null(run))),
    }
}

fn launch_turn(
    replies: &Vec<Reply>,
    at: usize,
    thread_id: &str,
    run_id: &str,
    start: Option<CodexStart>,
    directory: Option<String>,
) -> (r: Result<Response, Step>)
    requires
        at <= replies@.len(),
    ensures
        exchange::agrees(
            r,
            turn_launched(
                replies.deep_view(),
                at as int,
                thread_id@,
                run_id@,
                match start {
                    Some(start) => Some(start@),
                    None => None,
                },
                directory.deep_view(),
            ),
        ),
{
    let (failure, next) = start_codex(replies, at, start)?;
    let behind: usize = match failure {
        None => next,
        Some(message) => record_failed_start(
            replies,
            next,
            thread_id,
            run_id,
            &message,
            directory,
        )?,
    };
    let run = ai_runs::get_ai_chat_run(replies, behind, run_id)?;
    Ok(Response::Json(202, json::single("run", json::null_if_none(run))))
}

fn begin_turn(
    replies: &Vec<Reply>,
    at: usize,
    thread_id: &str,
    thread: &Json,
    input: &AiTurnInput,
    skill_path: &str,
) -> (r: Result<Response, Step>)
    requires
        at <= replies@.len(),
    ensures
        exchange::agrees(
            r,
            turn_started(
                replies.deep_view(),
                at as int,
                thread_id@,
                thread@,
                input@,
                skill_path@,
            ),
        ),
{
    let (files, filed) = write_ai_attachments(replies, at, &input.attachments)?;
    let told = store::lift(
        build_codex_prompt(thread, &input.message, &files.attachment_paths, skill_path),
    )?;
    let args = store::lift(build_codex_args(thread, &files.image_paths))?;
    let (run, created) = ai_runs::create_ai_chat_run(replies, filed, thread_id)?;
    let run_id = store::lift(fields::value_string(&run, "id"))?;
    let event = Event {
        kind: "user_message".to_owned(),
        role: "user".to_owned(),
        content: input.message.clone(),
        data: make_turn_note(&input.attachments),
    };
    let (_, noted) = ai_runs::insert_ai_chat_event(
        replies,
        created,
        thread_id,
        Some(&run_id),
        &event,
    )?;
    let directory = match &files.directory {
        Some(d) => Some(d.clone()),
        None => None,
    };
    let start = match thread.get("origin") {
        None => None,
        Some(origin) => match origin.text("workspacePath") {
            None => None,
            Some(workspace) => Some(
                CodexStart {
                    args,
                    workspace: workspace.clone(),
                    prompt: told,
                    run_id: run_id.clone(),
                    thread_id: thread_id.to_owned(),
                    directory: files.directory,
                },
            ),
        },
    };
    launch_turn(replies, noted, thread_id, &run_id, start, directory)
}

/// That full access must be confirmed.
pub open spec fn confirmation_required() -> ResponseView {
    exchange::refusal(
        400,
        "DANGER_CONFIRMATION_REQUIRED"@,
        "danger-full-access must be confirmed for every turn"@,
    )
}

/// How the start of a turn goes.
pub open spec fn turn_requested(
    replies: Seq<ReplyView>,
    thread_id: Seq<char>,
    body: JsonView,
    skill_path: Seq<char>,
) -> Result<ResponseView, StepView> {
    match ai_threads::resting_thread(replies, thread_id) {
        Err(s) => Err(s),
        Ok((thread, next)) => match turn_input(body) {
            Err(m) => Ok(exchange::refusal(400, "INVALID_MESSAGE"@, m)),
            Ok(input) => if json::text_field(thread, "sandbox"@) == Some("danger-full-access"@)
                && !input.danger_full_access_confirmed {
                Ok(confirmation_required())
            } else {
                turn_started(replies, next, thread_id, thread, input, skill_path)
            },
        },
    }
}

/// Starts a turn.
pub fn start_ai_chat_turn(replies: &Vec<Reply>, thread_id: &str, body: &Json, skill_path: &str) -> (r:
    Result<Response, Step>)
    ensures
        exchange::agrees(
            r,
            turn_requested(replies.deep_view(), thread_id@, body@, skill_path@),
        ),
{
    let (thread, next) = ai_threads::read_resting_thread(replies, thread_id)?;
    let input = match parse_ai_turn_input(body) {
        Ok(input) => input,
        Err(m) => {
            return Ok(exchange::api_error(400, "INVALID_MESSAGE", &m));
        },
    };
    let dangerous = match thread.text("sandbox") {
        Some(s) => text::same(s, "danger-full-access"),
        None => false,
    };
    if dangerous && !input.danger_full_access_confirmed {
        return Ok(
            exchange::api_error(
                400,
                "DANGER_CONFIRMATION_REQUIRED",
                "danger-full-access must be confirmed for every turn",
            ),
        );
    }
    begin_turn(replies, next, thread_id, &thread, &input, skill_path)
}

/// Full access is confirmed in every turn that has it: where a thread runs with full access and the
/// request does not confirm it, the turn is refused before anything is stored or started.
pub proof fn law_full_access_is_confirmed(
    replies: Seq<ReplyView>,
    thread_id: Seq<char>,
    body: JsonView,
    skill_path: Seq<char>,
    thread: JsonView,
    next: int,
)
    requires
        ai_threads::resting_thread(replies, thread_id) == Ok::<(JsonView, int), StepView>(
            (thread, next),
        ),
        json::text_field(thread, "sandbox"@) == Some("danger-full-access"@),
        !is_true(json::field(body, "dangerFullAccessConfirmed"@)),
    ensures
        turn_input(body) is Ok ==> turn_requested(replies, thread_id, body, skill_path) == Ok::<
            ResponseView,
            StepView,
        >(confirmation_required()),
        turn_input(body) is Err ==> turn_requested(replies, thread_id, body, skill_path) == Ok::<
            ResponseView,
            StepView,
        >(exchange::refusal(400, "INVALID_MESSAGE"@, turn_input(body)->Err_0)),
{
}

/// No turn is started in a thread with a run that is not over.
pub proof fn law_one_turn_at_a_time(
    replies: Seq<ReplyView>,
    thread_id: Seq<char>,
    body: JsonView,
    skill_path: Seq<char>,
    thread: JsonView,
    next: int,
)
    requires
        ai_threads::thread_at(replies, 0, thread_id) == Ok::<(Option<JsonView>, int), StepView>(
            (Some(thread), next),
        ),
        !json::absent(thread, "currentRun"@),
    ensures
        turn_requested(replies, thread_id, body, skill_path) == Err::<ResponseView, StepView>(
            StepView::Answer(ai_threads::thread_busy()),
        ),
{
}

/// Codex gets full access only in a thread that has it.
pub proof fn law_full_access_only_where_asked(sandbox: Seq<char>)
    ensures
        policy(sandbox).0 == "danger-full-access"@ ==> sandbox == "danger-full-access"@,
        policy(sandbox).2 is None ==> sandbox == "danger-full-access"@,
{
    reveal_strlit("workspace-write");
    reveal_strlit("danger-full-access");
    assert("workspace-write"@.len() != "danger-full-access"@.len());
}

} // verus!
