//! What Codex is handed when a turn is started.
use crate::ai_runs;
use crate::ai_threads;
use crate::ai_turns;
use crate::ai_turns::{AiAttachmentView, AiTurnView};
use crate::exchange::{ActionView, CodexStartView, ReplyView, ResponseView, StepView};
use crate::fields;
use crate::json;
use crate::json::JsonView;
use crate::text;
use vstd::prelude::*;

verus! {

/// Whether a content type is one of the four that Codex takes as images.
pub open spec fn is_picture(content_type: Seq<char>) -> bool {
    seq!["image/gif"@, "image/jpeg"@, "image/png"@, "image/webp"@].contains(content_type)
}

/// The files that the body of a request describes.
pub open spec fn sent_files(body: JsonView) -> Seq<JsonView> {
    match json::field(body, "attachments"@) {
        Some(JsonView::Array(values)) => values,
        _ => Seq::empty(),
    }
}

/// A text of a file that a request describes, without the white space around it.
pub open spec fn sent_text(file: JsonView, key: Seq<char>) -> Seq<char> {
    text::trimmed(json::text_field(file, key)->0)
}

/// The places of the images among the files that a request describes.
pub open spec fn picture_places(files: Seq<JsonView>) -> Seq<int> {
    Seq::new(files.len(), |i: int| i).filter(
        |i: int| is_picture(text::lowered(sent_text(files[i], "contentType"@))),
    )
}

/// Two arguments for each path: `-i`, and the path.
pub open spec fn picture_args(paths: Seq<Seq<char>>) -> Seq<Seq<char>> {
    Seq::new(
        (2 * paths.len()) as nat,
        |j: int|
            if j % 2 == 0 {
                "-i"@
            } else {
                paths[j / 2]
            },
    )
}

/// The message of a request, without the white space around it.
pub open spec fn sent_message(body: JsonView) -> Seq<char> {
    match json::field(body, "message"@) {
        Some(JsonView::Text(s)) => text::trimmed(s),
        _ => Seq::empty(),
    }
}

/// Of the files of a turn exactly those are images whose content type is one of four, in their order:
/// a path is among the images where its file is one, and there are as many images as such files.
pub proof fn law_images_are_of_four_types(
    attachments: Seq<AiAttachmentView>,
    paths: Seq<Seq<char>>,
)
    requires
        paths.len() == attachments.len(),
    ensures
        ({
            let places = Seq::new(attachments.len(), |i: int| i).filter(
                |i: int| is_picture(attachments[i].content_type),
            );
            &&& ai_turns::image_paths(attachments, paths) == places.map_values(|i: int| paths[i])
            &&& forall|i: int|
                0 <= i < attachments.len() && is_picture(attachments[i].content_type)
                    ==> ai_turns::image_paths(attachments, paths).contains(#[trigger] paths[i])
            &&& forall|p: Seq<char>| #[trigger]
                ai_turns::image_paths(attachments, paths).contains(p) ==> exists|i: int|
                    0 <= i < attachments.len() && paths[i] == p && #[trigger] is_picture(
                        attachments[i].content_type,
                    )
        }),
{
    lemma_images(attachments, paths);
    let n = attachments.len();
    let pred = |i: int| is_picture(attachments[i].content_type);
    let all = Seq::new(n, |i: int| i);
    let places = all.filter(pred);
    let images = ai_turns::image_paths(attachments, paths);
    lemma_filtered(all, pred);
    assert forall|i: int|
        0 <= i < n && is_picture(attachments[i].content_type) implies images.contains(
        #[trigger] paths[i],
    ) by {
        assert(all[i] == i);
        assert(all.contains(i));
        assert(places.contains(i));
        let k = choose|k: int| 0 <= k < places.len() && places[k] == i;
        assert(images[k] == paths[i]);
    }
    assert forall|p: Seq<char>| #[trigger] images.contains(p) implies exists|i: int|
        0 <= i < n && paths[i] == p && #[trigger] is_picture(attachments[i].content_type) by {
        let k = choose|k: int| 0 <= k < images.len() && images[k] == p;
        assert(places.contains(places[k]));
        assert(all.contains(places[k]));
        let i = places[k];
        assert(paths[i] == p && is_picture(attachments[i].content_type));
    }
}

proof fn lemma_filtered(s: Seq<int>, pred: spec_fn(int) -> bool)
    ensures
        forall|x: int| #[trigger] s.filter(pred).contains(x) <==> s.contains(x) && pred(x),
    decreases s.len(),
{
    reveal(Seq::filter);
    if s.len() > 0 {
        let less = s.drop_last();
        lemma_filtered(less, pred);
        assert forall|x: int| #[trigger] s.filter(pred).contains(x) <==> s.contains(x) && pred(
            x,
        ) by {
            assert(less.filter(pred).contains(x) <==> less.contains(x) && pred(x));
            if s.contains(x) {
                let k = choose|k: int| 0 <= k < s.len() && s[k] == x;
                if k < less.len() {
                    assert(less[k] == x);
                }
            }
            if less.contains(x) {
                let k = choose|k: int| 0 <= k < less.len() && less[k] == x;
                assert(s[k] == x);
            }
            assert(s[s.len() - 1] == s.last());
            if pred(s.last()) {
                let kept = less.filter(pred);
                let more = kept.push(s.last());
                assert(more[kept.len() as int] == s.last());
                if kept.contains(x) {
                    let k = choose|k: int| 0 <= k < kept.len() && kept[k] == x;
                    assert(more[k] == x);
                }
                if more.contains(x) {
                    let k = choose|k: int| 0 <= k < more.len() && more[k] == x;
                    if k < kept.len() {
                        assert(kept[k] == x);
                    }
                }
            }
        }
    }
}

proof fn lemma_images(attachments: Seq<AiAttachmentView>, paths: Seq<Seq<char>>)
    requires
        paths.len() >= attachments.len(),
    ensures
        ai_turns::image_paths(attachments, paths) == Seq::new(
            attachments.len(),
            |i: int| i,
        ).filter(|i: int| is_picture(attachments[i].content_type)).map_values(
            |i: int| paths[i],
        ),
    decreases attachments.len(),
{
    reveal(Seq::filter);
    let n = attachments.len();
    let pred = |i: int| is_picture(attachments[i].content_type);
    let all = Seq::new(n, |i: int| i);
    if n == 0 {
        assert(all =~= Seq::empty());
    } else {
        let less = attachments.drop_last();
        let fewer = Seq::new(less.len(), |i: int| i);
        let pred_less = |i: int| is_picture(less[i].content_type);
        lemma_images(less, paths);
        assert(all.drop_last() =~= fewer);
        lemma_filter_alike(fewer, pred, pred_less);
        let places = fewer.filter(pred);
        let types = seq!["image/gif"@, "image/jpeg"@, "image/png"@, "image/webp"@];
        let last = attachments.last().content_type;
        assert(types[0] == "image/gif"@ && types[1] == "image/jpeg"@ && types[2] == "image/png"@
            && types[3] == "image/webp"@);
        assert(is_picture(last) == ai_turns::is_image(last));
        assert(all.last() == n - 1);
        if ai_turns::is_image(last) {
            assert(all.filter(pred) == places.push(n - 1));
            assert(places.push(n - 1).map_values(|i: int| paths[i]) =~= places.map_values(
                |i: int| paths[i],
            ).push(paths[n - 1]));
        }
    }
}

proof fn lemma_filter_alike(s: Seq<int>, a: spec_fn(int) -> bool, b: spec_fn(int) -> bool)
    requires
        forall|k: int| 0 <= k < s.len() ==> a(#[trigger] s[k]) == b(s[k]),
    ensures
        s.filter(a) == s.filter(b),
    decreases s.len(),
{
    reveal(Seq::filter);
    if s.len() > 0 {
        assert forall|k: int| 0 <= k < s.drop_last().len() implies a(#[trigger] s.drop_last()[k])
            == b(s.drop_last()[k]) by {
            assert(s.drop_last()[k] == s[k]);
        }
        lemma_filter_alike(s.drop_last(), a, b);
        assert(a(s[s.len() - 1]) == b(s[s.len() - 1]));
    }
}

proof fn lemma_with_images(args: Seq<Seq<char>>, images: Seq<Seq<char>>)
    ensures
        ai_turns::with_images(args, images) == args + picture_args(images),
    decreases images.len(),
{
    if images.len() == 0 {
        assert(args + picture_args(images) =~= args);
    } else {
        let less = images.drop_last();
        lemma_with_images(args, less);
        let n = less.len();
        assert(picture_args(images) =~= picture_args(less).push("-i"@).push(images.last())) by {
            let whole = picture_args(images);
            let more = picture_args(less).push("-i"@).push(images.last());
            assert forall|j: int| 0 <= j < whole.len() implies whole[j] == more[j] by {
                if j < 2 * n {
                    assert(j / 2 < n);
                    assert(images[j / 2] == less[j / 2]);
                }
            }
        }
        assert(args + picture_args(images) =~= (args + picture_args(less)).push("-i"@).push(
            images.last(),
        ));
    }
}

/// Codex is handed a path as an image by two arguments, in the order of the paths, before the last
/// argument, or before the last two where a conversation is resumed. The other arguments are those of
/// a turn without images, and the last one tells Codex to read the prompt from its input.
pub proof fn law_arguments_hand_over_images(thread: JsonView, images: Seq<Seq<char>>)
    requires
        ai_turns::codex_args(thread, images) is Ok,
    ensures
        ({
            let plain = ai_turns::codex_args(thread, Seq::empty());
            let k = plain->Ok_0.len() - (if json::text_field(thread, "codexThreadId"@) is Some {
                2int
            } else {
                1
            });
            &&& plain is Ok
            &&& plain->Ok_0.last() == "-"@
            &&& k > 0
            &&& json::text_field(thread, "codexThreadId"@) is Some ==> plain->Ok_0[k - 1]
                == "resume"@ && plain->Ok_0[k] == json::text_field(thread, "codexThreadId"@)->0
            &&& ai_turns::codex_args(thread, images)->Ok_0 == plain->Ok_0.take(k) + picture_args(
                images,
            ) + plain->Ok_0.skip(k)
        }),
{
    let none = Seq::<Seq<char>>::empty();
    let plain = ai_turns::codex_args(thread, none)->Ok_0;
    let whole = ai_turns::codex_args(thread, images)->Ok_0;
    let origin = ai_turns::thread_origin(thread)->Ok_0;
    let workspace = fields::member_text(origin, "workspacePath"@)->Ok_0;
    let args = ai_turns::model_args(
        ai_turns::first_args(workspace, ai_turns::thread_sandbox(thread)),
        thread,
    );
    match json::text_field(thread, "codexThreadId"@) {
        Some(id) => {
            let head = args.push("resume"@);
            lemma_with_images(head, images);
            lemma_with_images(head, none);
            assert(plain =~= head.push(id).push("-"@));
            let k = plain.len() - 2;
            assert(plain.take(k) =~= head);
            assert(plain.skip(k) =~= seq![id, "-"@]);
            assert(whole =~= head + picture_args(images) + seq![id, "-"@]);
        },
        None => {
            lemma_with_images(args, images);
            lemma_with_images(args, none);
            assert(plain =~= args.push("-"@));
            let k = plain.len() - 1;
            assert(plain.take(k) =~= args);
            assert(plain.skip(k) =~= seq!["-"@]);
            assert(whole =~= args + picture_args(images) + seq!["-"@]);
        },
    }
}

/// Whether a file is read as the body of a request describes it.
pub open spec fn is_read_as_sent(read: AiAttachmentView, file: JsonView) -> bool {
    &&& json::text_field(file, "filename"@) is Some
    &&& json::text_field(file, "contentType"@) is Some
    &&& read.filename == sent_text(file, "filename"@)
    &&& read.content_type == text::lowered(sent_text(file, "contentType"@))
}

proof fn lemma_inputs_are_sent(values: Seq<JsonView>)
    requires
        ai_turns::attachment_inputs(values) is Ok,
    ensures
        ai_turns::attachment_inputs(values)->Ok_0.len() == values.len(),
        forall|i: int|
            0 <= i < values.len() ==> is_read_as_sent(
                #[trigger] ai_turns::attachment_inputs(values)->Ok_0[i],
                values[i],
            ),
    decreases values.len(),
{
    if values.len() > 0 {
        let less = values.drop_last();
        lemma_inputs_are_sent(less);
        let all = ai_turns::attachment_inputs(values)->Ok_0;
        let fewer = ai_turns::attachment_inputs(less)->Ok_0;
        assert forall|i: int| 0 <= i < values.len() implies is_read_as_sent(
            #[trigger] all[i],
            values[i],
        ) by {
            if i < less.len() {
                assert(all[i] == fewer[i]);
                assert(values[i] == less[i]);
            }
        }
    }
}

/// What a request asks of a turn is what it sends: its message, and its files in their order, each
/// under its name and with its content type in lower case.
pub proof fn law_turn_is_read_as_sent(body: JsonView)
    requires
        ai_turns::turn_input(body) is Ok,
    ensures
        ({
            let input = ai_turns::turn_input(body)->Ok_0;
            &&& input.message == sent_message(body)
            &&& input.attachments.len() == sent_files(body).len()
            &&& forall|i: int|
                0 <= i < input.attachments.len() ==> is_read_as_sent(
                    #[trigger] input.attachments[i],
                    sent_files(body)[i],
                )
            &&& input.danger_full_access_confirmed == (json::field(
                body,
                "dangerFullAccessConfirmed"@,
            ) == Some(JsonView::Bool(true)))
        }),
{
    match json::field(body, "attachments"@) {
        Some(JsonView::Array(values)) => {
            lemma_inputs_are_sent(values);
        },
        _ => {},
    }
}

proof fn lemma_last_joined(parts: Seq<Seq<char>>, a: Seq<char>, b: Seq<char>, c: Seq<char>)
    requires
        parts.len() > 0,
    ensures
        text::joined(parts.push(a).push(b).push(c), "\n"@) == text::joined(parts, "\n"@) + ("\n"@
            + a + "\n"@) + b + ("\n"@ + c),
{
    let one = parts.push(a);
    let two = one.push(b);
    let three = two.push(c);
    assert(three.drop_last() =~= two);
    assert(two.drop_last() =~= one);
    assert(one.drop_last() =~= parts);
    assert(text::joined(one, "\n"@) == text::joined(parts, "\n"@) + "\n"@ + a);
    assert(text::joined(two, "\n"@) == text::joined(one, "\n"@) + "\n"@ + b);
    assert(text::joined(three, "\n"@) == text::joined(two, "\n"@) + "\n"@ + c);
    assert(text::joined(three, "\n"@) =~= text::joined(parts, "\n"@) + ("\n"@ + a + "\n"@) + b + (
    "\n"@ + c));
}

/// Whatever Codex is told in a turn ends with the message, marked as that of the user.
pub proof fn law_prompt_ends_with_the_message(
    thread: JsonView,
    message: Seq<char>,
    paths: Seq<Seq<char>>,
    skill_path: Seq<char>,
)
    requires
        ai_turns::prompt(thread, message, paths, skill_path) is Ok,
    ensures
        text::has_suffix(
            ai_turns::prompt(thread, message, paths, skill_path)->Ok_0,
            ("\n"@ + "<user_message>"@ + "\n"@) + message + ("\n"@ + "</user_message>"@),
        ),
{
    let lines = ai_turns::context_lines(ai_turns::thread_origin(thread)->Ok_0, paths)->Ok_0;
    let parts = Seq::empty().push("[$manage-taskboard]("@ + skill_path + ") e-taskboard"@).push(
        Seq::empty(),
    ).push("<taskboard_context>"@).push(text::joined(lines, "\n"@)).push(
        "</taskboard_context>"@,
    ).push(Seq::empty());
    lemma_last_joined(parts, "<user_message>"@, message, "</user_message>"@);
    let whole = ai_turns::prompt(thread, message, paths, skill_path)->Ok_0;
    let end = ("\n"@ + "<user_message>"@ + "\n"@) + message + ("\n"@ + "</user_message>"@);
    assert(whole =~= text::joined(parts, "\n"@) + end);
    assert(whole.skip(whole.len() - end.len()) =~= end);
}

/// The paths under which the files of a turn are stored, which the reply behind `next` tells.
pub open spec fn stored_paths(replies: Seq<ReplyView>, next: int, body: JsonView) -> Seq<Seq<char>> {
    if sent_files(body).len() == 0 {
        Seq::empty()
    } else {
        replies[next + 1]->Stored_1
    }
}

proof fn lemma_files_are_written(
    replies: Seq<ReplyView>,
    next: int,
    body: JsonView,
    attachments: Seq<AiAttachmentView>,
)
    requires
        attachments.len() == sent_files(body).len(),
        ai_turns::files_written(replies, next, attachments) is Ok,
    ensures
        ({
            let files = (ai_turns::files_written(replies, next, attachments)->Ok_0).0;
            let paths = stored_paths(replies, next, body);
            &&& paths.len() == attachments.len()
            &&& files.attachment_paths == paths
            &&& files.image_paths == ai_turns::image_paths(attachments, paths)
        }),
{
}

proof fn lemma_start_is_asked_once(
    replies: Seq<ReplyView>,
    at: int,
    thread_id: Seq<char>,
    run_id: Seq<char>,
    launched: Option<CodexStartView>,
    directory: Option<Seq<char>>,
    start: CodexStartView,
)
    requires
        ai_turns::turn_launched(replies, at, thread_id, run_id, launched, directory) == Err::<
            ResponseView,
            StepView,
        >(StepView::Ask(ActionView::StartCodex(start))),
    ensures
        launched == Some(start),
{
}

proof fn lemma_start_is_launched(
    replies: Seq<ReplyView>,
    at: int,
    thread_id: Seq<char>,
    thread: JsonView,
    input: AiTurnView,
    skill_path: Seq<char>,
    start: CodexStartView,
)
    requires
        ai_turns::turn_started(replies, at, thread_id, thread, input, skill_path) == Err::<
            ResponseView,
            StepView,
        >(StepView::Ask(ActionView::StartCodex(start))),
    ensures
        ({
            let written = ai_turns::files_written(replies, at, input.attachments);
            let files = (written->Ok_0).0;
            let told = ai_turns::prompt(
                thread,
                input.message,
                files.attachment_paths,
                skill_path,
            );
            let args = ai_turns::codex_args(thread, files.image_paths);
            &&& written is Ok
            &&& told is Ok
            &&& args is Ok
            &&& start.prompt == told->Ok_0
            &&& start.args == args->Ok_0
            &&& start.thread_id == thread_id
            &&& start.directory == files.directory
            &&& ({
                let run = ai_runs::run_created(replies, (written->Ok_0).1, thread_id);
                run is Ok && json::text_field((run->Ok_0).0, "id"@) == Some(start.run_id)
            })
            &&& json::field(thread, "origin"@) is Some
            &&& json::text_field(json::field(thread, "origin"@)->0, "workspacePath"@) == Some(
                start.workspace,
            )
        }),
{
    let (files, filed) = ai_turns::files_written(replies, at, input.attachments)->Ok_0;
    let told = ai_turns::prompt(
        thread,
        input.message,
        files.attachment_paths,
        skill_path,
    )->Ok_0;
    let args = ai_turns::codex_args(thread, files.image_paths)->Ok_0;
    let (run, created) = ai_runs::run_created(replies, filed, thread_id)->Ok_0;
    let run_id = fields::member_text(run, "id"@)->Ok_0;
    let (_, noted) = ai_runs::event_inserted(
        replies,
        created,
        thread_id,
        Some(run_id),
        ai_turns::message_event(input),
    )->Ok_0;
    let launched = ai_turns::start_of(thread, args, told, run_id, thread_id, files.directory);
    lemma_start_is_asked_once(
        replies,
        noted,
        thread_id,
        run_id,
        launched,
        files.directory,
        start,
    );
}

proof fn lemma_joined_holds(parts: Seq<Seq<char>>, i: int)
    requires
        0 <= i < parts.len(),
    ensures
        text::holds(text::joined(parts, "\n"@), parts[i]),
    decreases parts.len(),
{
    let whole = text::joined(parts, "\n"@);
    if parts.len() == 1 {
        assert(whole.subrange(0, whole.len() as int) =~= whole);
        assert(whole.subrange(0int, 0int + parts[i].len()) == parts[i]);
    } else {
        let start = text::joined(parts.drop_last(), "\n"@);
        let last = parts.last();
        if i == parts.len() - 1 {
            let at = whole.len() - last.len();
            assert(whole.subrange(at, at + last.len()) =~= last);
        } else {
            lemma_joined_holds(parts.drop_last(), i);
            let block = parts[i];
            let at = choose|at: int|
                0 <= at <= start.len() - block.len() && #[trigger] start.subrange(
                    at,
                    at + block.len(),
                ) == block;
            assert(whole.subrange(at, at + block.len()) =~= start.subrange(
                at,
                at + block.len(),
            ));
        }
    }
}

proof fn lemma_holds_within(s: Seq<char>, part: Seq<char>, block: Seq<char>)
    requires
        text::holds(s, part),
        text::holds(part, block),
    ensures
        text::holds(s, block),
{
    let i = choose|i: int|
        0 <= i <= s.len() - part.len() && #[trigger] s.subrange(i, i + part.len()) == part;
    let j = choose|j: int|
        0 <= j <= part.len() - block.len() && #[trigger] part.subrange(j, j + block.len())
            == block;
    assert(s.subrange(i + j, i + j + block.len()) =~= part.subrange(j, j + block.len()));
}

proof fn lemma_with_paths(lines: Seq<Seq<char>>, paths: Seq<Seq<char>>)
    ensures
        ai_turns::with_paths(lines, paths) == lines + Seq::new(
            paths.len(),
            |i: int| "- "@ + paths[i],
        ),
    decreases paths.len(),
{
    if paths.len() > 0 {
        let less = paths.drop_last();
        lemma_with_paths(lines, less);
        assert(ai_turns::with_paths(lines, paths) =~= lines + Seq::new(
            paths.len(),
            |i: int| "- "@ + paths[i],
        ));
    } else {
        assert(lines + Seq::new(paths.len(), |i: int| "- "@ + paths[i]) =~= lines);
    }
}

/// Codex is told where a turn belongs: the project by its identifier and its name, the workspace, the
/// task where the thread started from one, and the path of every file that came with the turn.
pub proof fn law_prompt_tells_where_the_turn_belongs(
    thread: JsonView,
    message: Seq<char>,
    paths: Seq<Seq<char>>,
    skill_path: Seq<char>,
)
    requires
        ai_turns::prompt(thread, message, paths, skill_path) is Ok,
    ensures
        ({
            let told = ai_turns::prompt(thread, message, paths, skill_path)->Ok_0;
            let origin = json::field(thread, "origin"@)->0;
            &&& json::text_field(origin, "projectId"@) is Some && text::holds(
                told,
                "project_id: "@ + json::text_field(origin, "projectId"@)->0,
            )
            &&& json::text_field(origin, "projectName"@) is Some && text::holds(
                told,
                "project_name: "@ + json::text_field(origin, "projectName"@)->0,
            )
            &&& json::text_field(origin, "workspacePath"@) is Some && text::holds(
                told,
                "workspace_path: "@ + json::text_field(origin, "workspacePath"@)->0,
            )
            &&& json::text_field(origin, "issueIdentifier"@) is Some ==> text::holds(
                told,
                "issue_identifier: "@ + json::text_field(origin, "issueIdentifier"@)->0,
            )
            &&& forall|i: int|
                0 <= i < paths.len() ==> text::holds(told, "- "@ + #[trigger] paths[i])
            &&& text::holds(told, "[$manage-taskboard]("@ + skill_path + ") e-taskboard"@)
        }),
{
    let told = ai_turns::prompt(thread, message, paths, skill_path)->Ok_0;
    let origin = json::field(thread, "origin"@)->0;
    let lines = ai_turns::context_lines(origin, paths)->Ok_0;
    let context = text::joined(lines, "\n"@);
    let parts = Seq::empty().push("[$manage-taskboard]("@ + skill_path + ") e-taskboard"@).push(
        Seq::empty(),
    ).push("<taskboard_context>"@).push(context).push("</taskboard_context>"@).push(
        Seq::empty(),
    ).push("<user_message>"@).push(message).push("</user_message>"@);
    assert(told == text::joined(parts, "\n"@));
    lemma_joined_holds(parts, 0);
    lemma_joined_holds(parts, 3);
    let place = Seq::empty().push("project_id: "@ + json::text_field(origin, "projectId"@)->0).push(
        "project_name: "@ + json::text_field(origin, "projectName"@)->0,
    ).push("workspace_path: "@ + json::text_field(origin, "workspacePath"@)->0);
    let named = match json::text_field(origin, "issueIdentifier"@) {
        Some(issue) => place.push("issue_identifier: "@ + issue),
        None => place,
    };
    lemma_with_paths(named.push("turn_attachment_paths:"@), paths);
    assert(lines.len() > named.len());
    assert forall|i: int| 0 <= i < named.len() implies lines[i] == #[trigger] named[i] by {
    }
    assert forall|i: int| 0 <= i < lines.len() implies text::holds(told, #[trigger] lines[i]) by {
        lemma_joined_holds(lines, i);
        lemma_holds_within(told, context, lines[i]);
    }
    assert(lines[0] == named[0] && lines[1] == named[1] && lines[2] == named[2]);
    if named.len() == 4 {
        assert(lines[3] == named[3]);
    }
    assert forall|i: int| 0 <= i < paths.len() implies text::holds(
        told,
        "- "@ + #[trigger] paths[i],
    ) by {
        let at = named.len() + 1 + i;
        assert(lines[at] == "- "@ + paths[i]);
    }
}

/// Whenever Codex is started for a turn, it is handed what the request sent. Behind `-i` stand, in
/// their order, exactly the stored paths of the files whose content type is one of the four of images;
/// the other arguments are those of a turn without images. The prompt ends with the message, and names
/// the path of every file. Codex works in the workspace of the thread, for the run that was created for
/// the turn.
pub proof fn law_started_turn_hands_over_what_was_sent(
    replies: Seq<ReplyView>,
    thread_id: Seq<char>,
    body: JsonView,
    skill_path: Seq<char>,
    start: CodexStartView,
)
    requires
        ai_turns::turn_requested(replies, thread_id, body, skill_path) == Err::<
            ResponseView,
            StepView,
        >(StepView::Ask(ActionView::StartCodex(start))),
    ensures
        ({
            let rested = ai_threads::resting_thread(replies, thread_id);
            let (thread, next) = rested->Ok_0;
            let paths = stored_paths(replies, next, body);
            let images = picture_places(sent_files(body)).map_values(|i: int| paths[i]);
            let plain = ai_turns::codex_args(thread, Seq::empty())->Ok_0;
            let k = plain.len() - (if json::text_field(thread, "codexThreadId"@) is Some {
                2int
            } else {
                1
            });
            &&& rested is Ok
            &&& paths.len() == sent_files(body).len()
            &&& k > 0
            &&& start.args == plain.take(k) + picture_args(images) + plain.skip(k)
            &&& text::has_suffix(
                start.prompt,
                ("\n"@ + "<user_message>"@ + "\n"@) + sent_message(body) + ("\n"@
                    + "</user_message>"@),
            )
            &&& forall|i: int|
                0 <= i < paths.len() ==> text::holds(start.prompt, "- "@ + #[trigger] paths[i])
            &&& start.thread_id == thread_id
            &&& sent_files(body).len() == 0 ==> start.directory is None
            &&& sent_files(body).len() > 0 ==> start.directory == Some(replies[next + 1]->Stored_0)
            &&& ({
                let from = next + if sent_files(body).len() == 0 {
                    0int
                } else {
                    2
                };
                let run = ai_runs::run_created(replies, from, thread_id);
                run is Ok && json::text_field((run->Ok_0).0, "id"@) == Some(start.run_id)
            })
            &&& json::text_field(json::field(thread, "origin"@)->0, "workspacePath"@) == Some(
                start.workspace,
            )
            &&& json::text_field(thread, "sandbox"@) == Some("danger-full-access"@) ==> json::field(
                body,
                "dangerFullAccessConfirmed"@,
            ) == Some(JsonView::Bool(true))
        }),
{
    let (thread, next) = ai_threads::resting_thread(replies, thread_id)->Ok_0;
    let input = ai_turns::turn_input(body)->Ok_0;
    let paths = stored_paths(replies, next, body);
    law_turn_is_read_as_sent(body);
    lemma_start_is_launched(replies, next, thread_id, thread, input, skill_path, start);
    lemma_files_are_written(replies, next, body, input.attachments);
    lemma_images(input.attachments, paths);
    let all = Seq::new(input.attachments.len(), |i: int| i);
    let read = |i: int| is_picture(input.attachments[i].content_type);
    let sent = |i: int|
        is_picture(text::lowered(sent_text(sent_files(body)[i], "contentType"@)));
    assert forall|k: int| 0 <= k < all.len() implies read(#[trigger] all[k]) == sent(all[k]) by {
        assert(is_read_as_sent(input.attachments[k], sent_files(body)[k]));
    }
    lemma_filter_alike(all, read, sent);
    let images = ai_turns::image_paths(input.attachments, paths);
    assert(images == picture_places(sent_files(body)).map_values(|i: int| paths[i]));
    law_arguments_hand_over_images(thread, images);
    law_prompt_ends_with_the_message(thread, input.message, paths, skill_path);
    law_prompt_tells_where_the_turn_belongs(thread, input.message, paths, skill_path);
}

} // verus!
