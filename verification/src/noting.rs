//! What is noted of a turn: its message, its files, and how it ends.
use crate::ai_runs;
use crate::ai_runs::EventView;
use crate::ai_turns;
use crate::ai_turns::AiAttachmentView;
use crate::codex;
use crate::codex::{ClosingStepView, ClosingView, OutcomeView};
use crate::encoding;
use crate::exchange::{ActionView, ReplyView, ResponseView, SqlView, StatementView, StepView};
use crate::json;
use crate::json::JsonView;
use crate::recording;
use crate::starting;
use crate::store;
use crate::text;
use vstd::prelude::*;

verus! {

/// Whether a file is taken from what a body describes: by its name, and with the bytes that its text
/// stands for.
pub open spec fn is_taken(read: AiAttachmentView, file: JsonView) -> bool {
    &&& starting::is_read_as_sent(read, file)
    &&& json::text_field(file, "dataBase64"@) is Some
    &&& encoding::base64_bytes(starting::sent_text(file, "dataBase64"@)) == Ok::<
        Seq<u8>,
        Seq<char>,
    >(read.bytes)
    &&& read.bytes.len() > 0
}

proof fn lemma_files_are_taken(values: Seq<JsonView>)
    requires
        ai_turns::attachment_inputs(values) is Ok,
    ensures
        ai_turns::attachment_inputs(values)->Ok_0.len() == values.len(),
        forall|i: int|
            0 <= i < values.len() ==> is_taken(
                #[trigger] ai_turns::attachment_inputs(values)->Ok_0[i],
                values[i],
            ),
    decreases values.len(),
{
    if values.len() > 0 {
        let less = values.drop_last();
        lemma_files_are_taken(less);
        let all = ai_turns::attachment_inputs(values)->Ok_0;
        let fewer = ai_turns::attachment_inputs(less)->Ok_0;
        assert forall|i: int| 0 <= i < values.len() implies is_taken(
            #[trigger] all[i],
            values[i],
        ) by {
            if i < less.len() {
                assert(all[i] == fewer[i]);
                assert(values[i] == less[i]);
            }
        }
    }
}

/// The files of a turn are the ones that the body describes, at most eight of them, in their order.
pub proof fn law_files_are_taken_as_sent(body: JsonView)
    requires
        ai_turns::turn_input(body) is Ok,
    ensures
        ({
            let files = ai_turns::turn_input(body)->Ok_0.attachments;
            &&& files.len() == starting::sent_files(body).len()
            &&& files.len() <= 8
            &&& forall|i: int|
                0 <= i < files.len() ==> is_taken(
                    #[trigger] files[i],
                    starting::sent_files(body)[i],
                )
        }),
{
    match json::field(body, "attachments"@) {
        Some(JsonView::Array(values)) => {
            lemma_files_are_taken(values);
        },
        _ => {},
    }
}

/// The files of a turn are stored in a directory of their own, in their order, each with its bytes
/// and under its number and its name.
pub proof fn law_files_are_stored_as_sent(
    replies: Seq<ReplyView>,
    at: int,
    attachments: Seq<AiAttachmentView>,
    directory: Seq<char>,
    files: Seq<(Seq<char>, Seq<u8>)>,
)
    requires
        0 <= at,
        ai_turns::files_written(replies, at, attachments) == Err::<
            (ai_turns::WrittenView, int),
            StepView,
        >(StepView::Ask(ActionView::StoreTurnFiles(directory, files))),
    ensures
        at < replies.len() && replies[at] is Text,
        directory == "codex-taskboard-ai-turn-"@ + replies[at]->Text_0,
        files.len() == attachments.len(),
        forall|i: int|
            0 <= i < files.len() ==> (#[trigger] files[i]).1 == attachments[i].bytes && files[i].0
                == "attachment-"@ + text::decimal((i + 1) as nat) + "-"@ + attachments[i].filename,
{
}

/// The message of a turn is noted as what the user said, with the name, the content type and the
/// number of bytes of each of its files, in their order.
pub proof fn law_message_is_noted_as_sent(body: JsonView)
    requires
        ai_turns::turn_input(body) is Ok,
    ensures
        ({
            let input = ai_turns::turn_input(body)->Ok_0;
            let event = ai_turns::message_event(input);
            let files = starting::sent_files(body);
            let noted = json::field(event.data->0, "attachments"@);
            &&& event.kind == "user_message"@
            &&& event.role == "user"@
            &&& event.content == starting::sent_message(body)
            &&& event.data is None <==> files.len() == 0
            &&& files.len() > 0 ==> noted is Some && noted->0 is Array && noted->0->Array_0.len()
                == files.len() && forall|i: int|
                0 <= i < files.len() ==> is_noted(
                    #[trigger] noted->0->Array_0[i],
                    input.attachments[i],
                )
        }),
{
    starting::law_turn_is_read_as_sent(body);
    let input = ai_turns::turn_input(body)->Ok_0;
    if input.attachments.len() > 0 {
        let notes = input.attachments.map_values(
            |a: AiAttachmentView| ai_turns::attachment_note(a),
        );
        let members = json::members().push(("attachments"@, JsonView::Array(notes)));
        json::lemma_lookup(members, "attachments"@, 0);
        assert forall|i: int| 0 <= i < notes.len() implies is_noted(
            #[trigger] notes[i],
            input.attachments[i],
        ) by {
            lemma_noted(input.attachments[i]);
        }
    }
}

/// Whether a note says of a file what it is.
pub open spec fn is_noted(note: JsonView, file: AiAttachmentView) -> bool {
    &&& json::text_field(note, "filename"@) == Some(file.filename)
    &&& json::text_field(note, "contentType"@) == Some(file.content_type)
    &&& file.bytes.len() <= i64::MAX ==> json::field(note, "size"@) == Some(
        JsonView::Integer(file.bytes.len() as int),
    )
}

proof fn lemma_noted(file: AiAttachmentView)
    ensures
        is_noted(ai_turns::attachment_note(file), file),
{
    reveal_strlit("filename");
    reveal_strlit("contentType");
    reveal_strlit("size");
    assert("filename"@.len() == 8 && "contentType"@.len() == 11 && "size"@.len() == 4);
    let members = ai_turns::attachment_note(file)->Object_0;
    json::lemma_lookup(members, "filename"@, 0);
    json::lemma_lookup(members, "contentType"@, 1);
    json::lemma_lookup(members, "size"@, 2);
}

/// The arguments that the sandbox of a thread stands for: full access is given only where it is
/// named, and then nothing is asked; else Codex may write in the workspace and asks, the user where
/// the thread only reads, and a review else.
pub open spec fn sandbox_args(sandbox: Option<Seq<char>>) -> Seq<Seq<char>> {
    if sandbox == Some("danger-full-access"@) {
        seq!["-s"@, "danger-full-access"@, "-c"@, "approval_policy=\"never\""@]
    } else if sandbox == Some("read-only"@) {
        seq![
            "-s"@,
            "workspace-write"@,
            "-c"@,
            "approval_policy=\"on-request\""@,
            "-c"@,
            "approvals_reviewer=\"user\""@,
        ]
    } else {
        seq![
            "-s"@,
            "workspace-write"@,
            "-c"@,
            "approval_policy=\"on-request\""@,
            "-c"@,
            "approvals_reviewer=\"auto_review\""@,
        ]
    }
}

/// The arguments that name a model and an effort.
pub open spec fn choice_args(model: Option<Seq<char>>, effort: Option<Seq<char>>) -> Seq<Seq<char>> {
    (match model {
        Some(m) => seq!["-m"@, m],
        None => Seq::empty(),
    }) + (match effort {
        Some(e) => seq!["-c"@, "model_reasoning_effort=\""@ + e + "\""@],
        None => Seq::empty(),
    })
}

/// The arguments that end a turn without images.
pub open spec fn end_args(conversation: Option<Seq<char>>) -> Seq<Seq<char>> {
    match conversation {
        Some(id) => seq!["resume"@, id, "-"@],
        None => seq!["-"@],
    }
}

/// Codex is started by what the thread says: in its workspace, in its sandbox, with its model and its
/// effort, and to go on with its conversation where there is one.
#[verifier::spinoff_prover]
pub proof fn law_arguments_follow_the_thread(thread: JsonView)
    requires
        ai_turns::codex_args(thread, Seq::empty()) is Ok,
    ensures
        ({
            let origin = json::field(thread, "origin"@);
            let workspace = json::text_field(origin->0, "workspacePath"@);
            &&& origin is Some
            &&& workspace is Some
            &&& ai_turns::codex_args(thread, Seq::empty())->Ok_0 == seq![
                "exec"@,
                "--json"@,
                "--color"@,
                "never"@,
                "-C"@,
                workspace->0,
            ] + sandbox_args(json::text_field(thread, "sandbox"@)) + choice_args(
                json::text_field(thread, "model"@),
                json::text_field(thread, "reasoningEffort"@),
            ) + end_args(json::text_field(thread, "codexThreadId"@))
        }),
{
    reveal_strlit("read-only");
    reveal_strlit("workspace-write");
    reveal_strlit("danger-full-access");
    assert("read-only"@.len() == 9 && "workspace-write"@.len() == 15 && "danger-full-access"@.len()
        == 18);
    lemma_settings();
    let args = ai_turns::codex_args(thread, Seq::empty())->Ok_0;
    let origin = json::field(thread, "origin"@)->0;
    let workspace = json::text_field(origin, "workspacePath"@)->0;
    let first = ai_turns::first_args(workspace, ai_turns::thread_sandbox(thread));
    assert(first =~= seq!["exec"@, "--json"@, "--color"@, "never"@, "-C"@, workspace]
        + sandbox_args(json::text_field(thread, "sandbox"@)));
    let named = ai_turns::model_args(first, thread);
    assert(named =~= first + choice_args(
        json::text_field(thread, "model"@),
        json::text_field(thread, "reasoningEffort"@),
    )) by {
        if json::text_field(thread, "reasoningEffort"@) is Some {
            lemma_effort(json::text_field(thread, "reasoningEffort"@)->0);
        }
    }
    let none = Seq::<Seq<char>>::empty();
    assert(ai_turns::with_images(named, none) == named);
    assert(ai_turns::with_images(named.push("resume"@), none) == named.push("resume"@));
    assert(args =~= named + end_args(json::text_field(thread, "codexThreadId"@)));
}

proof fn lemma_effort(effort: Seq<char>)
    ensures
        ai_turns::config_arg("model_reasoning_effort"@, effort) == "model_reasoning_effort=\""@
            + effort + "\""@,
{
    reveal_strlit("model_reasoning_effort");
    reveal_strlit("=\"");
    reveal_strlit("model_reasoning_effort=\"");
    assert("model_reasoning_effort"@ + "=\""@ =~= "model_reasoning_effort=\""@);
}

proof fn lemma_settings()
    ensures
        ai_turns::config_arg("approval_policy"@, "never"@) == "approval_policy=\"never\""@,
        ai_turns::config_arg("approval_policy"@, "on-request"@)
            == "approval_policy=\"on-request\""@,
        ai_turns::config_arg("approvals_reviewer"@, "user"@) == "approvals_reviewer=\"user\""@,
        ai_turns::config_arg("approvals_reviewer"@, "auto_review"@)
            == "approvals_reviewer=\"auto_review\""@,
{
    reveal_strlit("approval_policy");
    reveal_strlit("approvals_reviewer");
    reveal_strlit("=\"");
    reveal_strlit("\"");
    reveal_strlit("never");
    reveal_strlit("on-request");
    reveal_strlit("user");
    reveal_strlit("auto_review");
    reveal_strlit("approval_policy=\"never\"");
    reveal_strlit("approval_policy=\"on-request\"");
    reveal_strlit("approvals_reviewer=\"user\"");
    reveal_strlit("approvals_reviewer=\"auto_review\"");
    assert(ai_turns::config_arg("approval_policy"@, "never"@) =~= "approval_policy=\"never\""@);
    assert(ai_turns::config_arg("approval_policy"@, "on-request"@)
        =~= "approval_policy=\"on-request\""@);
    assert(ai_turns::config_arg("approvals_reviewer"@, "user"@)
        =~= "approvals_reviewer=\"user\""@);
    assert(ai_turns::config_arg("approvals_reviewer"@, "auto_review"@)
        =~= "approvals_reviewer=\"auto_review\""@);
}

/// Whether a statement ends a run: by its status, its exit code, its error and the time.
pub open spec fn ends_run(
    w: StatementView,
    run_id: Seq<char>,
    status: Seq<char>,
    exit_code: Option<i32>,
    error: Option<Seq<char>>,
    time: Option<Seq<char>>,
) -> bool {
    &&& w.sql == "
            UPDATE ai_chat_runs
            SET status = ?1, exit_code = ?2, error = ?3, finished_at = ?4
            WHERE id = ?5
            "@
    &&& w.params.len() == 5
    &&& w.params[0] == SqlView::Text(status)
    &&& w.params[1] == match exit_code {
        Some(code) => SqlView::Integer(code as int),
        None => SqlView::Null,
    }
    &&& w.params[2] == match error {
        Some(s) => SqlView::Text(s),
        None => SqlView::Null,
    }
    &&& w.params[3] == match time {
        Some(s) => SqlView::Text(s),
        None => SqlView::Null,
    }
    &&& w.params[4] == SqlView::Text(run_id)
}

/// Whether a statement lets a thread rest where none of its runs is running: as failed where its run
/// failed, and else as idle.
pub open spec fn rests_thread(
    w: StatementView,
    thread_id: Seq<char>,
    status: Seq<char>,
    time: Option<Seq<char>>,
) -> bool {
    &&& w.sql == "
                UPDATE ai_chat_threads
                SET status = ?1, updated_at = COALESCE(?2, updated_at)
                WHERE id = ?3
                  AND NOT EXISTS (
                    SELECT 1 FROM ai_chat_runs
                    WHERE thread_id = ?3 AND status = 'running'
                  )
                "@
    &&& w.params.len() == 3
    &&& w.params[0] == SqlView::Text(
        if status == "failed"@ {
            "failed"@
        } else {
            "idle"@
        },
    )
    &&& w.params[1] == match time {
        Some(s) => SqlView::Text(s),
        None => SqlView::Null,
    }
    &&& w.params[2] == SqlView::Text(thread_id)
}

/// A run is ended by two statements in one transaction: the run gets its status, its exit code, its
/// error and the time, and the thread that the run is found in rests.
pub proof fn law_run_is_ended_as_told(
    replies: Seq<ReplyView>,
    at: int,
    run_id: Seq<char>,
    status: Seq<char>,
    exit_code: Option<i32>,
    error: Option<Seq<char>>,
    time: Option<Seq<char>>,
    w: StatementView,
)
    requires
        0 <= at <= replies.len(),
        ai_runs::run_updated(replies, at, run_id, status, exit_code, error, time) == Err::<
            (JsonView, int),
            StepView,
        >(StepView::Ask(ActionView::Write(w))),
    ensures
        replies.len() == at + 1 || replies.len() == at + 3,
        replies.len() == at + 1 ==> ends_run(w, run_id, status, exit_code, error, time),
        replies.len() == at + 3 ==> replies[at + 2] is Tables && store::single_text(
            replies[at + 2]->Tables_0[0],
        ) is Ok && rests_thread(
            w,
            store::single_text(replies[at + 2]->Tables_0[0])->Ok_0,
            status,
            time,
        ),
{
}

/// A run is added as a running one under a fresh identifier, and its thread is marked as running.
pub proof fn law_run_is_added_as_running(
    replies: Seq<ReplyView>,
    at: int,
    thread_id: Seq<char>,
    w: StatementView,
)
    requires
        0 <= at <= replies.len(),
        ai_runs::run_created(replies, at, thread_id) == Err::<(JsonView, int), StepView>(
            StepView::Ask(ActionView::Write(w)),
        ),
    ensures
        replies.len() == at + 3 || replies.len() == at + 4,
        replies[at] is Text,
        replies.len() == at + 3 ==> w.sql == "
            INSERT INTO ai_chat_runs (id, thread_id, status, exit_code, error, started_at, finished_at)
            VALUES (?1, ?2, 'running', NULL, NULL, ?3, NULL)
            "@ && w.params.len() == 3 && w.params[0] == SqlView::Text(replies[at]->Text_0)
            && w.params[1] == SqlView::Text(thread_id) && w.params[2] is Text,
        replies.len() == at + 4 ==> w.sql
            == "UPDATE ai_chat_threads SET status = 'running', updated_at = ?1 WHERE id = ?2"@
            && w.params.len() == 2 && w.params[1] == SqlView::Text(thread_id),
{
}

/// A run that is interrupted is stopped, and then ended as interrupted; one that is not running is
/// left alone.
pub proof fn law_interrupted_run_is_stopped(
    replies: Seq<ReplyView>,
    run_id: Seq<char>,
    action: ActionView,
)
    requires
        ai_runs::run_interrupted(replies, run_id) == Err::<ResponseView, StepView>(
            StepView::Ask(action),
        ),
        replies.len() >= 1,
    ensures
        ai_runs::run_at(replies, 0, run_id) is Ok,
        ai_runs::run_at(replies, 0, run_id)->Ok_0 is Some,
        json::text_field(ai_runs::run_at(replies, 0, run_id)->Ok_0->0, "status"@) == Some(
            "running"@,
        ),
        replies.len() == 1 ==> action == ActionView::StopRun(run_id),
        replies.len() == 4 ==> action is Write && exists|time: Option<Seq<char>>| #[trigger]
            ends_run(
                action->Write_0,
                run_id,
                "interrupted"@,
                None,
                Some("Interrupted"@),
                time,
            ),
{
    if replies.len() == 4 {
        let time = store::now_at(replies, 2)->Ok_0;
        assert(ends_run(
            action->Write_0,
            run_id,
            "interrupted"@,
            None,
            Some("Interrupted"@),
            Some(time),
        ));
    }
}

/// A turn whose Codex cannot be started is noted as an error that says why, and its run ends as failed
/// with the same error.
pub proof fn law_failed_start_is_noted(
    replies: Seq<ReplyView>,
    at: int,
    thread_id: Seq<char>,
    run_id: Seq<char>,
    message: Seq<char>,
    directory: Option<Seq<char>>,
    w: StatementView,
)
    requires
        0 <= at <= replies.len(),
        ai_turns::start_failed(replies, at, thread_id, run_id, message, directory) == Err::<
            int,
            StepView,
        >(StepView::Ask(ActionView::Write(w))),
    ensures
        replies.len() == at + 2 ==> recording::writes_event(
            w,
            thread_id,
            Some(run_id),
            EventView {
                kind: "error"@,
                role: "error"@,
                content: message,
                data: Some(JsonView::Object(seq![("status"@, JsonView::Text("failed"@))])),
            },
        ),
        replies.len() == at + 6 ==> exists|time: Option<Seq<char>>| #[trigger]
            ends_run(w, run_id, "failed"@, None, Some(message), time),
{
    assert(json::members().push(("status"@, JsonView::Text("failed"@))) =~= seq![
        ("status"@, JsonView::Text("failed"@)),
    ]);
    if replies.len() == at + 6 {
        let time = store::now_at(replies, at + 4)->Ok_0;
        assert(ends_run(w, run_id, "failed"@, None, Some(message), Some(time)));
    }
}

/// A turn ends by its outcome: its run gets the status, the exit code and the error of it.
pub proof fn law_closing_writes_the_outcome(
    replies: Seq<ReplyView>,
    outcome: OutcomeView,
    time: Option<Seq<char>>,
    thread_id: Seq<char>,
    run_id: Seq<char>,
    w: StatementView,
)
    requires
        codex::closing_next(
            replies,
            ClosingView::Updating(time),
            outcome,
            thread_id,
            run_id,
        ) == ClosingStepView::Ask(ActionView::Write(w)),
    ensures
        replies.len() == 1 || replies.len() == 3,
        replies.len() == 1 ==> ends_run(
            w,
            run_id,
            outcome.status,
            outcome.exit_code,
            outcome.error,
            time,
        ),
{
}

/// How a turn ended: an interrupted one as interrupted; else one of which a failure was told as failed
/// with this failure; else one whose Codex ended well as completed; and any other as failed. The exit
/// code of Codex is kept unless the turn was interrupted.
pub proof fn law_outcome_is_that_of_the_turn(
    state: codex::TurnStateView,
    interrupted: bool,
    exit: Option<codex::Exit>,
)
    ensures
        ({
            let outcome = codex::turn_outcome(state, interrupted, exit);
            let well = exit is Some && (exit->0).success;
            &&& interrupted ==> outcome.status == "interrupted"@ && outcome.exit_code is None
                && outcome.error == Some("Interrupted"@)
            &&& !interrupted && exit is Some ==> outcome.exit_code == (exit->0).code
            &&& exit is None ==> outcome.exit_code is None
            &&& !interrupted && state.failed ==> outcome.status == "failed"@ && outcome.error
                == Some(state.error)
            &&& !interrupted && !state.failed && well ==> outcome.status == "completed"@
                && outcome.error is None
            &&& !interrupted && !state.failed && !well ==> outcome.status == "failed"@
                && outcome.error == Some("Codex turn failed"@)
        }),
{
}

/// The closing of a turn asks for the time first. A failed turn is then noted as an error event that
/// says why it failed, and any other is not; after that the run is ended, and nothing more is done.
pub proof fn law_closing_has_its_stages(
    replies: Seq<ReplyView>,
    closing: ClosingView,
    outcome: OutcomeView,
    thread_id: Seq<char>,
    run_id: Seq<char>,
    next: ClosingView,
)
    requires
        codex::closing_next(replies, closing, outcome, thread_id, run_id) == ClosingStepView::Go(
            next,
        ),
    ensures
        closing is Time && outcome.status == "failed"@ ==> next is Noting,
        closing is Time && outcome.status != "failed"@ ==> next is Updating,
        closing is Noting ==> next == ClosingView::Updating(closing->Noting_0),
        closing is Updating ==> next is Over,
        closing is Over ==> next is Over,
{
}

/// What is noted of a failed turn at its closing is an error event that says why it failed.
pub proof fn law_closing_notes_the_failure(
    replies: Seq<ReplyView>,
    outcome: OutcomeView,
    time: Option<Seq<char>>,
    thread_id: Seq<char>,
    run_id: Seq<char>,
    w: StatementView,
)
    requires
        codex::closing_next(replies, ClosingView::Noting(time), outcome, thread_id, run_id)
            == ClosingStepView::Ask(ActionView::Write(w)),
    ensures
        recording::writes_event(
            w,
            thread_id,
            Some(run_id),
            EventView {
                kind: "error"@,
                role: "error"@,
                content: match outcome.error {
                    Some(m) => m,
                    None => "Codex turn failed"@,
                },
                data: Some(JsonView::Object(seq![("status"@, JsonView::Text("failed"@))])),
            },
        ),
{
    assert(json::members().push(("status"@, JsonView::Text("failed"@))) =~= seq![
        ("status"@, JsonView::Text("failed"@)),
    ]);
}

/// A turn whose reports could not be read failed, unless it was interrupted, with whatever code Codex
/// ended.
pub proof fn law_unread_turn_failed(exit: Option<codex::Exit>)
    ensures
        codex::turn_outcome(codex::unread_turn(), false, exit).status == "failed"@,
        codex::turn_outcome(codex::unread_turn(), false, exit).error == Some(
            "Codex output could not be read"@,
        ),
        codex::turn_outcome(codex::unread_turn(), true, exit).status == "interrupted"@,
{
}

} // verus!
