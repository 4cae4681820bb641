//! What is answered where something is not there, or not as it is expected.
use crate::ai_runs;
use crate::ai_threads;
use crate::ai_turns;
use crate::comments;
use crate::exchange;
use crate::exchange::{ReplyView, ResponseView, StepView};
use crate::fields;
use crate::fields::ActorView;
use crate::json;
use crate::json::JsonView;
use crate::projects;
use crate::relations;
use crate::request::RequestView;
use crate::service;
use crate::tasks;
use vstd::prelude::*;

verus! {

/// Whether a response refuses a request with a status, a code and a message.
pub open spec fn refuses(
    response: ResponseView,
    status: u16,
    code: Seq<char>,
    message: Seq<char>,
) -> bool {
    response == ResponseView::Json(
        status,
        JsonView::Object(
            seq![
                (
                    "error"@,
                    JsonView::Object(
                        seq![("code"@, JsonView::Text(code)), ("message"@, JsonView::Text(message))],
                    ),
                ),
            ],
        ),
    )
}

/// Whether a request is at its end with an answer that refuses it.
pub open spec fn is_refused(
    result: Result<ResponseView, StepView>,
    status: u16,
    code: Seq<char>,
    message: Seq<char>,
) -> bool {
    match result {
        Ok(response) => refuses(response, status, code, message),
        Err(StepView::Answer(response)) => refuses(response, status, code, message),
        _ => false,
    }
}

/// A refusal says its code and its message under `error`.
pub proof fn law_refusal_has_its_form(status: u16, code: Seq<char>, message: Seq<char>)
    ensures
        refuses(exchange::refusal(status, code, message), status, code, message),
{
    let inner = json::members().push(("code"@, JsonView::Text(code))).push(
        ("message"@, JsonView::Text(message)),
    );
    assert(inner =~= seq![("code"@, JsonView::Text(code)), ("message"@, JsonView::Text(message))]);
    let outer = json::members().push(("error"@, JsonView::Object(inner)));
    assert(outer =~= seq![("error"@, JsonView::Object(inner))]);
}

/// Where no task is found, it can neither be shown, nor commented on, nor get a file or a relation.
pub proof fn law_missing_task_is_told(
    replies: Seq<ReplyView>,
    key: Seq<char>,
    body: JsonView,
    actor: ActorView,
    request: RequestView,
    relation_type: Seq<char>,
    related: Seq<char>,
    adding: bool,
)
    requires
        tasks::task_at(replies, 0, key) is Ok,
        (tasks::task_at(replies, 0, key)->Ok_0).0 is None,
    ensures
        is_refused(
            comments::comment_created(replies, key, body, actor),
            404,
            "TASK_NOT_FOUND"@,
            "Task not found"@,
        ),
        is_refused(
            comments::attachment_created(replies, 0, key, None, request),
            404,
            "TASK_NOT_FOUND"@,
            "Task not found"@,
        ),
        is_refused(
            service::task_shown(replies, key),
            404,
            "TASK_NOT_FOUND"@,
            "Task not found"@,
        ),
        is_refused(
            relations::relation_changed(replies, key, relation_type, related, body, adding),
            404,
            "TASK_NOT_FOUND"@,
            "Task not found"@,
        ),
{
    law_refusal_has_its_form(404, "TASK_NOT_FOUND"@, "Task not found"@);
}

/// Where the other task of a relation is not found, this is told apart.
pub proof fn law_missing_related_task_is_told(
    replies: Seq<ReplyView>,
    key: Seq<char>,
    relation_type: Seq<char>,
    related: Seq<char>,
    body: JsonView,
    adding: bool,
)
    requires
        tasks::task_at(replies, 0, key) is Ok,
        (tasks::task_at(replies, 0, key)->Ok_0).0 is Some,
        tasks::task_at(replies, (tasks::task_at(replies, 0, key)->Ok_0).1, related) is Ok,
        (tasks::task_at(
            replies,
            (tasks::task_at(replies, 0, key)->Ok_0).1,
            related,
        )->Ok_0).0 is None,
    ensures
        is_refused(
            relations::relation_changed(replies, key, relation_type, related, body, adding),
            404,
            "TASK_NOT_FOUND"@,
            "Related task not found"@,
        ),
{
    law_refusal_has_its_form(404, "TASK_NOT_FOUND"@, "Related task not found"@);
}

/// Where no comment is found, it can neither be changed, nor deleted, nor get a file; and where it is
/// found in another version than the one that is named, it is neither changed nor deleted.
pub proof fn law_missing_comment_is_told(
    replies: Seq<ReplyView>,
    id: Seq<char>,
    body: JsonView,
    request: RequestView,
)
    requires
        comments::comment_at(replies, 0, id) is Ok,
    ensures
        (comments::comment_at(replies, 0, id)->Ok_0).0 is None ==> {
            &&& is_refused(
                comments::comment_updated(replies, id, body),
                404,
                "COMMENT_NOT_FOUND"@,
                "Comment not found"@,
            )
            &&& is_refused(
                comments::comment_deleted(replies, id, body),
                404,
                "COMMENT_NOT_FOUND"@,
                "Comment not found"@,
            )
            &&& is_refused(
                service::attached_to_comment(replies, id, request),
                404,
                "COMMENT_NOT_FOUND"@,
                "Comment not found"@,
            )
        },
        (comments::comment_at(replies, 0, id)->Ok_0).0 is Some && json::integer_field(
            body,
            "version"@,
        ) is Some && json::integer_field(body, "version"@)->0 > 0 && json::integer_field(
            (comments::comment_at(replies, 0, id)->Ok_0).0->0,
            "version"@,
        ) != json::integer_field(body, "version"@) ==> {
            &&& is_refused(
                comments::comment_updated(replies, id, body),
                409,
                "VERSION_CONFLICT"@,
                "Comment was changed by another client"@,
            )
            &&& is_refused(
                comments::comment_deleted(replies, id, body),
                409,
                "VERSION_CONFLICT"@,
                "Comment was changed by another client"@,
            )
        },
{
    law_refusal_has_its_form(404, "COMMENT_NOT_FOUND"@, "Comment not found"@);
    law_refusal_has_its_form(
        409,
        "VERSION_CONFLICT"@,
        "Comment was changed by another client"@,
    );
}

/// Where no attachment is found, it is neither sent nor deleted.
pub proof fn law_missing_attachment_is_told(replies: Seq<ReplyView>, id: Seq<char>)
    requires
        comments::attachment_at(replies, 0, id) is Ok,
        comments::attachment_at(replies, 0, id)->Ok_0 is None,
    ensures
        is_refused(
            comments::content_sent(replies, id),
            404,
            "ATTACHMENT_NOT_FOUND"@,
            "Attachment not found"@,
        ),
        is_refused(
            comments::attachment_deleted(replies, id),
            404,
            "ATTACHMENT_NOT_FOUND"@,
            "Attachment not found"@,
        ),
{
    law_refusal_has_its_form(404, "ATTACHMENT_NOT_FOUND"@, "Attachment not found"@);
}

/// Where no project is found, it is neither archived nor deleted, and has no workflow and no
/// conversations. The default project is protected from both whatever is found.
pub proof fn law_missing_project_is_told(
    replies: Seq<ReplyView>,
    id: Seq<char>,
    body: JsonView,
)
    requires
        projects::project_at(replies, 0, id, false) is Ok,
        projects::project_at(replies, 0, id, false)->Ok_0 is None,
    ensures
        id != "local"@ ==> {
            &&& is_refused(
                projects::project_archived(replies, id),
                404,
                "PROJECT_NOT_FOUND"@,
                "Project not found"@,
            )
            &&& is_refused(
                projects::project_deleted(replies, id),
                404,
                "PROJECT_NOT_FOUND"@,
                "Project not found"@,
            )
        },
        id == "local"@ ==> {
            &&& is_refused(
                projects::project_archived(replies, id),
                409,
                "DEFAULT_PROJECT_PROTECTED"@,
                "The default project cannot be archived or deleted"@,
            )
            &&& is_refused(
                projects::project_deleted(replies, id),
                409,
                "DEFAULT_PROJECT_PROTECTED"@,
                "The default project cannot be archived or deleted"@,
            )
        },
        is_refused(
            projects::workflow_saved(replies, id, body),
            404,
            "PROJECT_NOT_FOUND"@,
            "Project not found"@,
        ),
{
    law_refusal_has_its_form(404, "PROJECT_NOT_FOUND"@, "Project not found"@);
    law_refusal_has_its_form(
        409,
        "DEFAULT_PROJECT_PROTECTED"@,
        "The default project cannot be archived or deleted"@,
    );
}

/// Where no conversation is found, it can neither be shown, nor streamed, nor changed, nor deleted,
/// nor go on; and while a run of it is running, it is neither changed nor deleted, and no other turn
/// of it starts.
pub proof fn law_missing_thread_is_told(
    replies: Seq<ReplyView>,
    id: Seq<char>,
    body: JsonView,
    skill_path: Seq<char>,
)
    requires
        ai_threads::thread_at(replies, 0, id) is Ok,
    ensures
        (ai_threads::thread_at(replies, 0, id)->Ok_0).0 is None ==> {
            let code = "AI_CHAT_THREAD_NOT_FOUND"@;
            let message = "AI chat thread not found"@;
            &&& is_refused(ai_threads::snapshot_shown(replies, id), 404, code, message)
            &&& is_refused(ai_threads::stream_opened(replies, id), 404, code, message)
            &&& is_refused(ai_threads::thread_updated(replies, id, body), 404, code, message)
            &&& is_refused(ai_threads::thread_deleted(replies, id), 404, code, message)
            &&& is_refused(
                ai_turns::turn_requested(replies, id, body, skill_path),
                404,
                code,
                message,
            )
        },
        (ai_threads::thread_at(replies, 0, id)->Ok_0).0 is Some && json::field(
            (ai_threads::thread_at(replies, 0, id)->Ok_0).0->0,
            "currentRun"@,
        ) is Some && !(json::field(
            (ai_threads::thread_at(replies, 0, id)->Ok_0).0->0,
            "currentRun"@,
        )->0 is Null) ==> {
            let code = "THREAD_BUSY"@;
            let message = "AI chat thread has a running turn"@;
            &&& is_refused(ai_threads::thread_updated(replies, id, body), 409, code, message)
            &&& is_refused(ai_threads::thread_deleted(replies, id), 409, code, message)
            &&& is_refused(
                ai_turns::turn_requested(replies, id, body, skill_path),
                409,
                code,
                message,
            )
        },
{
    law_refusal_has_its_form(404, "AI_CHAT_THREAD_NOT_FOUND"@, "AI chat thread not found"@);
    law_refusal_has_its_form(
        409,
        "THREAD_BUSY"@,
        "AI chat thread has a running turn"@,
    );
}

/// Where no run is found, none is interrupted.
pub proof fn law_missing_run_is_told(replies: Seq<ReplyView>, id: Seq<char>)
    requires
        ai_runs::run_at(replies, 0, id) is Ok,
        ai_runs::run_at(replies, 0, id)->Ok_0 is None,
    ensures
        is_refused(
            ai_runs::run_interrupted(replies, id),
            404,
            "AI_CHAT_RUN_NOT_FOUND"@,
            "AI chat run not found"@,
        ),
{
    law_refusal_has_its_form(404, "AI_CHAT_RUN_NOT_FOUND"@, "AI chat run not found"@);
}

/// A body names a version by a positive integer; anything else is refused.
pub proof fn law_version_is_a_positive_integer(body: JsonView)
    ensures
        fields::expected_version(body) is Ok <==> json::integer_field(body, "version"@) is Some
            && json::integer_field(body, "version"@)->0 > 0,
        fields::expected_version(body) is Ok ==> Some(fields::expected_version(body)->Ok_0)
            == json::integer_field(body, "version"@),
{
}

/// A place in the order is named by a number, and is that number; anything else names none.
pub proof fn law_place_is_a_number(value: Option<JsonView>)
    ensures
        value matches Some(JsonView::Real(s)) ==> fields::real_of(value) == Some(s),
        value matches Some(JsonView::Integer(i)) ==> fields::real_of(value) == Some(
            crate::text::signed_decimal(i),
        ),
        value matches Some(JsonView::Unsigned(i)) ==> fields::real_of(value) == Some(
            crate::text::signed_decimal(i),
        ),
        fields::real_of(value) is Some ==> value is Some && (value->0 is Real || value->0 is Integer
            || value->0 is Unsigned),
{
}

} // verus!
