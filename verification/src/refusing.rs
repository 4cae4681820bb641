//! Why requests are refused, and that no others are.
use crate::ai_models;
use crate::ai_threads;
use crate::ai_turns;
use crate::comments;
use crate::encoding;
use crate::exchange;
use crate::exchange::{ReplyView, ResponseView, StepView};
use crate::fields;
use crate::ids;
use crate::json;
use crate::json::JsonView;
use crate::projects;
use crate::relations;
use crate::request;
use crate::sending;
use crate::store;
use crate::tasks;
use crate::text;
use vstd::prelude::*;
use vstd::utf8::*;

verus! {

/// The text inside a member of a body.
pub open spec fn inside(body: JsonView, key: Seq<char>) -> Seq<char> {
    text::trimmed(json::text_field(body, key)->0)
}

/// Whether a member of a body is missing or null.
pub open spec fn is_unsaid(body: JsonView, key: Seq<char>) -> bool {
    json::field(body, key) is None || json::field(body, key) == Some(JsonView::Null)
}

/// A member that may be missing is refused where it is not a text, or holds too many bytes; one that
/// is required is refused, too, where it is missing or blank.
pub proof fn law_why_a_text_is_refused(body: JsonView, key: Seq<char>, limit: nat)
    ensures
        ({
            let r = fields::text_of(body, key, limit);
            let is_text = json::text_field(body, key) is Some;
            let too_long = is_text && encode_utf8(inside(body, key)).len() > limit;
            &&& is_unsaid(body, key) ==> r == Ok::<Option<Seq<char>>, Seq<char>>(None)
            &&& !is_unsaid(body, key) && !is_text ==> r == Err::<Option<Seq<char>>, Seq<char>>(
                key + " must be a string"@,
            )
            &&& too_long ==> r == Err::<Option<Seq<char>>, Seq<char>>(key + " is too long"@)
            &&& is_text && !too_long ==> r == Ok::<Option<Seq<char>>, Seq<char>>(
                Some(inside(body, key)),
            )
        }),
        ({
            let r = fields::required_text(body, key, limit);
            let is_text = json::text_field(body, key) is Some;
            let too_long = is_text && encode_utf8(inside(body, key)).len() > limit;
            &&& is_unsaid(body, key) ==> r == Err::<Seq<char>, Seq<char>>(key + " is required"@)
            &&& !is_unsaid(body, key) && !is_text ==> r == Err::<Seq<char>, Seq<char>>(
                key + " must be a string"@,
            )
            &&& too_long ==> r == Err::<Seq<char>, Seq<char>>(key + " is too long"@)
            &&& is_text && !too_long && inside(body, key).len() == 0 ==> r == Err::<
                Seq<char>,
                Seq<char>,
            >(key + " cannot be empty"@)
            &&& is_text && !too_long && inside(body, key).len() > 0 ==> r == Ok::<
                Seq<char>,
                Seq<char>,
            >(inside(body, key))
        }),
{
}

/// A member that is read as it stands is refused where it is not a text, and a number where it is
/// not positive, or is missing though it is required.
pub proof fn law_why_a_member_is_refused(body: JsonView, key: Seq<char>)
    ensures
        json::text_field(body, key) is None ==> fields::plain_text(body, key) == Err::<
            Seq<char>,
            Seq<char>,
        >(key + " is required"@) && fields::member_text(body, key) == Err::<Seq<char>, Seq<char>>(
            key + " is missing"@,
        ),
        json::text_field(body, key) matches Some(s) ==> fields::plain_text(body, key) == Ok::<
            Seq<char>,
            Seq<char>,
        >(s) && fields::member_text(body, key) == Ok::<Seq<char>, Seq<char>>(s),
        json::integer_field(body, key) is None ==> fields::positive(body, key, true) == Err::<
            Option<int>,
            Seq<char>,
        >(key + " is required"@) && fields::positive(body, key, false) == Ok::<
            Option<int>,
            Seq<char>,
        >(None),
        json::integer_field(body, key) matches Some(i) ==> forall|required: bool| #[trigger]
            fields::positive(body, key, required) == if i > 0 {
                Ok::<Option<int>, Seq<char>>(Some(i))
            } else {
                Err::<Option<int>, Seq<char>>(key + " must be positive"@)
            },
{
}

/// States, priorities and targets that are not known are refused with their message.
pub proof fn law_why_a_word_is_refused(s: Seq<char>, body: JsonView, actor: fields::ActorView)
    ensures
        fields::status_spec(s) is Err ==> fields::status_spec(s)->Err_0 == "invalid task status"@,
        fields::priority_spec(s) is Err ==> fields::priority_spec(s)->Err_0
            == "invalid task priority"@,
        fields::assignee(body, actor) is Err ==> fields::assignee(body, actor)->Err_0
            == "invalid assignee target"@,
{
}

/// White space is cut off in one way only.
proof fn lemma_one_inner(s: Seq<char>, t: Seq<char>)
    requires
        sending::is_inner(t, s),
    ensures
        t == text::trimmed(s),
{
    sending::law_trimmed_text_is_what_stands_inside(s);
    let u = text::trimmed(s);
    let a = choose|at: int| sending::stands_at(t, s, at);
    let b = choose|at: int| sending::stands_at(u, s, at);
    if t.len() > 0 {
        assert(t[0] == s[a + 0]);
        assert(t.last() == s[a + (t.len() - 1)]);
        assert(b <= a < b + u.len());
        assert(b <= a + t.len() - 1 < b + u.len());
    }
    if u.len() > 0 {
        assert(u[0] == s[b + 0]);
        assert(u.last() == s[b + (u.len() - 1)]);
        assert(a <= b < a + t.len());
        assert(a <= b + u.len() - 1 < a + t.len());
    }
    if t.len() > 0 {
        assert(a == b && t.len() == u.len());
        assert forall|i: int| 0 <= i < t.len() implies t[i] == u[i] by {
            assert(t[i] == s[a + i]);
            assert(u[i] == s[b + i]);
        }
    }
    assert(t =~= u);
}

/// Labels are refused where they are not a list, or there are more than twenty of them.
pub proof fn law_why_labels_are_refused(value: Option<JsonView>)
    ensures
        value is Some && !(value->0 is Array) ==> fields::labels_of(value) == Err::<
            Seq<Seq<char>>,
            Seq<char>,
        >("labels must be an array"@),
        value matches Some(JsonView::Array(items)) && items.len() > 20 ==> fields::labels_of(value)
            == Err::<Seq<Seq<char>>, Seq<char>>("too many labels"@),
{
}

/// Where all labels before one are read, that one is refused where it is not a text, is blank or too
/// long, or stands there already; and with it the whole list is.
pub proof fn law_why_a_label_is_refused(items: Seq<JsonView>, k: int, before: Seq<Seq<char>>)
    requires
        0 <= k < items.len(),
        fields::label_list(items.take(k)) == Ok::<Seq<Seq<char>>, Seq<char>>(before),
    ensures
        !(items[k] is Text) ==> fields::label_list(items) == Err::<Seq<Seq<char>>, Seq<char>>(
            "label must be a string"@,
        ),
        items[k] matches JsonView::Text(s) ==> {
            let label = text::trimmed(s);
            &&& label.len() == 0 || encode_utf8(label).len() > 64 ==> fields::label_list(items)
                == Err::<Seq<Seq<char>>, Seq<char>>("label is invalid"@)
            &&& label.len() > 0 && encode_utf8(label).len() <= 64 && before.contains(label)
                ==> fields::label_list(items) == Err::<Seq<Seq<char>>, Seq<char>>(
                "labels must be unique"@,
            )
        },
{
    let head = items.take(k + 1);
    assert(head.drop_last() =~= items.take(k));
    assert(head.last() == items[k]);
    if fields::label_list(head) is Err {
        lemma_refused_label_stays(items, k + 1);
    }
}

proof fn lemma_refused_label_stays(items: Seq<JsonView>, k: int)
    requires
        0 <= k <= items.len(),
        fields::label_list(items.take(k)) is Err,
    ensures
        fields::label_list(items) == fields::label_list(items.take(k)),
    decreases items.len() - k,
{
    if k == items.len() {
        assert(items.take(k) =~= items);
    } else {
        assert(items.take(k + 1).drop_last() =~= items.take(k));
        lemma_refused_label_stays(items, k + 1);
    }
}

/// Labels are read wherever each is a text of the right length and none stands twice.
pub proof fn law_labels_are_not_refused(items: Seq<JsonView>, labels: Seq<Seq<char>>)
    requires
        labels.len() == items.len(),
        forall|i: int| 0 <= i < items.len() ==> sending::is_label(#[trigger] items[i], labels[i]),
        labels.no_duplicates(),
    ensures
        fields::label_list(items) == Ok::<Seq<Seq<char>>, Seq<char>>(labels),
        items.len() <= 20 ==> fields::labels_of(Some(JsonView::Array(items))) == Ok::<
            Seq<Seq<char>>,
            Seq<char>,
        >(labels),
    decreases items.len(),
{
    if items.len() > 0 {
        let n = items.len() - 1;
        let head = labels.drop_last();
        assert forall|i: int| 0 <= i < items.drop_last().len() implies sending::is_label(
            #[trigger] items.drop_last()[i],
            head[i],
        ) by {
            assert(sending::is_label(items[i], labels[i]));
        }
        assert forall|i: int, j: int|
            0 <= i < head.len() && 0 <= j < head.len() && i != j implies head[i] != head[j] by {
            assert(labels[i] != labels[j]);
        }
        law_labels_are_not_refused(items.drop_last(), head);
        assert(sending::is_label(items[n], labels[n]));
        lemma_one_inner(items[n]->Text_0, labels[n]);
        assert(!head.contains(labels[n])) by {
            if head.contains(labels[n]) {
                let i = choose|i: int| 0 <= i < head.len() && head[i] == labels[n];
                assert(labels[i] == labels[n]);
            }
        }
        assert(head.push(labels[n]) =~= labels);
    } else {
        assert(labels =~= Seq::empty());
    }
}

/// Where a task is worked on is refused where it is of no known type, or one of its texts is
/// refused; what is said of a branch is all that is read of one, and of a worktree its path and its
/// branch.
pub proof fn law_why_a_development_is_refused(v: JsonView)
    requires
        v != JsonView::Null,
    ensures
        ({
            let r = fields::development(Some(v));
            let branch = fields::text_of(v, "branch"@, 512);
            let path = fields::text_of(v, "path"@, 4096);
            let of_branch = json::text_field(v, "type"@) == Some("branch"@);
            let of_worktree = json::text_field(v, "type"@) == Some("worktree"@);
            &&& !of_branch && !of_worktree <==> r is Err && r->Err_0
                == "invalid development context"@
            &&& of_branch ==> (r is Ok <==> branch is Ok)
            &&& of_worktree ==> (r is Ok <==> path is Ok && branch is Ok)
            &&& of_branch && branch is Err ==> r->Err_0 == branch->Err_0
            &&& of_worktree && path is Err ==> r->Err_0 == path->Err_0
            &&& of_worktree && path is Ok && branch is Err ==> r->Err_0 == branch->Err_0
        }),
{
    reveal_strlit("branch");
    reveal_strlit("worktree");
    assert("branch"@.len() != "worktree"@.len());
    reveal_strlit("invalid development context");
    reveal_strlit(" is too long");
    reveal_strlit(" must be a string");
    reveal_strlit("path");
    assert("invalid development context"@.len() == 27);
    assert(("branch"@ + " is too long"@).len() == 18);
    assert(("branch"@ + " must be a string"@).len() == 23);
    assert(("path"@ + " is too long"@).len() == 16);
    assert(("path"@ + " must be a string"@).len() == 21);
}

/// A due date is refused where it is not a text, or not a day; a recurrence where its interval is
/// missing or not a number of up to a year, or its unit is not known.
pub proof fn law_why_a_date_is_refused(v: JsonView)
    requires
        v != JsonView::Null,
    ensures
        !(v is Text) ==> fields::due(Some(v)) == Err::<Option<Seq<char>>, Seq<char>>(
            "dueDate must be a string"@,
        ),
        v is Text && fields::due(Some(v)) is Err ==> fields::due(Some(v))->Err_0
            == "invalid dueDate"@,
        json::integer_field(v, "interval"@) is None ==> fields::recurring(Some(v)) == Err::<
            Option<(int, Seq<char>)>,
            Seq<char>,
        >("recurrence interval is required"@),
        json::integer_field(v, "interval"@) matches Some(i) ==> {
            &&& i < 1 || i > 365 ==> fields::recurring(Some(v)) == Err::<
                Option<(int, Seq<char>)>,
                Seq<char>,
            >("invalid recurrence interval"@)
            &&& 1 <= i <= 365 && fields::recurring(Some(v)) is Err ==> fields::recurring(
                Some(v),
            )->Err_0 == "invalid recurrence unit"@
        },
{
}

/// A file of a message is refused where its name, its type or its content is; where its name holds a
/// separator or a control character; and where it is empty.
pub proof fn law_why_a_file_is_refused(value: JsonView)
    ensures
        ({
            let r = ai_turns::attachment_input(value);
            let filename = fields::required_text(value, "filename"@, 240);
            let content_type = fields::required_text(value, "contentType"@, 256);
            let data = fields::required_text(value, "dataBase64"@, 26_214_400);
            let named = filename is Ok && forall|i: int|
                0 <= i < filename->Ok_0.len() ==> !text::is_control(
                    #[trigger] filename->Ok_0[i],
                ) && filename->Ok_0[i] != '/' && filename->Ok_0[i] != '\\';
            &&& filename is Err ==> r is Err && r->Err_0 == filename->Err_0
            &&& filename is Ok && !named ==> r is Err && r->Err_0
                == "attachment filename is invalid"@
            &&& named && content_type is Err ==> r is Err && r->Err_0 == content_type->Err_0
            &&& named && content_type is Ok && data is Err ==> r is Err && r->Err_0 == data->Err_0
            &&& named && content_type is Ok && data is Ok ==> (match encoding::base64_bytes(
                data->Ok_0,
            ) {
                Err(m) => r is Err && r->Err_0 == m,
                Ok(bytes) => if bytes.len() == 0 {
                    r is Err && r->Err_0 == "attachment cannot be empty"@
                } else {
                    r is Ok
                },
            })
        }),
{
    let filename = fields::required_text(value, "filename"@, 240);
    if filename is Ok {
        let s = filename->Ok_0;
        assert(comments::is_plain_name(s) <==> forall|i: int|
            0 <= i < s.len() ==> !text::is_control(#[trigger] s[i]) && s[i] != '/' && s[i] != '\\')
            by {
            if comments::is_plain_name(s) {
                assert forall|i: int| 0 <= i < s.len() implies !text::is_control(#[trigger] s[i])
                    && s[i] != '/' && s[i] != '\\' by {
                    assert(comments::is_name_char(s[i]));
                }
            } else {
                let i = choose|i: int| 0 <= i < s.len() && !comments::is_name_char(#[trigger] s[i]);
                assert(text::is_control(s[i]) || s[i] == '/' || s[i] == '\\');
            }
        }
    }
}

/// The files of a message are refused where they are not a list, or there are more than eight of
/// them, or where one of them is while those before it are not.
pub proof fn law_why_files_are_refused(values: Seq<JsonView>, k: int)
    requires
        0 <= k < values.len(),
        ai_turns::attachment_inputs(values.take(k)) is Ok,
        ai_turns::attachment_input(values[k]) is Err,
    ensures
        ai_turns::attachment_inputs(values) is Err,
        ai_turns::attachment_inputs(values)->Err_0 == ai_turns::attachment_input(values[k])->Err_0,
        values.len() <= 8 ==> ai_turns::turn_attachments(Some(JsonView::Array(values)))
            == ai_turns::attachment_inputs(values),
        values.len() > 8 ==> ai_turns::turn_attachments(Some(JsonView::Array(values))) == Err::<
            Seq<ai_turns::AiAttachmentView>,
            Seq<char>,
        >("too many attachments"@),
{
    let head = values.take(k + 1);
    assert(head.drop_last() =~= values.take(k));
    assert(head.last() == values[k]);
    lemma_refused_file_stays(values, k + 1);
}

proof fn lemma_refused_file_stays(values: Seq<JsonView>, k: int)
    requires
        0 <= k <= values.len(),
        ai_turns::attachment_inputs(values.take(k)) is Err,
    ensures
        ai_turns::attachment_inputs(values) == ai_turns::attachment_inputs(values.take(k)),
    decreases values.len() - k,
{
    if k == values.len() {
        assert(values.take(k) =~= values);
    } else {
        assert(values.take(k + 1).drop_last() =~= values.take(k));
        lemma_refused_file_stays(values, k + 1);
    }
}

/// A message is refused where it is not a text or is too long, where skills are named or marked,
/// where its files are refused, and where it is blank and has no files; no other is.
pub proof fn law_why_a_message_is_refused(body: JsonView)
    ensures
        ({
            let r = ai_turns::turn_input(body);
            let said = fields::text_of(body, "message"@, 100_000);
            let message = match said->Ok_0 {
                Some(s) => s,
                None => Seq::empty(),
            };
            let skills = json::field(body, "skillIds"@) matches Some(JsonView::Array(items))
                && exists|i: int| 0 <= i < items.len() && (#[trigger] items[i]) is Text;
            let marked = message.contains('\u{fffc}');
            let files = ai_turns::turn_attachments(json::field(body, "attachments"@));
            &&& said is Err ==> r is Err && r->Err_0 == said->Err_0
            &&& said is Ok && skills ==> r is Err && r->Err_0
                == "AI chat skill mentions are not migrated yet"@
            &&& said is Ok && !skills && marked ==> r is Err && r->Err_0
                == "skillIds must match skill markers in message"@
            &&& said is Ok && !skills && !marked && files is Err ==> r is Err && r->Err_0
                == files->Err_0
            &&& said is Ok && !skills && !marked && files is Ok ==> {
                let empty = text::trimmed(message).len() == 0 && files->Ok_0.len() == 0;
                &&& empty ==> r is Err && r->Err_0
                    == "A message or at least one attachment is required"@
                &&& !empty ==> r is Ok && (r->Ok_0).message == message && (r->Ok_0).attachments
                    == files->Ok_0
            }
        }),
{
}

/// A turn is refused where its message is, and where the thread may do anything and that was not
/// confirmed with the message itself.
pub proof fn law_why_a_turn_is_refused(
    replies: Seq<ReplyView>,
    id: Seq<char>,
    body: JsonView,
    skill_path: Seq<char>,
    thread: JsonView,
    next: int,
)
    requires
        ai_threads::resting_thread(replies, id) == Ok::<(JsonView, int), StepView>((thread, next)),
    ensures
        ai_turns::turn_input(body) is Err ==> ai_turns::turn_requested(replies, id, body, skill_path)
            == Ok::<ResponseView, StepView>(
            exchange::refusal(400, "INVALID_MESSAGE"@, ai_turns::turn_input(body)->Err_0),
        ),
        ai_turns::turn_input(body) is Ok && json::text_field(thread, "sandbox"@) == Some(
            "danger-full-access"@,
        ) && json::field(body, "dangerFullAccessConfirmed"@) != Some(JsonView::Bool(true))
            ==> ai_turns::turn_requested(replies, id, body, skill_path) == Ok::<
            ResponseView,
            StepView,
        >(
            exchange::refusal(
                400,
                "DANGER_CONFIRMATION_REQUIRED"@,
                "danger-full-access must be confirmed for every turn"@,
            ),
        ),
        ai_turns::turn_input(body) is Ok && (json::text_field(thread, "sandbox"@) != Some(
            "danger-full-access"@,
        ) || json::field(body, "dangerFullAccessConfirmed"@) == Some(JsonView::Bool(true)))
            ==> ai_turns::turn_requested(replies, id, body, skill_path) == ai_turns::turn_started(
            replies,
            next,
            id,
            thread,
            ai_turns::turn_input(body)->Ok_0,
            skill_path,
        ),
{
}

/// The refusal of a sandbox that is not known.
pub open spec fn unknown_sandbox() -> StepView {
    StepView::Answer(
        exchange::refusal(
            400,
            "INVALID_SANDBOX"@,
            "sandbox must be read-only, workspace-write, or danger-full-access"@,
        ),
    )
}

/// Whether a sandbox is known.
pub open spec fn is_known_sandbox(s: Seq<char>) -> bool {
    s == "read-only"@ || s == "workspace-write"@ || s == "danger-full-access"@
}

/// A thread is refused where its sandbox is not known, both when it is created and when it is
/// changed.
pub proof fn law_why_a_thread_is_refused(
    body: JsonView,
    issue: Option<JsonView>,
    defaults: (Seq<char>, Seq<char>),
    changes: crate::task_edits::ChangesView,
    sandbox: Seq<char>,
)
    requires
        fields::required_text(body, "sandbox"@, 64) == Ok::<Seq<char>, Seq<char>>(sandbox),
    ensures
        is_known_sandbox(sandbox) <==> ai_threads::with_sandbox(changes, body) is Ok,
        !is_known_sandbox(sandbox) ==> ai_threads::with_sandbox(changes, body)->Err_0
            == unknown_sandbox(),
        !is_known_sandbox(sandbox) && fields::text_of(body, "title"@, 160) is Ok
            && fields::text_of(body, "model"@, 128) is Ok && fields::text_of(
            body,
            "reasoningEffort"@,
            64,
        ) is Ok ==> ai_threads::manner(body, issue, defaults) is Err && ai_threads::manner(
            body,
            issue,
            defaults,
        )->Err_0 == unknown_sandbox(),
{
}

/// A change of a thread is refused where it names none of its settings.
pub proof fn law_change_needs_a_setting(
    replies: Seq<ReplyView>,
    id: Seq<char>,
    body: JsonView,
    thread: JsonView,
    next: int,
)
    requires
        ai_threads::resting_thread(replies, id) == Ok::<(JsonView, int), StepView>((thread, next)),
        json::field(body, "title"@) is None,
        json::field(body, "model"@) is None,
        json::field(body, "reasoningEffort"@) is None,
        json::field(body, "sandbox"@) is None,
    ensures
        ai_threads::thread_updated(replies, id, body) == Ok::<ResponseView, StepView>(
            exchange::refusal(400, "INVALID_BODY"@, "PATCH requires at least one thread setting"@),
        ),
{
}

/// A thread starts from a task only where that task is in its project and not archived.
pub proof fn law_why_a_task_of_a_thread_is_refused(
    replies: Seq<ReplyView>,
    at: int,
    project_id: Seq<char>,
    body: JsonView,
    asked: Seq<char>,
    found: Option<JsonView>,
    next: int,
)
    requires
        fields::text_of(body, "issueId"@, 128) == Ok::<Option<Seq<char>>, Seq<char>>(Some(asked)),
        tasks::task_at(replies, at, asked) == Ok::<(Option<JsonView>, int), StepView>((found, next)),
    ensures
        ({
            let r = ai_threads::issue_at(replies, at, project_id, body);
            let fits = found is Some && json::text_field(found->0, "projectId"@) == Some(project_id)
                && (json::field(found->0, "archivedAt"@) is None || json::field(
                found->0,
                "archivedAt"@,
            ) == Some(JsonView::Null));
            &&& fits ==> r == Ok::<(Option<JsonView>, int), StepView>((found, next))
            &&& !fits ==> r == Err::<(Option<JsonView>, int), StepView>(
                StepView::Answer(
                    exchange::refusal(
                        404,
                        "AI_CHAT_ISSUE_NOT_FOUND"@,
                        "Task is not an active task in this project"@,
                    ),
                ),
            )
        }),
{
}

/// A thread needs a project whose directory is there.
pub proof fn law_why_a_workspace_is_refused(
    replies: Seq<ReplyView>,
    project_id: Seq<char>,
    project: JsonView,
)
    ensures
        !ids::project_id_form(project_id) ==> ai_models::workspace_at(replies, project_id) == Err::<
            ai_models::AiWorkspaceView,
            StepView,
        >(StepView::Answer(exchange::refusal(400, "INVALID_FIELD"@, "Project id is invalid"@))),
        ids::project_id_form(project_id) && projects::project_at(replies, 0, project_id, false)
            == Ok::<Option<JsonView>, StepView>(Some(project)) && ai_models::workspace_of(
            project,
        ) is Ok && replies.len() > 1 && replies[1] == ReplyView::Flag(false)
            ==> ai_models::workspace_at(replies, project_id) == Err::<
            ai_models::AiWorkspaceView,
            StepView,
        >(
            StepView::Answer(
                exchange::refusal(
                    409,
                    "PROJECT_WORKSPACE_UNAVAILABLE"@,
                    "Project has no available device workspace"@,
                ),
            ),
        ),
        ids::project_id_form(project_id) && projects::project_at(replies, 0, project_id, false)
            == Ok::<Option<JsonView>, StepView>(Some(project)) && ai_models::workspace_of(
            project,
        ) is Ok && replies.len() > 1 && replies[1] == ReplyView::Flag(true)
            ==> ai_models::workspace_at(replies, project_id) == Ok::<
            ai_models::AiWorkspaceView,
            StepView,
        >(ai_models::workspace_of(project)->Ok_0),
{
}

/// A project is refused where its identifier, the one sent or else the one made from its name, is
/// not of the form of one; and where it was there before.
pub proof fn law_why_a_project_is_refused(
    replies: Seq<ReplyView>,
    body: JsonView,
    name: Seq<char>,
    asked: Option<Seq<char>>,
    timestamp: Seq<char>,
    inserted: int,
)
    requires
        fields::required_text(body, "name"@, 120) == Ok::<Seq<char>, Seq<char>>(name),
        fields::text_of(body, "id"@, 64) == Ok::<Option<Seq<char>>, Seq<char>>(asked),
        fields::text_of(body, "workspacePath"@, 4096) is Ok,
    ensures
        ({
            let id = if asked is Some && asked->0.len() > 0 {
                asked->0
            } else {
                ids::slug(name)
            };
            &&& !ids::project_id_form(id) ==> projects::project_created(replies, body) == Ok::<
                ResponseView,
                StepView,
            >(
                exchange::refusal(
                    400,
                    "INVALID_FIELD"@,
                    "Project id must be a lowercase slug"@,
                ),
            )
            &&& ids::project_id_form(id) && store::now_at(replies, 0) == Ok::<Seq<char>, StepView>(
                timestamp,
            ) && replies.len() > 1 && replies[1] == ReplyView::Changed(inserted) && inserted != 1
                ==> projects::project_created(replies, body) == Ok::<ResponseView, StepView>(
                exchange::refusal(409, "PROJECT_EXISTS"@, "Project already exists"@),
            )
        }),
{
}

/// A workflow is refused where its version is not the one that is stored.
pub proof fn law_why_a_workflow_is_refused(
    replies: Seq<ReplyView>,
    project_id: Seq<char>,
    body: JsonView,
    project: JsonView,
    expected: int,
    found: Seq<Seq<(Seq<char>, exchange::SqlView)>>,
    current: Option<int>,
)
    requires
        projects::project_at(replies, 0, project_id, false) == Ok::<Option<JsonView>, StepView>(
            Some(project),
        ),
        fields::expected_version(body) == Ok::<int, Seq<char>>(expected),
        replies.len() > 1,
        replies[1] == ReplyView::Tables(Seq::empty().push(found)),
        found.len() == 0 || exchange::lost(found[0]) is None,
        store::single_integer(found) == Ok::<Option<int>, Seq<char>>(current),
        expected != (if current is Some {
            current->0
        } else {
            0
        }),
    ensures
        projects::workflow_saved(replies, project_id, body) == Ok::<ResponseView, StepView>(
            exchange::refusal(
                409,
                "VERSION_CONFLICT"@,
                "Workflow was changed by another client"@,
            ),
        ),
{
}

/// A relation is refused where its type is not known; and that to a parent, where the task is above
/// that parent already, as the store tells.
pub proof fn law_why_a_relation_is_refused(
    replies: Seq<ReplyView>,
    at: int,
    relation_type: Seq<char>,
    pair: relations::PairView,
    found: Seq<Seq<(Seq<char>, exchange::SqlView)>>,
)
    ensures
        relations::endpoints(relation_type, pair.task_id, pair.related_task_id) is Ok
            <==> relation_type == "parent"@ || relation_type == "blocks"@ || relation_type
            == "blocked_by"@ || relation_type == "related"@,
        relations::endpoints(relation_type, pair.task_id, pair.related_task_id) is Err
            ==> relations::endpoints(relation_type, pair.task_id, pair.related_task_id)->Err_0
            == "invalid relation type"@,
        0 <= at < replies.len() && replies[at] == ReplyView::Tables(Seq::empty().push(found))
            && found.len() > 0 && exchange::lost(found[0]) is None ==> relations::cleared(
            replies,
            at,
            "parent"@,
            pair,
        ) == Err::<int, StepView>(
            StepView::Answer(
                exchange::refusal(409, "RELATION_CYCLE"@, "This parent would create a cycle"@),
            ),
        ),
        relation_type != "parent"@ ==> relations::cleared(replies, at, relation_type, pair) == Ok::<
            int,
            StepView,
        >(at),
{
}

/// The name of a file that is attached is refused where the header for it is missing or cannot be
/// read, and where it is blank, too long, a step of a path, or holds a separator or a control
/// character.
pub proof fn law_why_a_filename_is_refused(headers: Map<Seq<char>, Seq<char>>)
    ensures
        !headers.dom().contains("x-taskboard-filename"@) ==> comments::filename_of(headers) == Err::<
            Seq<char>,
            Seq<char>,
        >("X-Taskboard-Filename is required"@),
        headers.dom().contains("x-taskboard-filename"@) ==> (match request::percent_decoded(
            headers["x-taskboard-filename"@],
            false,
        ) {
            Err(m) => comments::filename_of(headers) == Err::<Seq<char>, Seq<char>>(m),
            Ok(decoded) => {
                let name = text::trimmed(decoded);
                let fits = name.len() > 0 && encode_utf8(name).len() <= 240 && name != "."@ && name
                    != ".."@ && forall|i: int|
                    0 <= i < name.len() ==> !text::is_control(#[trigger] name[i]) && name[i] != '/'
                        && name[i] != '\\';
                &&& fits ==> comments::filename_of(headers) == Ok::<Seq<char>, Seq<char>>(name)
                &&& !fits ==> comments::filename_of(headers) == Err::<Seq<char>, Seq<char>>(
                    "attachment filename is invalid"@,
                )
            },
        }),
{
    if headers.dom().contains("x-taskboard-filename"@) {
        let decoded = request::percent_decoded(headers["x-taskboard-filename"@], false);
        if decoded is Ok {
            let name = text::trimmed(decoded->Ok_0);
            if comments::is_plain_name(name) {
                assert forall|i: int| 0 <= i < name.len() implies !text::is_control(
                    #[trigger] name[i],
                ) && name[i] != '/' && name[i] != '\\' by {
                    assert(comments::is_name_char(name[i]));
                }
            } else {
                let i = choose|i: int|
                    0 <= i < name.len() && !comments::is_name_char(#[trigger] name[i]);
                assert(text::is_control(name[i]) || name[i] == '/' || name[i] == '\\');
            }
        }
    }
}

} // verus!
