//! That operations succeed: where all that they need is there, nothing else stands in their way.
use crate::ai_models;
use crate::ai_models::AiWorkspaceView;
use crate::ai_threads;
use crate::ai_threads::MannerView;
use crate::comments;
use crate::exchange::{ReplyView, ResponseView, SqlView, StepView};
use crate::fields;
use crate::fields::ActorView;
use crate::ids;
use crate::json;
use crate::json::JsonView;
use crate::projects;
use crate::relations;
use crate::relations::PairView;
use crate::request::RequestView;
use crate::stepping;
use crate::store;
use crate::task_edits;
use crate::task_edits::ChangesView;
use crate::tasks;
use vstd::prelude::*;

verus! {

/// The answer that shows one value under a name, with a status.
pub open spec fn shown(status: u16, name: Seq<char>, value: JsonView) -> Result<
    ResponseView,
    StepView,
> {
    Ok(ResponseView::Json(status, JsonView::Object(json::members().push((name, value)))))
}

/// Whether a reply tells of a change.
pub open spec fn is_change(replies: Seq<ReplyView>, at: int) -> bool {
    0 <= at < replies.len() && replies[at] is Changed
}

/// Whether a reply tells that something is done.
pub open spec fn is_done(replies: Seq<ReplyView>, at: int) -> bool {
    0 <= at < replies.len() && replies[at] == ReplyView::Done
}

/// Whether the place of a task is known: it is sent, or the reply at a place tells it.
pub open spec fn is_placed(replies: Seq<ReplyView>, at: int, body: JsonView, next: int) -> bool {
    if fields::real_of(json::field(body, "sortOrder"@)) is Some {
        next == at
    } else {
        next == at + 1 && 0 <= at < replies.len() && replies[at] is Text
    }
}

/// A task is created where its project has a number for it and its fields are accepted, and shown as
/// it is then read.
pub proof fn law_task_is_created(
    replies: Seq<ReplyView>,
    body: JsonView,
    actor: ActorView,
    asked: Option<Seq<char>>,
    found: Seq<Seq<(Seq<char>, SqlView)>>,
    number: int,
    next: int,
    id: Seq<char>,
    time: Seq<char>,
    task: JsonView,
    end: int,
)
    requires
        fields::text_of(body, "projectId"@, 64) == Ok::<Option<Seq<char>>, Seq<char>>(asked),
        ids::project_id_form(
            if asked is Some {
                asked->0
            } else {
                "local"@
            },
        ),
        replies.len() > 0,
        stepping::tells_rows(replies[0], found),
        store::single_integer(found) == Ok::<Option<int>, Seq<char>>(Some(number)),
        task_edits::outline(body) is Ok,
        task_edits::details(body, actor) is Ok,
        fields::recurring(json::field(body, "recurrence"@)) == Ok::<
            Option<(int, Seq<char>)>,
            Seq<char>,
        >(None) || fields::due(json::field(body, "dueDate"@)) != Ok::<
            Option<Seq<char>>,
            Seq<char>,
        >(None),
        is_placed(replies, 1, body, next),
        store::id_at(replies, next) == Ok::<Seq<char>, StepView>(id),
        store::now_at(replies, next + 1) == Ok::<Seq<char>, StepView>(time),
        is_change(replies, next + 2),
        is_change(replies, next + 3),
        tasks::task_at(replies, next + 4, id) == Ok::<(Option<JsonView>, int), StepView>(
            (Some(task), end),
        ),
    ensures
        task_edits::task_created(replies, body, actor) == shown(201, "task"@, task),
{
    reveal(task_edits::task_created);
}

/// A task is changed where it is current and something of it is to be changed, and shown as it is
/// then read.
pub proof fn law_task_is_changed(
    replies: Seq<ReplyView>,
    key: Seq<char>,
    body: JsonView,
    actor: ActorView,
    task: JsonView,
    version: int,
    next: int,
    changes: ChangesView,
    id: Seq<char>,
    time: Seq<char>,
    now: Option<JsonView>,
    end: int,
)
    requires
        task_edits::current_task(replies, key, body) == Ok::<(JsonView, int, int), StepView>(
            (task, version, next),
        ),
        task_edits::task_changes(body, actor) == Ok::<ChangesView, Seq<char>>(changes),
        changes.assignments.len() > 0,
        json::text_field(task, "id"@) == Some(id),
        store::now_at(replies, next) == Ok::<Seq<char>, StepView>(time),
        is_change(replies, next + 1),
        tasks::task_at(replies, next + 2, id) == Ok::<(Option<JsonView>, int), StepView>((now, end)),
    ensures
        task_edits::task_updated(replies, key, body, actor) == shown(
            200,
            "task"@,
            json::or_null(now),
        ),
{
    reveal(task_edits::task_updated);
}

/// A task is moved where it is current and not archived, its new project is there, and the state is
/// one of a task.
pub proof fn law_task_is_moved(
    replies: Seq<ReplyView>,
    key: Seq<char>,
    body: JsonView,
    task: JsonView,
    version: int,
    next: int,
    id: Seq<char>,
    asked: Option<Seq<char>>,
    project: JsonView,
    status: Seq<char>,
    placed: int,
    time: Seq<char>,
    now: Option<JsonView>,
    end: int,
)
    requires
        task_edits::current_task(replies, key, body) == Ok::<(JsonView, int, int), StepView>(
            (task, version, next),
        ),
        json::field(task, "archivedAt"@) is None || json::field(task, "archivedAt"@) == Some(
            JsonView::Null,
        ),
        json::text_field(task, "id"@) == Some(id),
        fields::text_of(body, "projectId"@, 64) == Ok::<Option<Seq<char>>, Seq<char>>(asked),
        projects::project_at(
            replies,
            next,
            if asked is Some {
                asked->0
            } else if json::text_field(task, "projectId"@) is Some {
                json::text_field(task, "projectId"@)->0
            } else {
                "local"@
            },
            false,
        ) == Ok::<Option<JsonView>, StepView>(Some(project)),
        json::text_field(body, "status"@) == Some(status),
        fields::status_spec(status) is Ok,
        is_placed(replies, next + 1, body, placed),
        fields::text_of(body, "threadId"@, 256) is Ok,
        store::now_at(replies, placed) == Ok::<Seq<char>, StepView>(time),
        is_change(replies, placed + 1),
        tasks::task_at(replies, placed + 2, id) == Ok::<(Option<JsonView>, int), StepView>(
            (now, end),
        ),
    ensures
        task_edits::task_moved(replies, key, body) == shown(200, "task"@, json::or_null(now)),
{
    reveal(task_edits::task_moved);
}

/// A task is archived where it is current, and restored where it is archived, too; and it is deleted
/// where its files are known.
pub proof fn law_task_is_archived_or_deleted(
    replies: Seq<ReplyView>,
    key: Seq<char>,
    body: JsonView,
    task: JsonView,
    version: int,
    next: int,
    id: Seq<char>,
    archived: bool,
    time: Seq<char>,
    now: Option<JsonView>,
    end: int,
    found: Seq<Seq<(Seq<char>, SqlView)>>,
)
    requires
        task_edits::current_task(replies, key, body) == Ok::<(JsonView, int, int), StepView>(
            (task, version, next),
        ),
        0 <= next < replies.len(),
        json::text_field(task, "id"@) == Some(id),
    ensures
        (archived || !(json::field(task, "archivedAt"@) is None || json::field(task, "archivedAt"@)
            == Some(JsonView::Null))) && fields::text_of(body, "threadId"@, 256) is Ok
            && store::now_at(replies, next) == Ok::<Seq<char>, StepView>(time) && is_change(
            replies,
            next + 1,
        ) && tasks::task_at(replies, next + 2, id) == Ok::<(Option<JsonView>, int), StepView>(
            (now, end),
        ) ==> task_edits::task_archived(replies, key, body, archived) == shown(
            200,
            "task"@,
            json::or_null(now),
        ),
        stepping::tells_rows(replies[next], found) && store::first_texts(found) is Ok && is_change(
            replies,
            next + 1,
        ) && is_done(replies, next + 2) ==> task_edits::task_deleted(replies, key, body) == Ok::<
            ResponseView,
            StepView,
        >(ResponseView::Empty(204)),
{
    reveal(task_edits::task_archived);
    reveal(task_edits::task_deleted);
}

/// A comment is added where its task is there and its fields are accepted, and changed where it is
/// current.
pub proof fn law_comment_is_written(
    replies: Seq<ReplyView>,
    key: Seq<char>,
    body: JsonView,
    actor: ActorView,
    task: JsonView,
    version: int,
    next: int,
    id: Seq<char>,
    time: Seq<char>,
    now: Option<JsonView>,
    end: int,
)
    requires
        fields::text_of(body, "body"@, 100_000) is Ok,
        fields::text_of(body, "threadId"@, 256) is Ok,
    ensures
        tasks::task_at(replies, 0, key) == Ok::<(Option<JsonView>, int), StepView>(
            (Some(task), next),
        ) && json::text_field(task, "id"@) is Some && store::id_at(replies, next) == Ok::<
            Seq<char>,
            StepView,
        >(id) && store::now_at(replies, next + 1) == Ok::<Seq<char>, StepView>(time) && is_change(
            replies,
            next + 2,
        ) && comments::comment_at(replies, next + 3, id) == Ok::<(Option<JsonView>, int), StepView>(
            (now, end),
        ) ==> comments::comment_created(replies, key, body, actor) == shown(
            201,
            "comment"@,
            json::or_null(now),
        ),
        comments::current_comment(replies, key, body) == Ok::<(int, int), StepView>((version, next))
            && store::now_at(replies, next) == Ok::<Seq<char>, StepView>(time) && is_change(
            replies,
            next + 1,
        ) && comments::comment_at(replies, next + 2, key) == Ok::<
            (Option<JsonView>, int),
            StepView,
        >((now, end)) ==> comments::comment_updated(replies, key, body) == shown(
            200,
            "comment"@,
            json::or_null(now),
        ),
{
}

/// A file is attached where its task is there and its name is accepted, and deleted where it is
/// there.
pub proof fn law_file_is_attached(
    replies: Seq<ReplyView>,
    key: Seq<char>,
    request: RequestView,
    task: JsonView,
    next: int,
    id: Seq<char>,
    time: Seq<char>,
    now: Option<JsonView>,
    file: JsonView,
)
    ensures
        tasks::task_at(replies, 0, key) == Ok::<(Option<JsonView>, int), StepView>(
            (Some(task), next),
        ) && json::text_field(task, "id"@) is Some && comments::filename_of(request.headers) is Ok
            && store::id_at(replies, next) == Ok::<Seq<char>, StepView>(id) && is_done(
            replies,
            next + 1,
        ) && store::now_at(replies, next + 2) == Ok::<Seq<char>, StepView>(time) && is_change(
            replies,
            next + 3,
        ) && comments::attachment_at(replies, next + 4, id) == Ok::<Option<JsonView>, StepView>(now)
            ==> comments::attachment_created(replies, 0, key, None, request) == shown(
            201,
            "attachment"@,
            json::or_null(now),
        ),
        comments::attachment_at(replies, 0, key) == Ok::<Option<JsonView>, StepView>(Some(file))
            && is_change(replies, 1) && is_done(replies, 2) ==> comments::attachment_deleted(
            replies,
            key,
        ) == Ok::<ResponseView, StepView>(ResponseView::Empty(204)),
{
}

/// A project is created where its fields are accepted and it was not there, archived and deleted
/// where it is there and not the one that is always there.
pub proof fn law_project_is_written(
    replies: Seq<ReplyView>,
    body: JsonView,
    name: Seq<char>,
    asked: Option<Seq<char>>,
    time: Seq<char>,
    project: JsonView,
    now: Option<JsonView>,
    id: Seq<char>,
    found: Seq<Seq<(Seq<char>, SqlView)>>,
)
    requires
        replies.len() > 1,
    ensures
        fields::required_text(body, "name"@, 120) == Ok::<Seq<char>, Seq<char>>(name)
            && fields::text_of(body, "id"@, 64) == Ok::<Option<Seq<char>>, Seq<char>>(asked)
            && fields::text_of(body, "workspacePath"@, 4096) is Ok && id == (if asked is Some
            && asked->0.len() > 0 {
            asked->0
        } else {
            ids::slug(name)
        }) && ids::project_id_form(id) && store::now_at(replies, 0) == Ok::<Seq<char>, StepView>(
            time,
        ) && replies[1] == ReplyView::Changed(1) && projects::project_at(replies, 2, id, false)
            == Ok::<Option<JsonView>, StepView>(Some(project)) ==> projects::project_created(
            replies,
            body,
        ) == shown(201, "project"@, project),
        id != "local"@ && projects::project_at(replies, 0, id, false) == Ok::<
            Option<JsonView>,
            StepView,
        >(Some(project)) ==> {
            &&& store::now_at(replies, 1) == Ok::<Seq<char>, StepView>(time) && is_change(replies, 2)
                && projects::project_at(replies, 3, id, true) == Ok::<Option<JsonView>, StepView>(
                now,
            ) ==> projects::project_archived(replies, id) == shown(
                200,
                "project"@,
                json::or_null(now),
            )
            &&& stepping::tells_rows(replies[1], found) && store::first_texts(found) is Ok
                && is_change(replies, 2) && is_change(replies, 3) && is_done(replies, 4)
                ==> projects::project_deleted(replies, id) == Ok::<ResponseView, StepView>(
                ResponseView::Empty(204),
            )
        },
{
}

/// A thread is created where its project has a directory, its task is one of that, and its settings
/// are accepted; it is changed where it rests and something is to be changed, and deleted where it
/// rests.
pub proof fn law_thread_is_written(
    replies: Seq<ReplyView>,
    body: JsonView,
    project_id: Seq<char>,
    workspace: AiWorkspaceView,
    issue: Option<JsonView>,
    next: int,
    defaults: (Seq<char>, Seq<char>),
    manner: MannerView,
    id: Seq<char>,
    time: Seq<char>,
    now: Option<JsonView>,
    end: int,
    thread: JsonView,
    changes: ChangesView,
)
    ensures
        fields::required_text(body, "projectId"@, 64) == Ok::<Seq<char>, Seq<char>>(project_id)
            && ai_models::workspace_at(replies, project_id) == Ok::<AiWorkspaceView, StepView>(
            workspace,
        ) && ai_threads::issue_at(replies, 2, project_id, body) == Ok::<
            (Option<JsonView>, int),
            StepView,
        >((issue, next)) && ai_models::configured_at(replies, next) == Ok::<
            (Seq<char>, Seq<char>),
            StepView,
        >(defaults) && ai_threads::manner(body, issue, defaults) == Ok::<MannerView, StepView>(
            manner,
        ) && fields::text_of(body, "codexThreadId"@, 256) is Ok && store::id_at(replies, next + 1)
            == Ok::<Seq<char>, StepView>(id) && store::now_at(replies, next + 2) == Ok::<
            Seq<char>,
            StepView,
        >(time) && is_change(replies, next + 3) && ai_threads::thread_at(replies, next + 4, id)
            == Ok::<(Option<JsonView>, int), StepView>((now, end)) ==> ai_threads::thread_created(
            replies,
            body,
        ) == shown(201, "thread"@, json::or_null(now)),
        ai_threads::resting_thread(replies, id) == Ok::<(JsonView, int), StepView>((thread, next))
            ==> {
            &&& ai_threads::thread_changes(body) == Ok::<ChangesView, StepView>(changes)
                && changes.assignments.len() > 0 && store::now_at(replies, next) == Ok::<
                Seq<char>,
                StepView,
            >(time) && is_change(replies, next + 1) && ai_threads::thread_at(replies, next + 2, id)
                == Ok::<(Option<JsonView>, int), StepView>((now, end))
                ==> ai_threads::thread_updated(replies, id, body) == shown(
                200,
                "thread"@,
                json::or_null(now),
            )
            &&& is_change(replies, next) ==> ai_threads::thread_deleted(replies, id) == Ok::<
                ResponseView,
                StepView,
            >(ResponseView::Empty(204))
        },
{
}

/// A relation is changed where both tasks are there and current, its type is known, and the store
/// made the change; both tasks are shown as they are then read.
pub proof fn law_relation_is_written(
    replies: Seq<ReplyView>,
    key: Seq<char>,
    relation_type: Seq<char>,
    other: Seq<char>,
    body: JsonView,
    adding: bool,
    pair: PairView,
    at: int,
    stored: (Seq<char>, Seq<char>, Seq<char>),
    next: int,
    time: Seq<char>,
    task: Option<JsonView>,
    behind: int,
    related: Option<JsonView>,
    end: int,
)
    requires
        relations::pair_at(replies, key, other, body) == Ok::<(PairView, int), StepView>((pair, at)),
        relations::endpoints(relation_type, pair.task_id, pair.related_task_id) == Ok::<
            (Seq<char>, Seq<char>, Seq<char>),
            Seq<char>,
        >(stored),
        relations::relation_written(replies, at, stored, pair, adding) == Ok::<int, StepView>(next),
        fields::text_of(body, "threadId"@, 256) is Ok,
        store::now_at(replies, next) == Ok::<Seq<char>, StepView>(time),
        is_change(replies, next + 1),
        tasks::task_at(replies, next + 2, pair.task_id) == Ok::<(Option<JsonView>, int), StepView>(
            (task, behind),
        ),
        tasks::task_at(replies, behind, pair.related_task_id) == Ok::<
            (Option<JsonView>, int),
            StepView,
        >((related, end)),
    ensures
        relations::relation_changed(replies, key, relation_type, other, body, adding) == Ok::<
            ResponseView,
            StepView,
        >(
            ResponseView::Json(
                200,
                JsonView::Object(
                    json::members().push(("task"@, json::or_null(task))).push(
                        ("relatedTask"@, json::or_null(related)),
                    ),
                ),
            ),
        ),
{
}

} // verus!
