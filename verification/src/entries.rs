//! That comments, projects, workflows and events are stored as they are said and shown as they are
//! stored.
//!
//! A stored entry is the sequence of the values in its columns, in the order of the schema.
use crate::ai_runs;
use crate::comments;
use crate::exchange::{ActionView, ReplyView, ResponseView, SqlView, StatementView, StepView};
use crate::fields;
use crate::fields::ActorView;
use crate::ids;
use crate::json;
use crate::json::JsonView;
use crate::projects;
use crate::rows;
use crate::rows::Kind;
use crate::sending;
use crate::store;
use crate::talks;
use crate::tasks;
use vstd::prelude::*;

verus! {

/// The columns of a comment.
pub open spec fn comment_columns() -> Seq<Seq<char>> {
    seq![
        "id"@,
        "task_id"@,
        "body"@,
        "thread_id"@,
        "author_type"@,
        "author_id"@,
        "author_name"@,
        "author_avatar_url"@,
        "version"@,
        "created_at"@,
        "updated_at"@,
    ]
}

/// What the columns of a comment hold.
pub open spec fn comment_kinds() -> Seq<Kind> {
    seq![
        Kind::Text,
        Kind::Text,
        Kind::Text,
        Kind::OptionalText,
        Kind::Text,
        Kind::Text,
        Kind::Text,
        Kind::OptionalText,
        Kind::Integer,
        Kind::Text,
        Kind::Text,
    ]
}

proof fn lemma_comment_columns_differ(i: int, j: int)
    requires
        0 <= j < i < 11,
    ensures
        comment_columns()[i] != comment_columns()[j],
{
    reveal_strlit("id");
    reveal_strlit("task_id");
    reveal_strlit("body");
    reveal_strlit("thread_id");
    reveal_strlit("author_type");
    reveal_strlit("author_id");
    reveal_strlit("author_name");
    reveal_strlit("author_avatar_url");
    reveal_strlit("version");
    reveal_strlit("created_at");
    reveal_strlit("updated_at");
    let a = comment_columns()[i];
    let b = comment_columns()[j];
    assert(a.len() != b.len() || a[0] != b[0] || a[a.len() - 4] != b[b.len() - 4]);
}

/// A comment as it is shown with attachments.
pub open spec fn shown_comment(values: Seq<SqlView>, attachments: Seq<JsonView>) -> JsonView {
    let kinds = comment_kinds();
    JsonView::Object(
        seq![
            ("id"@, talks::cell(values, kinds, 0)),
            ("taskId"@, talks::cell(values, kinds, 1)),
            ("body"@, talks::cell(values, kinds, 2)),
            ("threadId"@, talks::cell(values, kinds, 3)),
            ("authorType"@, talks::cell(values, kinds, 4)),
            ("authorId"@, talks::cell(values, kinds, 5)),
            ("authorName"@, talks::cell(values, kinds, 6)),
            ("authorAvatarUrl"@, talks::cell(values, kinds, 7)),
            ("attachments"@, JsonView::Array(attachments)),
            ("version"@, talks::cell(values, kinds, 8)),
            ("createdAt"@, talks::cell(values, kinds, 9)),
            ("updatedAt"@, talks::cell(values, kinds, 10)),
        ],
    )
}

/// A comment shows each column of its row, with the attachments that are found.
pub proof fn law_comment_is_shown_as_stored(
    values: Seq<SqlView>,
    table: Seq<Seq<(Seq<char>, SqlView)>>,
)
    requires
        talks::fits(values, comment_kinds()),
        comments::attachments_in(table) is Ok,
    ensures
        comments::comment_of_row(talks::named_row(comment_columns(), values), table) == Ok::<
            JsonView,
            Seq<char>,
        >(shown_comment(values, comments::attachments_in(table)->Ok_0)),
{
    let columns = comment_columns();
    let kinds = comment_kinds();
    let row = talks::named_row(columns, values);
    assert forall|i: int, j: int| 0 <= j < i < 11 implies #[trigger] columns[i]
        != #[trigger] columns[j] by {
        lemma_comment_columns_differ(i, j);
    }
    talks::lemma_plan(
        columns,
        kinds,
        values,
        comments::comment_plan(),
        Seq::new(8, |i: int| i),
    );
    talks::lemma_plan(columns, kinds, values, comments::comment_tail_plan(), seq![8int, 9, 10]);
    let shown = comments::comment_of_row(row, table);
    assert(shown is Ok);
    assert(shown->Ok_0->Object_0 =~= shown_comment(
        values,
        comments::attachments_in(table)->Ok_0,
    )->Object_0);
}

/// Whether a text is what a body says, or empty where it says nothing.
pub open spec fn is_said_or_empty(body: JsonView, key: Seq<char>, limit: nat, said: Seq<char>) -> bool {
    ||| sending::is_said(body, key, limit, Some(said))
    ||| sending::is_said(body, key, limit, None) && said.len() == 0
}

/// Whether a statement adds a comment to a task that says what a body says, by an actor.
pub open spec fn writes_comment(
    w: StatementView,
    id: Seq<char>,
    task_id: Seq<char>,
    body: JsonView,
    actor: ActorView,
) -> bool {
    &&& w.sql
        == "INSERT INTO comments (id, task_id, body, thread_id, author_type, author_id, author_name, author_avatar_url, version, created_at, updated_at)
         VALUES (?1, ?2, ?3, ?4, ?5, ?6, ?7, ?8, 1, ?9, ?9)"@
    &&& w.params.len() == 9
    &&& w.params[0] == SqlView::Text(id)
    &&& w.params[1] == SqlView::Text(task_id)
    &&& w.params[2] is Text && is_said_or_empty(body, "body"@, 100_000, w.params[2]->Text_0)
    &&& w.params[3] == sending::cell(sending::held(w.params[3])) && sending::is_said(
        body,
        "threadId"@,
        256,
        sending::held(w.params[3]),
    )
    &&& w.params[4] == SqlView::Text(actor.kind)
    &&& w.params[5] == SqlView::Text(actor.id)
    &&& w.params[6] == SqlView::Text(actor.name)
    &&& w.params[7] == sending::cell(actor.avatar_url)
    &&& w.params[8] is Text
}

/// A comment is added to the task that is named, under a fresh identifier, by whoever sends the
/// request, and says what the body says.
pub proof fn law_comment_is_written_as_said(
    replies: Seq<ReplyView>,
    key: Seq<char>,
    body: JsonView,
    actor: ActorView,
    w: StatementView,
)
    requires
        comments::comment_created(replies, key, body, actor) == Err::<ResponseView, StepView>(
            StepView::Ask(ActionView::Write(w)),
        ),
    ensures
        ({
            let task = tasks::task_at(replies, 0, key);
            let at = (task->Ok_0).1;
            &&& task is Ok && (task->Ok_0).0 is Some
            &&& json::text_field((task->Ok_0).0->0, "id"@) is Some
            &&& at < replies.len() && replies[at] is Text
            &&& writes_comment(
                w,
                replies[at]->Text_0,
                json::text_field((task->Ok_0).0->0, "id"@)->0,
                body,
                actor,
            )
        }),
{
    sending::law_text_is_read_as_said(body, "body"@, 100_000);
    sending::law_text_is_read_as_said(body, "threadId"@, 256);
}

/// The values of the comment that a statement with these parameters adds.
pub open spec fn inserted_comment(p: Seq<SqlView>) -> Seq<SqlView> {
    p.take(8).push(SqlView::Integer(1)).push(p[8]).push(p[8])
}

/// A comment that was added is shown as it was said, in its first version.
pub proof fn law_new_comment_is_shown_as_said(
    w: StatementView,
    id: Seq<char>,
    task_id: Seq<char>,
    body: JsonView,
    actor: ActorView,
)
    requires
        writes_comment(w, id, task_id, body, actor),
    ensures
        talks::fits(inserted_comment(w.params), comment_kinds()),
        ({
            let shown = shown_comment(inserted_comment(w.params), Seq::empty())->Object_0;
            &&& shown[0].1 == JsonView::Text(id)
            &&& shown[1].1 == JsonView::Text(task_id)
            &&& shown[2].1 is Text && is_said_or_empty(
                body,
                "body"@,
                100_000,
                shown[2].1->Text_0,
            )
            &&& shown[4].1 == JsonView::Text(actor.kind)
            &&& shown[5].1 == JsonView::Text(actor.id)
            &&& shown[6].1 == JsonView::Text(actor.name)
            &&& shown[9].1 == JsonView::Integer(1)
        }),
{
    let values = inserted_comment(w.params);
    let kinds = comment_kinds();
    assert forall|k: int| 0 <= k < 11 implies rows::of_kind(#[trigger] values[k], kinds[k]) is Some by {
    }
}

/// A comment is changed only in the version that is named, and to what the body says; a thread is
/// kept unless another is named.
pub proof fn law_comment_change_is_written_as_said(
    replies: Seq<ReplyView>,
    id: Seq<char>,
    body: JsonView,
    w: StatementView,
)
    requires
        comments::comment_updated(replies, id, body) == Err::<ResponseView, StepView>(
            StepView::Ask(ActionView::Write(w)),
        ),
    ensures
        w.sql
            == "UPDATE comments SET body = ?1, thread_id = COALESCE(?2, thread_id), version = version + 1, updated_at = ?3 WHERE id = ?4 AND version = ?5"@,
        w.params.len() == 5,
        w.params[0] is Text && is_said_or_empty(body, "body"@, 100_000, w.params[0]->Text_0),
        w.params[1] == sending::cell(sending::held(w.params[1])) && sending::is_said(
            body,
            "threadId"@,
            256,
            sending::held(w.params[1]),
        ),
        w.params[2] is Text,
        w.params[3] == SqlView::Text(id),
        json::integer_field(body, "version"@) is Some,
        w.params[4] == SqlView::Integer(json::integer_field(body, "version"@)->0),
{
    sending::law_text_is_read_as_said(body, "body"@, 100_000);
    sending::law_text_is_read_as_said(body, "threadId"@, 256);
}

/// A comment is deleted only in the version that is named.
pub proof fn law_comment_deletion_is_written(
    replies: Seq<ReplyView>,
    id: Seq<char>,
    body: JsonView,
    w: StatementView,
)
    requires
        comments::comment_deleted(replies, id, body) == Err::<ResponseView, StepView>(
            StepView::Ask(ActionView::Write(w)),
        ),
    ensures
        w.sql == "DELETE FROM comments WHERE id = ?1 AND version = ?2"@,
        w.params.len() == 2,
        w.params[0] == SqlView::Text(id),
        json::integer_field(body, "version"@) is Some,
        w.params[1] == SqlView::Integer(json::integer_field(body, "version"@)->0),
{
}

proof fn lemma_identified(found: Seq<Seq<(Seq<char>, SqlView)>>)
    ensures
        0 <= comments::identified(found) <= found.len(),
        forall|k: int|
            0 <= k < comments::identified(found) ==> comments::comment_id_of(
                #[trigger] found[k],
            ) is Ok,
    decreases found.len(),
{
    if found.len() > 0 && comments::comment_id_of(found[0]) is Ok {
        let rest = found.drop_first();
        lemma_identified(rest);
        assert forall|k: int| 0 <= k < comments::identified(found) implies comments::comment_id_of(
            #[trigger] found[k],
        ) is Ok by {
            if k > 0 {
                assert(rest[k - 1] == found[k]);
            }
        }
    }
}

proof fn lemma_comments_in(
    found: Seq<Seq<(Seq<char>, SqlView)>>,
    tables: Seq<Seq<Seq<(Seq<char>, SqlView)>>>,
    n: int,
)
    requires
        0 <= n <= found.len(),
        comments::comments_in(found.take(n), tables) is Ok,
    ensures
        ({
            let shown = comments::comments_in(found.take(n), tables)->Ok_0;
            &&& shown.len() == n
            &&& forall|i: int|
                0 <= i < n ==> comments::comment_of_row(found[i], tables[i]) == Ok::<
                    JsonView,
                    Seq<char>,
                >(#[trigger] shown[i])
        }),
    decreases n,
{
    if n > 0 {
        assert(found.take(n).drop_last() =~= found.take(n - 1));
        lemma_comments_in(found, tables, n - 1);
        let before = comments::comments_in(found.take(n - 1), tables)->Ok_0;
        let shown = comments::comments_in(found.take(n), tables)->Ok_0;
        assert(found.take(n).last() == found[n - 1]);
        assert(shown == before.push(shown[n - 1]));
        assert forall|i: int| 0 <= i < n implies comments::comment_of_row(found[i], tables[i])
            == Ok::<JsonView, Seq<char>>(#[trigger] shown[i]) by {
            if i < n - 1 {
                assert(before[i] == shown[i]);
            }
        }
    }
}

/// The comments of a task are shown row by row, all of them and in the order in which they are found,
/// each with the attachments that are found for it and for no other.
pub proof fn law_comments_are_listed_one_by_one(replies: Seq<ReplyView>, at: int, task_id: Seq<char>)
    requires
        0 <= at,
        comments::comments_at(replies, at, task_id) is Ok,
    ensures
        at + 2 <= replies.len(),
        replies[at] is Tables && replies[at + 1] is Tables,
        ({
            let shown = comments::comments_at(replies, at, task_id)->Ok_0;
            let found = replies[at]->Tables_0[0];
            let tables = replies[at + 1]->Tables_0;
            &&& shown.len() == found.len()
            &&& tables.len() == found.len()
            &&& forall|i: int|
                0 <= i < shown.len() ==> comments::comment_of_row(found[i], tables[i]) == Ok::<
                    JsonView,
                    Seq<char>,
                >(#[trigger] shown[i])
        }),
{
    let found = replies[at]->Tables_0[0];
    let n = comments::identified(found);
    assert(comments::attachment_queries(found).len() == found.take(n).len());
    lemma_identified(found);
    assert(n == found.len());
    assert(found.take(n) =~= found);
    lemma_comments_in(found, replies[at + 1]->Tables_0, n);
}

/// For each comment that is found, the attachments of this comment are asked for.
pub proof fn law_attachments_are_asked_for_comment_by_comment(
    replies: Seq<ReplyView>,
    at: int,
    task_id: Seq<char>,
    queries: Seq<StatementView>,
)
    requires
        0 <= at,
        replies.len() == at + 1,
        comments::comments_at(replies, at, task_id) == Err::<Seq<JsonView>, StepView>(
            StepView::Ask(ActionView::Read(queries)),
        ),
    ensures
        ({
            let found = replies[at]->Tables_0[0];
            &&& replies[at] is Tables
            &&& queries.len() <= found.len()
            &&& forall|i: int|
                0 <= i < queries.len() ==> (#[trigger] queries[i]).sql
                    == "SELECT * FROM attachments WHERE comment_id = ?1 ORDER BY created_at, id"@
                    && queries[i].params.len() == 1 && rows::column_value(
                    found[i],
                    "id"@,
                    Kind::Text,
                ) is Ok && queries[i].params[0] == SqlView::Text(
                    tasks::text_or_empty(rows::column_value(found[i], "id"@, Kind::Text)->Ok_0),
                )
        }),
{
    let found = replies[at]->Tables_0[0];
    let n = comments::identified(found);
    lemma_identified(found);
    assert(queries == comments::attachment_queries(found));
    assert forall|i: int| 0 <= i < queries.len() implies (#[trigger] queries[i]).sql
        == "SELECT * FROM attachments WHERE comment_id = ?1 ORDER BY created_at, id"@
        && queries[i].params.len() == 1 && rows::column_value(found[i], "id"@, Kind::Text) is Ok
        && queries[i].params[0] == SqlView::Text(
        tasks::text_or_empty(rows::column_value(found[i], "id"@, Kind::Text)->Ok_0),
    ) by {
        assert(queries[i] == comments::attachment_query(found[i]));
        assert(comments::comment_id_of(found[i]) is Ok);
    }
}

/// The columns of a project as it is read, with the number of its tasks.
pub open spec fn project_columns() -> Seq<Seq<char>> {
    seq![
        "id"@,
        "name"@,
        "workspace_path"@,
        "archived_at"@,
        "created_at"@,
        "updated_at"@,
        "issue_count"@,
    ]
}

/// What the columns of a project hold.
pub open spec fn project_kinds() -> Seq<Kind> {
    seq![
        Kind::Text,
        Kind::Text,
        Kind::OptionalText,
        Kind::OptionalText,
        Kind::Text,
        Kind::Text,
        Kind::Integer,
    ]
}

/// A project shows each column of its row.
pub proof fn law_project_is_shown_as_stored(values: Seq<SqlView>)
    requires
        talks::fits(values, project_kinds()),
    ensures
        projects::project_of_row(talks::named_row(project_columns(), values)) == Ok::<
            JsonView,
            Seq<char>,
        >(
            JsonView::Object(
                seq![
                    ("id"@, talks::cell(values, project_kinds(), 0)),
                    ("name"@, talks::cell(values, project_kinds(), 1)),
                    ("workspacePath"@, talks::cell(values, project_kinds(), 2)),
                    ("archivedAt"@, talks::cell(values, project_kinds(), 3)),
                    ("issueCount"@, talks::cell(values, project_kinds(), 6)),
                    ("createdAt"@, talks::cell(values, project_kinds(), 4)),
                    ("updatedAt"@, talks::cell(values, project_kinds(), 5)),
                ],
            ),
        ),
{
    let columns = project_columns();
    let kinds = project_kinds();
    let row = talks::named_row(columns, values);
    assert forall|i: int, j: int| 0 <= j < i < 7 implies #[trigger] columns[i]
        != #[trigger] columns[j] by {
        reveal_strlit("id");
        reveal_strlit("name");
        reveal_strlit("workspace_path");
        reveal_strlit("archived_at");
        reveal_strlit("created_at");
        reveal_strlit("updated_at");
        reveal_strlit("issue_count");
        let a = columns[i];
        let b = columns[j];
        assert(a.len() != b.len() || a[0] != b[0]);
    }
    talks::lemma_plan(
        columns,
        kinds,
        values,
        projects::project_plan(),
        seq![0int, 1, 2, 3, 6, 4, 5],
    );
    let shown = projects::project_of_row(row);
    assert(shown is Ok);
    assert(shown->Ok_0->Object_0 =~= seq![
        ("id"@, talks::cell(values, kinds, 0)),
        ("name"@, talks::cell(values, kinds, 1)),
        ("workspacePath"@, talks::cell(values, kinds, 2)),
        ("archivedAt"@, talks::cell(values, kinds, 3)),
        ("issueCount"@, talks::cell(values, kinds, 6)),
        ("createdAt"@, talks::cell(values, kinds, 4)),
        ("updatedAt"@, talks::cell(values, kinds, 5)),
    ]);
}

/// The list of projects shows every project that is found, in the order in which it is found, and asks
/// for those that are not archived.
pub proof fn law_projects_are_listed_one_by_one(replies: Seq<ReplyView>)
    requires
        projects::projects_at(replies, 0) is Ok,
    ensures
        replies.len() >= 1,
        replies[0] is Tables,
        ({
            let found = replies[0]->Tables_0[0];
            let shown = projects::projects_at(replies, 0)->Ok_0;
            &&& shown.len() == found.len()
            &&& forall|i: int|
                0 <= i < found.len() ==> projects::project_of_row(#[trigger] found[i]) == Ok::<
                    JsonView,
                    Seq<char>,
                >(shown[i])
        }),
{
    let read = |row: Seq<(Seq<char>, SqlView)>| projects::project_of_row(row);
    lemma_each_row(replies[0]->Tables_0[0], read);
}

/// The events of a thread are shown one by one, all of them and in the order in which they are found,
/// and so are its runs.
pub proof fn law_events_and_runs_are_listed_one_by_one(
    replies: Seq<ReplyView>,
    at: int,
    thread_id: Seq<char>,
)
    requires
        0 <= at < replies.len(),
    ensures
        ai_runs::events_at(replies, at, thread_id) is Ok ==> ({
            let found = replies[at]->Tables_0[0];
            let shown = ai_runs::events_at(replies, at, thread_id)->Ok_0;
            &&& shown.len() == found.len()
            &&& forall|i: int|
                0 <= i < found.len() ==> ai_runs::event_of_row(#[trigger] found[i]) == Ok::<
                    JsonView,
                    Seq<char>,
                >(shown[i])
        }),
        ai_runs::runs_at(replies, at, thread_id) is Ok ==> ({
            let found = replies[at]->Tables_0[0];
            let shown = ai_runs::runs_at(replies, at, thread_id)->Ok_0;
            &&& shown.len() == found.len()
            &&& forall|i: int|
                0 <= i < found.len() ==> ai_runs::run_of_row(#[trigger] found[i]) == Ok::<
                    JsonView,
                    Seq<char>,
                >(shown[i])
        }),
{
    let found = replies[at]->Tables_0[0];
    if ai_runs::events_at(replies, at, thread_id) is Ok {
        lemma_each_row(found, |row: Seq<(Seq<char>, SqlView)>| ai_runs::event_of_row(row));
    }
    if ai_runs::runs_at(replies, at, thread_id) is Ok {
        lemma_each_row(found, |row: Seq<(Seq<char>, SqlView)>| ai_runs::run_of_row(row));
    }
}

proof fn lemma_each_row(
    found: Seq<Seq<(Seq<char>, SqlView)>>,
    read: spec_fn(Seq<(Seq<char>, SqlView)>) -> Result<JsonView, Seq<char>>,
)
    requires
        rows::each_row(found, read) is Ok,
    ensures
        rows::each_row(found, read)->Ok_0.len() == found.len(),
        forall|i: int|
            0 <= i < found.len() ==> read(#[trigger] found[i]) == Ok::<JsonView, Seq<char>>(
                rows::each_row(found, read)->Ok_0[i],
            ),
    decreases found.len(),
{
    if found.len() > 0 {
        let less = found.drop_last();
        lemma_each_row(less, read);
        let shown = rows::each_row(found, read)->Ok_0;
        let fewer = rows::each_row(less, read)->Ok_0;
        assert(shown == fewer.push(shown.last()));
        assert forall|i: int| 0 <= i < found.len() implies read(#[trigger] found[i]) == Ok::<
            JsonView,
            Seq<char>,
        >(shown[i]) by {
            if i < less.len() {
                assert(less[i] == found[i]);
                assert(fewer[i] == shown[i]);
            }
        }
    }
}

/// A project is added under the identifier that is asked for, or else under one that is made of its
/// name, with the name and the workspace that the body says.
pub proof fn law_project_is_written_as_said(
    replies: Seq<ReplyView>,
    body: JsonView,
    w: StatementView,
)
    requires
        projects::project_created(replies, body) == Err::<ResponseView, StepView>(
            StepView::Ask(ActionView::Write(w)),
        ),
    ensures
        w.sql
            == "INSERT OR IGNORE INTO projects (id, name, workspace_path, next_task_number, created_at, updated_at)
         VALUES (?1, ?2, ?3, 1, ?4, ?4)"@,
        w.params.len() == 4,
        w.params[1] is Text && sending::is_said(body, "name"@, 120, Some(w.params[1]->Text_0))
            && w.params[1]->Text_0.len() > 0,
        w.params[0] is Text && ids::project_id_form(w.params[0]->Text_0),
        is_said_or_empty(body, "id"@, 64, Seq::empty()) ==> w.params[0]->Text_0 == ids::slug(
            w.params[1]->Text_0,
        ),
        !is_said_or_empty(body, "id"@, 64, Seq::empty()) ==> sending::is_said(
            body,
            "id"@,
            64,
            Some(w.params[0]->Text_0),
        ),
        w.params[2] == sending::cell(sending::held(w.params[2])) && sending::is_said(
            body,
            "workspacePath"@,
            4096,
            sending::held(w.params[2]),
        ),
        w.params[3] is Text,
{
    sending::law_text_is_read_as_said(body, "name"@, 120);
    sending::law_text_is_read_as_said(body, "id"@, 64);
    sending::law_text_is_read_as_said(body, "workspacePath"@, 4096);
    match fields::text_of(body, "id"@, 64)->Ok_0 {
        Some(asked) => {
            if asked.len() == 0 {
                assert(asked =~= Seq::empty());
            } else {
                let s = json::text_field(body, "id"@)->0;
                lemma_one_inner(asked, Seq::empty(), s);
            }
        },
        None => {},
    }
}

/// No text is left empty and not empty without the white space around it.
proof fn lemma_one_inner(inner: Seq<char>, other: Seq<char>, s: Seq<char>)
    requires
        sending::is_inner(inner, s),
        inner.len() > 0,
        other.len() == 0,
    ensures
        !sending::is_inner(other, s),
{
    if sending::is_inner(other, s) {
        let at = choose|at: int| sending::stands_at(inner, s, at);
        let there = choose|at: int| sending::stands_at(other, s, at);
        assert(sending::stands_at(inner, s, at) && sending::stands_at(other, s, there));
        assert(s[at] == inner[0]);
    }
}

/// A project is archived at a time, and only where it is not archived yet.
pub proof fn law_project_is_archived_by_its_identifier(
    replies: Seq<ReplyView>,
    project_id: Seq<char>,
    w: StatementView,
)
    requires
        projects::project_archived(replies, project_id) == Err::<ResponseView, StepView>(
            StepView::Ask(ActionView::Write(w)),
        ),
    ensures
        project_id != "local"@,
        w.sql
            == "UPDATE projects SET archived_at = ?1, updated_at = ?1 WHERE id = ?2 AND archived_at IS NULL"@,
        w.params.len() == 2,
        w.params[0] is Text,
        w.params[1] == SqlView::Text(project_id),
{
}

/// What is deleted with a project are the tasks of this project, then the project itself, and then
/// the files of the attachments that were found; the default project is not deleted.
pub proof fn law_project_is_deleted_with_its_tasks(
    replies: Seq<ReplyView>,
    project_id: Seq<char>,
    action: ActionView,
)
    requires
        projects::project_deleted(replies, project_id) == Err::<ResponseView, StepView>(
            StepView::Ask(action),
        ),
    ensures
        project_id != "local"@,
        replies.len() == 2 ==> action == ActionView::Write(
            StatementView {
                sql: "DELETE FROM tasks WHERE project_id = ?1"@,
                params: seq![SqlView::Text(project_id)],
            },
        ),
        replies.len() == 3 ==> action == ActionView::Write(
            StatementView {
                sql: "DELETE FROM projects WHERE id = ?1"@,
                params: seq![SqlView::Text(project_id)],
            },
        ),
        replies.len() == 4 ==> action is RemoveAttachments && replies[1] is Tables
            && store::first_texts(replies[1]->Tables_0[0]) == Ok::<Seq<Seq<char>>, Seq<char>>(
            action->RemoveAttachments_0,
        ),
        replies.len() == 1 ==> action == ActionView::Read(
            seq![
                StatementView {
                    sql: "SELECT attachments.id FROM attachments JOIN tasks ON tasks.id = attachments.task_id WHERE tasks.project_id = ?1"@,
                    params: seq![SqlView::Text(project_id)],
                },
            ],
        ),
{
    assert(store::params().push(store::text_param(project_id)) =~= seq![
        SqlView::Text(project_id),
    ]);
}

/// A workflow is stored under its project as the workspace that the body holds: anew in its first
/// version, where none is stored, else in place of the one in the version that is named, one up.
pub proof fn law_workflow_is_written_as_said(
    replies: Seq<ReplyView>,
    project_id: Seq<char>,
    body: JsonView,
    w: StatementView,
)
    requires
        projects::workflow_saved(replies, project_id, body) == Err::<ResponseView, StepView>(
            StepView::Ask(ActionView::Write(w)),
        ),
    ensures
        ({
            let workspace = SqlView::Text(
                json::json_text(
                    match json::field(body, "workspace"@) {
                        Some(v) => v,
                        None => JsonView::Null,
                    },
                ),
            );
            let current = store::single_integer(replies[1]->Tables_0[0])->Ok_0;
            &&& replies.len() == 3 && replies[1] is Tables
            &&& if current is Some {
                &&& json::integer_field(body, "version"@) == current
                &&& w.sql
                    == "UPDATE workflow_workspaces SET workspace = ?1, version = version + 1, updated_at = ?2 WHERE project_id = ?3"@
                &&& w.params.len() == 3
                &&& w.params[0] == workspace
                &&& w.params[1] is Text
                &&& w.params[2] == SqlView::Text(project_id)
            } else {
                &&& w.sql
                    == "INSERT INTO workflow_workspaces (project_id, workspace, version, updated_at) VALUES (?1, ?2, 1, ?3)"@
                &&& w.params.len() == 3
                &&& w.params[0] == SqlView::Text(project_id)
                &&& w.params[1] == workspace
                &&& w.params[2] is Text
            }
        }),
{
}

/// A workflow that is stored is shown as its row holds it, under its project; where none is stored,
/// the version is zero and there is no workspace.
pub proof fn law_workflow_is_shown_as_stored(
    replies: Seq<ReplyView>,
    at: int,
    project_id: Seq<char>,
    workspace: Seq<char>,
    version: int,
    time: Option<Seq<char>>,
)
    requires
        0 <= at,
        projects::workflow_at(replies, at, project_id) is Ok,
        projects::workflow_at(replies, at, project_id)->Ok_0 is Some,
    ensures
        at + 2 <= replies.len(),
        replies[at + 1] is Tables,
        ({
            let stored = replies[at + 1]->Tables_0[0];
            let shown = (projects::workflow_at(replies, at, project_id)->Ok_0)->0;
            &&& stored.len() == 0 ==> shown == JsonView::Object(
                seq![
                    ("projectId"@, JsonView::Text(project_id)),
                    ("workspace"@, JsonView::Null),
                    ("version"@, JsonView::Integer(0)),
                    ("updatedAt"@, JsonView::Null),
                ],
            )
            &&& stored.len() > 0 && stored[0] == talks::named_row(
                seq!["workspace"@, "version"@, "updated_at"@],
                seq![SqlView::Text(workspace), SqlView::Integer(version), sending::cell(time)],
            ) ==> shown == JsonView::Object(
                seq![
                    ("projectId"@, JsonView::Text(project_id)),
                    ("workspace"@, json::stored_value(workspace, JsonView::Null)),
                    ("version"@, JsonView::Integer(version)),
                    (
                        "updatedAt"@,
                        match time {
                            Some(t) => JsonView::Text(t),
                            None => JsonView::Null,
                        },
                    ),
                ],
            )
        }),
{
    let stored = replies[at + 1]->Tables_0[0];
    let shown = (projects::workflow_at(replies, at, project_id)->Ok_0)->0;
    let columns = seq!["workspace"@, "version"@, "updated_at"@];
    let kinds = seq![Kind::Text, Kind::Integer, Kind::OptionalText];
    let values = seq![SqlView::Text(workspace), SqlView::Integer(version), sending::cell(time)];
    reveal_strlit("workspace");
    reveal_strlit("version");
    reveal_strlit("updated_at");
    assert("workspace"@.len() == 9 && "version"@.len() == 7 && "updated_at"@.len() == 10);
    assert forall|k: int| 0 <= k < 3 implies rows::of_kind(#[trigger] values[k], kinds[k]) is Some by {
    }
    talks::lemma_plan(columns, kinds, values, projects::workflow_plan(), seq![0int, 1, 2]);
    if stored.len() == 0 {
        assert(shown->Object_0 =~= seq![
            ("projectId"@, JsonView::Text(project_id)),
            ("workspace"@, JsonView::Null),
            ("version"@, JsonView::Integer(0)),
            ("updatedAt"@, JsonView::Null),
        ]);
    } else if stored[0] == talks::named_row(columns, values) {
        assert(shown->Object_0 =~= seq![
            ("projectId"@, JsonView::Text(project_id)),
            ("workspace"@, json::stored_value(workspace, JsonView::Null)),
            ("version"@, JsonView::Integer(version)),
            (
                "updatedAt"@,
                match time {
                    Some(t) => JsonView::Text(t),
                    None => JsonView::Null,
                },
            ),
        ]);
    }
}

/// The columns of an event.
pub open spec fn event_columns() -> Seq<Seq<char>> {
    seq![
        "id"@,
        "thread_id"@,
        "run_id"@,
        "type"@,
        "role"@,
        "content"@,
        "data"@,
        "created_at"@,
    ]
}

/// What the columns of an event hold.
pub open spec fn event_kinds() -> Seq<Kind> {
    seq![
        Kind::Text,
        Kind::Text,
        Kind::OptionalText,
        Kind::Text,
        Kind::Text,
        Kind::Text,
        Kind::OptionalText,
        Kind::Text,
    ]
}

proof fn lemma_one_column(
    columns: Seq<Seq<char>>,
    kinds: Seq<Kind>,
    values: Seq<SqlView>,
    k: int,
)
    requires
        columns.len() == kinds.len(),
        talks::fits(values, kinds),
        0 <= k < columns.len(),
        forall|i: int, j: int|
            0 <= j < i < columns.len() ==> #[trigger] columns[i] != #[trigger] columns[j],
    ensures
        rows::column_value(talks::named_row(columns, values), columns[k], kinds[k]) == Ok::<
            JsonView,
            Seq<char>,
        >(talks::cell(values, kinds, k)),
{
    reveal(talks::named_row);
    let row = talks::named_row(columns, values);
    assert(row[k].0 == columns[k]);
    assert forall|j: int| 0 <= j < k implies (#[trigger] row[j]).0 != columns[k] by {
        assert(columns[k] != columns[j]);
    }
    rows::lemma_cell_index(row, columns[k], k);
    assert(rows::of_kind(values[k], kinds[k]) is Some);
    assert(rows::of_kind(values[0], kinds[0]) is Some);
    assert(row[0].1 == values[0]);
}

/// An event shows each column of its row, with its data as it reads, or null where there is none.
pub proof fn law_event_is_shown_as_stored(values: Seq<SqlView>)
    requires
        talks::fits(values, event_kinds()),
    ensures
        ai_runs::event_of_row(talks::named_row(event_columns(), values)) == Ok::<
            JsonView,
            Seq<char>,
        >(
            JsonView::Object(
                seq![
                    ("id"@, talks::cell(values, event_kinds(), 0)),
                    ("threadId"@, talks::cell(values, event_kinds(), 1)),
                    ("runId"@, talks::cell(values, event_kinds(), 2)),
                    ("type"@, talks::cell(values, event_kinds(), 3)),
                    ("role"@, talks::cell(values, event_kinds(), 4)),
                    ("content"@, talks::cell(values, event_kinds(), 5)),
                    (
                        "data"@,
                        match values[6] {
                            SqlView::Text(raw) => json::stored_value(raw, JsonView::Null),
                            _ => JsonView::Null,
                        },
                    ),
                    ("createdAt"@, talks::cell(values, event_kinds(), 7)),
                ],
            ),
        ),
{
    let columns = event_columns();
    let kinds = event_kinds();
    let row = talks::named_row(columns, values);
    assert forall|i: int, j: int| 0 <= j < i < 8 implies #[trigger] columns[i]
        != #[trigger] columns[j] by {
        reveal_strlit("id");
        reveal_strlit("thread_id");
        reveal_strlit("run_id");
        reveal_strlit("type");
        reveal_strlit("role");
        reveal_strlit("content");
        reveal_strlit("data");
        reveal_strlit("created_at");
        let a = columns[i];
        let b = columns[j];
        assert(a.len() != b.len() || a[0] != b[0]);
    }
    talks::lemma_plan(
        columns,
        kinds,
        values,
        ai_runs::event_plan(),
        Seq::new(6, |i: int| i),
    );
    lemma_one_column(columns, kinds, values, 6);
    lemma_one_column(columns, kinds, values, 7);
    let shown = ai_runs::event_of_row(row);
    assert(shown is Ok);
    assert(shown->Ok_0->Object_0 =~= seq![
        ("id"@, talks::cell(values, kinds, 0)),
        ("threadId"@, talks::cell(values, kinds, 1)),
        ("runId"@, talks::cell(values, kinds, 2)),
        ("type"@, talks::cell(values, kinds, 3)),
        ("role"@, talks::cell(values, kinds, 4)),
        ("content"@, talks::cell(values, kinds, 5)),
        (
            "data"@,
            match values[6] {
                SqlView::Text(raw) => json::stored_value(raw, JsonView::Null),
                _ => JsonView::Null,
            },
        ),
        ("createdAt"@, talks::cell(values, kinds, 7)),
    ]);
}

} // verus!
