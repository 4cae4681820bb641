//! Comments on tasks, and the files that are attached to tasks and comments.
use crate::exchange;
use crate::exchange::{
    Action, ActionView, Reply, ReplyView, Response, ResponseView, Row, SqlValue, SqlView, Statement,
    StatementView, Step, StepView,
};
use crate::fields;
use crate::fields::{Actor, ActorView};
use crate::json;
use crate::json::{Json, JsonView};
use crate::request;
use crate::request::HttpRequest;
use crate::rows;
use crate::rows::{Column, Kind};
use crate::store;
use crate::task_edits;
use crate::tasks;
use crate::text;
use vstd::prelude::*;
use vstd::utf8::*;

verus! {

pub const COMMENT_BY_ID: &'static str = "SELECT * FROM comments WHERE id = ?1";

pub const LIST_COMMENTS: &'static str = "
        SELECT * FROM comments
        WHERE task_id = ?1
        ORDER BY created_at, id
        ";

/// The attachments of a comment.
pub const COMMENT_ATTACHMENTS: &'static str = "SELECT * FROM attachments WHERE comment_id = ?1 ORDER BY created_at, id";

/// The attachments of a task that belong to none of its comments.
pub const TASK_ATTACHMENTS: &'static str = "SELECT * FROM attachments WHERE task_id = ?1 AND comment_id IS NULL ORDER BY created_at, id";

pub const ATTACHMENT_BY_ID: &'static str = "SELECT * FROM attachments WHERE id = ?1";

pub const INSERT_COMMENT: &'static str = "INSERT INTO comments (id, task_id, body, thread_id, author_type, author_id, author_name, author_avatar_url, version, created_at, updated_at)
         VALUES (?1, ?2, ?3, ?4, ?5, ?6, ?7, ?8, 1, ?9, ?9)";

pub const UPDATE_COMMENT: &'static str = "UPDATE comments SET body = ?1, thread_id = COALESCE(?2, thread_id), version = version + 1, updated_at = ?3 WHERE id = ?4 AND version = ?5";

pub const COMMENT_ATTACHMENT_IDS: &'static str = "SELECT id FROM attachments WHERE comment_id = ?1";

pub const DELETE_COMMENT: &'static str = "DELETE FROM comments WHERE id = ?1 AND version = ?2";

pub const INSERT_ATTACHMENT: &'static str = "INSERT INTO attachments (id, task_id, comment_id, filename, content_type, size, created_at)
         VALUES (?1, ?2, ?3, ?4, ?5, ?6, ?7)";

pub const DELETE_ATTACHMENT: &'static str = "DELETE FROM attachments WHERE id = ?1";

/// The message of a comment whose attachments cannot be read.
pub const NO_ATTACHMENTS: &'static str = "Execute returned results - did you mean to call query?";

/// What is shown of an attachment.
pub open spec fn attachment_plan() -> Seq<(Seq<char>, Seq<char>, Kind)> {
    seq![
        ("id"@, "id"@, Kind::Text),
        ("taskId"@, "task_id"@, Kind::Text),
        ("commentId"@, "comment_id"@, Kind::OptionalText),
        ("filename"@, "filename"@, Kind::Text),
        ("contentType"@, "content_type"@, Kind::Text),
        ("size"@, "size"@, Kind::Integer),
        ("createdAt"@, "created_at"@, Kind::Text),
    ]
}

/// The attachment that stands in a row.
pub open spec fn attachment_of_row(row: Seq<(Seq<char>, SqlView)>) -> Result<JsonView, Seq<char>> {
    rows::row_object(row, attachment_plan())
}

/// Reads the attachment that stands in a row.
pub fn attachment_from_row(row: &Row) -> (r: Result<Json, String>)
    ensures
        exchange::says(r, attachment_of_row(row@)),
{
    let columns = vec![
        rows::column("id", "id", Kind::Text),
        rows::column("taskId", "task_id", Kind::Text),
        rows::column("commentId", "comment_id", Kind::OptionalText),
        rows::column("filename", "filename", Kind::Text),
        rows::column("contentType", "content_type", Kind::Text),
        rows::column("size", "size", Kind::Integer),
        rows::column("createdAt", "created_at", Kind::Text),
    ];
    proof {
        assert(columns.deep_view() =~= attachment_plan());
    }
    rows::read_object(row, columns)
}

/// The attachments that rows show.
pub open spec fn attachments_in(table: Seq<Seq<(Seq<char>, SqlView)>>) -> Result<
    Seq<JsonView>,
    Seq<char>,
> {
    rows::each_row(table, |row: Seq<(Seq<char>, SqlView)>| attachment_of_row(row))
}

fn read_attachments(table: &Vec<Row>) -> (r: Result<Vec<Json>, String>)
    ensures
        exchange::says(r, attachments_in(table.deep_view())),
{
    rows::read_rows(
        table,
        attachment_from_row,
        Ghost(|row: Seq<(Seq<char>, SqlView)>| attachment_of_row(row)),
    )
}

/// The attachments that a query finds, the reply at `at`.
pub open spec fn attachments_at(replies: Seq<ReplyView>, at: int, sql: Seq<char>, id: Seq<char>) -> Result<
    Seq<JsonView>,
    StepView,
> {
    match exchange::rows_at(
        replies,
        at,
        store::stated(sql, store::params().push(store::text_param(id))),
    ) {
        Err(s) => Err(s),
        Ok(found) => store::lifted(attachments_in(found)),
    }
}

fn list_attachments(replies: &Vec<Reply>, at: usize, sql: &str, id: &str) -> (r: Result<
    Vec<Json>,
    Step,
>)
    ensures
        exchange::agrees(r, attachments_at(replies.deep_view(), at as int, sql@, id@)),
{
    let found = exchange::rows(replies, at, store::keyed(sql, id))?;
    store::lift(read_attachments(found))
}

/// Reads the attachments of a task.
pub fn list_task_attachments(replies: &Vec<Reply>, at: usize, task_id: &str) -> (r: Result<
    Vec<Json>,
    Step,
>)
    ensures
        exchange::agrees(
            r,
            attachments_at(replies.deep_view(), at as int, TASK_ATTACHMENTS@, task_id@),
        ),
{
    list_attachments(replies, at, TASK_ATTACHMENTS, task_id)
}

/// Reads the attachments of a comment.
pub fn list_comment_attachments(replies: &Vec<Reply>, at: usize, comment_id: &str) -> (r: Result<
    Vec<Json>,
    Step,
>)
    ensures
        exchange::agrees(
            r,
            attachments_at(replies.deep_view(), at as int, COMMENT_ATTACHMENTS@, comment_id@),
        ),
{
    list_attachments(replies, at, COMMENT_ATTACHMENTS, comment_id)
}

/// The attachment with an identifier, the reply at `at`.
pub open spec fn attachment_at(replies: Seq<ReplyView>, at: int, id: Seq<char>) -> Result<
    Option<JsonView>,
    StepView,
> {
    match exchange::rows_at(
        replies,
        at,
        store::stated(ATTACHMENT_BY_ID@, store::params().push(store::text_param(id))),
    ) {
        Err(s) => Err(s),
        Ok(found) => if found.len() == 0 {
            Ok(None)
        } else {
            match attachment_of_row(found[0]) {
                Err(m) => Err(StepView::Fail(m)),
                Ok(attachment) => Ok(Some(attachment)),
            }
        },
    }
}

/// Reads an attachment.
pub fn get_attachment(replies: &Vec<Reply>, at: usize, id: &str) -> (r: Result<Option<Json>, Step>)
    ensures
        exchange::agrees(r, attachment_at(replies.deep_view(), at as int, id@)),
{
    let found = exchange::rows(replies, at, store::keyed(ATTACHMENT_BY_ID, id))?;
    if found.len() == 0 {
        return Ok(None);
    }
    let attachment = store::lift(attachment_from_row(&found[0]))?;
    Ok(Some(attachment))
}

/// What is shown of a comment before its attachments.
pub open spec fn comment_plan() -> Seq<(Seq<char>, Seq<char>, Kind)> {
    seq![
        ("id"@, "id"@, Kind::Text),
        ("taskId"@, "task_id"@, Kind::Text),
        ("body"@, "body"@, Kind::Text),
        ("threadId"@, "thread_id"@, Kind::OptionalText),
        ("authorType"@, "author_type"@, Kind::Text),
        ("authorId"@, "author_id"@, Kind::Text),
        ("authorName"@, "author_name"@, Kind::Text),
        ("authorAvatarUrl"@, "author_avatar_url"@, Kind::OptionalText),
    ]
}

fn comment_columns() -> (r: Vec<Column>)
    ensures
        r.deep_view() == comment_plan(),
{
    let r = vec![
        rows::column("id", "id", Kind::Text),
        rows::column("taskId", "task_id", Kind::Text),
        rows::column("body", "body", Kind::Text),
        rows::column("threadId", "thread_id", Kind::OptionalText),
        rows::column("authorType", "author_type", Kind::Text),
        rows::column("authorId", "author_id", Kind::Text),
        rows::column("authorName", "author_name", Kind::Text),
        rows::column("authorAvatarUrl", "author_avatar_url", Kind::OptionalText),
    ];
    proof {
        assert(r.deep_view() =~= comment_plan());
    }
    r
}

/// What is shown of a comment behind its attachments.
pub open spec fn comment_tail_plan() -> Seq<(Seq<char>, Seq<char>, Kind)> {
    seq![
        ("version"@, "version"@, Kind::Integer),
        ("createdAt"@, "created_at"@, Kind::Text),
        ("updatedAt"@, "updated_at"@, Kind::Text),
    ]
}

fn comment_tail_columns() -> (r: Vec<Column>)
    ensures
        r.deep_view() == comment_tail_plan(),
{
    let r = vec![
        rows::column("version", "version", Kind::Integer),
        rows::column("createdAt", "created_at", Kind::Text),
        rows::column("updatedAt", "updated_at", Kind::Text),
    ];
    proof {
        assert(r.deep_view() =~= comment_tail_plan());
    }
    r
}

/// The identifier of the comment in a row.
pub open spec fn comment_id_of(row: Seq<(Seq<char>, SqlView)>) -> Result<Seq<char>, Seq<char>> {
    match rows::column_value(row, "id"@, Kind::Text) {
        Err(m) => Err(m),
        Ok(v) => Ok(tasks::text_or_empty(v)),
    }
}

fn read_comment_id(row: &Row) -> (r: Result<String, String>)
    ensures
        exchange::says(r, comment_id_of(row@)),
{
    match rows::read_column(row, "id", Kind::Text)? {
        Json::Text(s) => Ok(s),
        _ => Ok(String::new()),
    }
}

/// The comment that stands in a row, with the attachments that a table shows.
pub open spec fn comment_of_row(
    row: Seq<(Seq<char>, SqlView)>,
    table: Seq<Seq<(Seq<char>, SqlView)>>,
) -> Result<JsonView, Seq<char>> {
    match attachments_in(table) {
        Err(_) => Err(NO_ATTACHMENTS@),
        Ok(attachments) => match rows::planned(row, comment_plan()) {
            Err(m) => Err(m),
            Ok(members) => match rows::planned(row, comment_tail_plan()) {
                Err(m) => Err(m),
                Ok(tail) => Ok(
                    JsonView::Object(
                        members.push(("attachments"@, JsonView::Array(attachments))) + tail,
                    ),
                ),
            },
        },
    }
}

/// Reads the comment that stands in a row, with its attachments.
pub fn comment_from_row(row: &Row, table: &Vec<Row>) -> (r: Result<Json, String>)
    ensures
        exchange::says(r, comment_of_row(row@, table.deep_view())),
{
    let attachments = match read_attachments(table) {
        Ok(attachments) => attachments,
        Err(_) => {
            return Err(NO_ATTACHMENTS.to_owned());
        },
    };
    let mut members = rows::read_columns(row, comment_columns())?;
    json::member(&mut members, "attachments", json::array(attachments));
    let tail = rows::read_columns(row, comment_tail_columns())?;
    json::more_members(&mut members, tail);
    Ok(json::object(members))
}

/// What comes of a query for attachments that fails: the comment cannot be shown.
pub open spec fn without_attachments<V>(r: Result<V, StepView>) -> Result<V, StepView> {
    match r {
        Err(StepView::Fail(_)) => Err(StepView::Fail(NO_ATTACHMENTS@)),
        other => other,
    }
}

/// The comment with an identifier, where there is one, and the place of the next reply. The replies
/// start at `at`.
pub open spec fn comment_at(replies: Seq<ReplyView>, at: int, id: Seq<char>) -> Result<
    (Option<JsonView>, int),
    StepView,
> {
    match exchange::rows_at(
        replies,
        at,
        store::stated(COMMENT_BY_ID@, store::params().push(store::text_param(id))),
    ) {
        Err(s) => Err(s),
        Ok(found) => if found.len() == 0 {
            Ok((None, at + 1))
        } else {
            match comment_id_of(found[0]) {
                Err(m) => Err(StepView::Fail(m)),
                Ok(comment_id) => match without_attachments(
                    exchange::rows_at(
                        replies,
                        at + 1,
                        store::stated(
                            COMMENT_ATTACHMENTS@,
                            store::params().push(store::text_param(comment_id)),
                        ),
                    ),
                ) {
                    Err(s) => Err(s),
                    Ok(table) => match comment_of_row(found[0], table) {
                        Err(m) => Err(StepView::Fail(m)),
                        Ok(comment) => Ok((Some(comment), at + 2)),
                    },
                },
            }
        },
    }
}

/// Reads a comment.
pub fn get_comment(replies: &Vec<Reply>, at: usize, id: &str) -> (r: Result<
    (Option<Json>, usize),
    Step,
>)
    ensures
        exchange::reaches(r, comment_at(replies.deep_view(), at as int, id@)),
        r is Ok ==> (r->Ok_0).1 <= replies@.len(),
{
    let total: usize = replies.len();
    let found = exchange::rows(replies, at, store::keyed(COMMENT_BY_ID, id))?;
    if found.len() == 0 {
        return Ok((None, at + 1));
    }
    let comment_id = store::lift(read_comment_id(&found[0]))?;
    let table = match exchange::rows(
        replies,
        at + 1,
        store::keyed(COMMENT_ATTACHMENTS, &comment_id),
    ) {
        Ok(table) => table,
        Err(Step::Fail(_)) => {
            return Err(Step::Fail(NO_ATTACHMENTS.to_owned()));
        },
        Err(other) => {
            return Err(other);
        },
    };
    let comment = store::lift(comment_from_row(&found[0], table))?;
    Ok((Some(comment), at + 2))
}

/// The number of rows before the first whose identifier cannot be read.
pub open spec fn identified(found: Seq<Seq<(Seq<char>, SqlView)>>) -> int
    decreases found.len(),
{
    if found.len() == 0 || comment_id_of(found[0]) is Err {
        0
    } else {
        1 + identified(found.drop_first())
    }
}

proof fn lemma_identified(found: Seq<Seq<(Seq<char>, SqlView)>>, i: int)
    requires
        0 <= i <= found.len(),
        forall|k: int| 0 <= k < i ==> comment_id_of(#[trigger] found[k]) is Ok,
    ensures
        identified(found) == i + identified(found.skip(i)),
    decreases i,
{
    if i == 0 {
        assert(found.skip(0) =~= found);
    } else {
        assert(comment_id_of(found[0]) is Ok);
        lemma_identified(found.drop_first(), i - 1);
        assert(found.drop_first().skip(i - 1) =~= found.skip(i));
    }
}

/// The query for the attachments of the comment in a row.
pub open spec fn attachment_query(row: Seq<(Seq<char>, SqlView)>) -> StatementView {
    store::stated(
        COMMENT_ATTACHMENTS@,
        store::params().push(store::text_param(comment_id_of(row)->Ok_0)),
    )
}

/// The queries for the attachments of the comments in rows, up to the first without an identifier.
pub open spec fn attachment_queries(found: Seq<Seq<(Seq<char>, SqlView)>>) -> Seq<StatementView> {
    found.take(identified(found)).map_values(
        |row: Seq<(Seq<char>, SqlView)>| attachment_query(row),
    )
}

fn make_attachment_queries(found: &Vec<Row>) -> (r: (Vec<Statement>, Option<String>))
    ensures
        r.0.deep_view() == attachment_queries(found.deep_view()),
        r.0@.len() == identified(found.deep_view()),
        r.0@.len() <= found@.len(),
        match r.1 {
            Some(m) => r.0@.len() < found@.len() && comment_id_of(
                found.deep_view()[r.0@.len() as int],
            ) == Err::<Seq<char>, Seq<char>>(m@),
            None => r.0@.len() == found@.len(),
        },
{
    let ghost all = found.deep_view();
    let mut queries: Vec<Statement> = json::none();
    let mut i: usize = 0;
    while i < found.len()
        invariant
            all == found.deep_view(),
            i <= found@.len(),
            forall|k: int| 0 <= k < i ==> comment_id_of(#[trigger] all[k]) is Ok,
            queries.deep_view() == all.take(i as int).map_values(
                |row: Seq<(Seq<char>, SqlView)>| attachment_query(row),
            ),
        decreases found.len() - i,
    {
        proof {
            assert(all[i as int] == found@[i as int]@);
            lemma_identified(all, i as int);
            assert(queries.deep_view().len() == queries@.len());
        }
        let id = match read_comment_id(&found[i]) {
            Ok(id) => id,
            Err(m) => {
                return (queries, Some(m));
            },
        };
        json::put(&mut queries, store::keyed(COMMENT_ATTACHMENTS, &id));
        proof {
            assert(queries.deep_view() =~= all.take(i + 1).map_values(
                |row: Seq<(Seq<char>, SqlView)>| attachment_query(row),
            ));
        }
        i = i + 1;
    }
    proof {
        lemma_identified(all, i as int);
        assert(queries.deep_view().len() == queries@.len());
    }
    (queries, None)
}

/// The comments that stand in rows, each with the attachments that one table shows.
pub open spec fn comments_in(
    found: Seq<Seq<(Seq<char>, SqlView)>>,
    tables: Seq<Seq<Seq<(Seq<char>, SqlView)>>>,
) -> Result<Seq<JsonView>, Seq<char>>
    decreases found.len(),
{
    if found.len() == 0 {
        Ok(Seq::empty())
    } else {
        match comments_in(found.drop_last(), tables) {
            Err(m) => Err(m),
            Ok(comments) => match comment_of_row(found.last(), tables[found.len() - 1]) {
                Err(m) => Err(m),
                Ok(comment) => Ok(comments.push(comment)),
            },
        }
    }
}

proof fn lemma_comments_error_stays(
    found: Seq<Seq<(Seq<char>, SqlView)>>,
    tables: Seq<Seq<Seq<(Seq<char>, SqlView)>>>,
    i: int,
)
    requires
        0 <= i <= found.len(),
        comments_in(found.take(i), tables) is Err,
    ensures
        comments_in(found, tables) == comments_in(found.take(i), tables),
    decreases found.len() - i,
{
    if i == found.len() {
        assert(found.take(i) =~= found);
    } else {
        assert(found.take(i + 1).drop_last() =~= found.take(i));
        lemma_comments_error_stays(found, tables, i + 1);
    }
}

fn read_comments(found: &Vec<Row>, tables: &Vec<Vec<Row>>) -> (r: Result<Vec<Json>, String>)
    requires
        tables@.len() <= found@.len(),
    ensures
        exchange::says(
            r,
            comments_in(found.deep_view().take(tables@.len() as int), tables.deep_view()),
        ),
{
    let ghost all = found.deep_view().take(tables@.len() as int);
    let mut comments: Vec<Json> = json::none();
    let mut i: usize = 0;
    proof {
        assert(all.take(0) =~= Seq::empty());
    }
    while i < tables.len()
        invariant
            all == found.deep_view().take(tables@.len() as int),
            i <= tables@.len(),
            tables@.len() <= found@.len(),
            comments_in(all.take(i as int), tables.deep_view()) == Ok::<Seq<JsonView>, Seq<char>>(
                comments.deep_view(),
            ),
        decreases tables.len() - i,
    {
        proof {
            assert(all.take(i + 1).drop_last() =~= all.take(i as int));
            assert(all.take(i + 1).last() == found@[i as int]@);
            if comments_in(all.take(i + 1), tables.deep_view()) is Err {
                lemma_comments_error_stays(all, tables.deep_view(), i + 1);
            }
        }
        let comment = comment_from_row(&found[i], &tables[i])?;
        json::put(&mut comments, comment);
        i = i + 1;
    }
    proof {
        assert(all.take(i as int) =~= all);
    }
    Ok(comments)
}

/// The comments on a task: row by row, each with its attachments before the next. The replies start
/// at `at`.
pub open spec fn comments_at(replies: Seq<ReplyView>, at: int, task_id: Seq<char>) -> Result<
    Seq<JsonView>,
    StepView,
> {
    match exchange::rows_at(
        replies,
        at,
        store::stated(LIST_COMMENTS@, store::params().push(store::text_param(task_id))),
    ) {
        Err(s) => Err(s),
        Ok(found) => match without_attachments(
            exchange::tables_at(replies, at + 1, attachment_queries(found)),
        ) {
            Err(s) => Err(s),
            Ok(tables) => match comments_in(found.take(identified(found)), tables) {
                Err(m) => Err(StepView::Fail(m)),
                Ok(comments) => if identified(found) < found.len() {
                    Err(StepView::Fail(comment_id_of(found[identified(found)])->Err_0))
                } else {
                    Ok(comments)
                },
            },
        },
    }
}

/// Reads the comments of a task.
pub fn list_comments(replies: &Vec<Reply>, at: usize, task_id: &str) -> (r: Result<Vec<Json>, Step>)
    ensures
        exchange::agrees(r, comments_at(replies.deep_view(), at as int, task_id@)),
{
    let total: usize = replies.len();
    let found = exchange::rows(replies, at, store::keyed(LIST_COMMENTS, task_id))?;
    let (queries, fault) = make_attachment_queries(found);
    let tables = match exchange::tables(replies, at + 1, queries) {
        Ok(tables) => tables,
        Err(Step::Fail(_)) => {
            return Err(Step::Fail(NO_ATTACHMENTS.to_owned()));
        },
        Err(other) => {
            return Err(other);
        },
    };
    let comments = store::lift(read_comments(found, tables))?;
    match fault {
        Some(m) => Err(Step::Fail(m)),
        None => Ok(comments),
    }
}

/// That there is no such comment.
pub open spec fn comment_not_found() -> ResponseView {
    exchange::refusal(404, "COMMENT_NOT_FOUND"@, "Comment not found"@)
}

/// Answers that there is no such comment.
pub fn no_comment() -> (r: Response)
    ensures
        r@ == comment_not_found(),
{
    exchange::api_error(404, "COMMENT_NOT_FOUND", "Comment not found")
}

/// The response that shows a comment; the replies start at `at`.
pub open spec fn shown_comment(replies: Seq<ReplyView>, at: int, id: Seq<char>, status: u16) -> Result<
    ResponseView,
    StepView,
> {
    match comment_at(replies, at, id) {
        Err(s) => Err(s),
        Ok((comment, _)) => Ok(
            ResponseView::Json(
                status,
                JsonView::Object(json::members().push(("comment"@, json::or_null(comment)))),
            ),
        ),
    }
}

fn show_comment(replies: &Vec<Reply>, at: usize, id: &str, status: u16) -> (r: Result<
    Response,
    Step,
>)
    ensures
        exchange::agrees(r, shown_comment(replies.deep_view(), at as int, id@, status)),
{
    let (comment, _) = get_comment(replies, at, id)?;
    Ok(Response::Json(status, json::single("comment", json::null_if_none(comment))))
}

/// The statement that adds a comment.
pub open spec fn comment_insert(
    id: Seq<char>,
    task_id: Seq<char>,
    body: Seq<char>,
    thread_id: Option<Seq<char>>,
    actor: ActorView,
    timestamp: Seq<char>,
) -> StatementView {
    store::stated(
        INSERT_COMMENT@,
        task_edits::actor_params(
            store::params().push(store::text_param(id)).push(store::text_param(task_id)).push(
                store::text_param(body),
            ).push(store::optional_param(thread_id)),
            actor,
        ).push(store::text_param(timestamp)),
    )
}

/// How the creation of a comment goes.
pub open spec fn comment_created(
    replies: Seq<ReplyView>,
    task_id: Seq<char>,
    body: JsonView,
    actor: ActorView,
) -> Result<ResponseView, StepView> {
    match tasks::task_at(replies, 0, task_id) {
        Err(s) => Err(s),
        Ok((None, _)) => Ok(task_edits::task_not_found()),
        Ok((Some(task), next)) => match store::id_at(replies, next) {
            Err(s) => Err(s),
            Ok(id) => match store::now_at(replies, next + 1) {
                Err(s) => Err(s),
                Ok(timestamp) => match fields::member_text(task, "id"@) {
                    Err(m) => Err(StepView::Fail(m)),
                    Ok(canonical_task_id) => match fields::text_of(body, "body"@, 100_000) {
                        Err(m) => Err(StepView::Fail(m)),
                        Ok(said) => match fields::text_of(body, "threadId"@, 256) {
                            Err(m) => Err(StepView::Fail(m)),
                            Ok(thread_id) => match exchange::changed_at(
                                replies,
                                next + 2,
                                comment_insert(
                                    id,
                                    canonical_task_id,
                                    task_edits::text_or(said, Seq::empty()),
                                    thread_id,
                                    actor,
                                    timestamp,
                                ),
                            ) {
                                Err(s) => Err(s),
                                Ok(_) => shown_comment(replies, next + 3, id, 201),
                            },
                        },
                    },
                },
            },
        },
    }
}

fn text_or_none(value: Option<String>) -> (r: String)
    ensures
        r@ == task_edits::text_or(value.deep_view(), Seq::empty()),
{
    match value {
        Some(s) => s,
        None => String::new(),
    }
}

/// Adds a comment to a task.
pub fn create_comment(replies: &Vec<Reply>, task_id: &str, body: &Json, actor: &Actor) -> (r: Result<
    Response,
    Step,
>)
    ensures
        exchange::agrees(r, comment_created(replies.deep_view(), task_id@, body@, actor@)),
{
    let total: usize = replies.len();
    let (found, next) = tasks::get_task(replies, 0, task_id)?;
    let task = match found {
        Some(task) => task,
        None => {
            return Ok(task_edits::no_task());
        },
    };
    let id = store::new_id_from(replies, next)?;
    let timestamp = store::db_now(replies, next + 1)?;
    let canonical_task_id = store::lift(fields::value_string(&task, "id"))?;
    let said = text_or_none(store::lift(fields::string_value(body, "body", 100_000))?);
    let thread_id = store::lift(fields::string_value(body, "threadId", 256))?;
    let mut values: Vec<SqlValue> = json::none();
    store::bind_text(&mut values, id);
    store::bind_text(&mut values, &canonical_task_id);
    store::bind_text(&mut values, &said);
    json::put(&mut values, store::sql_optional(thread_id));
    task_edits::bind_actor(&mut values, actor);
    store::bind_text(&mut values, &timestamp);
    let _ = exchange::changed(replies, next + 2, store::statement(INSERT_COMMENT, values))?;
    show_comment(replies, next + 3, id, 201)
}

/// That a comment is not in the version that a request expects.
pub open spec fn comment_conflict() -> ResponseView {
    exchange::refusal(409, "VERSION_CONFLICT"@, "Comment was changed by another client"@)
}

/// The version of the comment that a request is about, which is the one that the request expects;
/// and the place of the next reply.
pub open spec fn current_comment(replies: Seq<ReplyView>, id: Seq<char>, body: JsonView) -> Result<
    (int, int),
    StepView,
> {
    match comment_at(replies, 0, id) {
        Err(s) => Err(s),
        Ok((None, _)) => Err(StepView::Answer(comment_not_found())),
        Ok((Some(comment), next)) => match fields::expected_version(body) {
            Err(m) => Err(StepView::Fail(m)),
            Ok(version) => if json::integer_field(comment, "version"@) != Some(version) {
                Err(StepView::Answer(comment_conflict()))
            } else {
                Ok((version, next))
            },
        },
    }
}

fn read_current_comment(replies: &Vec<Reply>, id: &str, body: &Json) -> (r: Result<
    (i64, usize),
    Step,
>)
    ensures
        match r {
            Ok((version, next)) => current_comment(replies.deep_view(), id@, body@) == Ok::<
                (int, int),
                StepView,
            >((version as int, next as int)) && next <= replies@.len(),
            Err(s) => current_comment(replies.deep_view(), id@, body@) == Err::<
                (int, int),
                StepView,
            >(s@),
        },
{
    let (found, next) = get_comment(replies, 0, id)?;
    let comment = match found {
        Some(comment) => comment,
        None => {
            return Err(Step::Answer(no_comment()));
        },
    };
    let version: i64 = store::lift(fields::read_version(body))?;
    let matches = match comment.integer("version") {
        Some(actual) => actual == version,
        None => false,
    };
    if !matches {
        return Err(
            Step::Answer(
                exchange::api_error(
                    409,
                    "VERSION_CONFLICT",
                    "Comment was changed by another client",
                ),
            ),
        );
    }
    Ok((version, next))
}

/// How the update of a comment goes.
pub open spec fn comment_updated(replies: Seq<ReplyView>, id: Seq<char>, body: JsonView) -> Result<
    ResponseView,
    StepView,
> {
    match current_comment(replies, id, body) {
        Err(s) => Err(s),
        Ok((version, next)) => match fields::text_of(body, "body"@, 100_000) {
            Err(m) => Err(StepView::Fail(m)),
            Ok(said) => match fields::text_of(body, "threadId"@, 256) {
                Err(m) => Err(StepView::Fail(m)),
                Ok(thread_id) => match store::now_at(replies, next) {
                    Err(s) => Err(s),
                    Ok(timestamp) => match exchange::changed_at(
                        replies,
                        next + 1,
                        store::stated(
                            UPDATE_COMMENT@,
                            store::params().push(
                                store::text_param(task_edits::text_or(said, Seq::empty())),
                            ).push(store::optional_param(thread_id)).push(
                                store::text_param(timestamp),
                            ).push(store::text_param(id)).push(SqlView::Integer(version)),
                        ),
                    ) {
                        Err(s) => Err(s),
                        Ok(_) => shown_comment(replies, next + 2, id, 200),
                    },
                },
            },
        },
    }
}

/// Changes a comment.
pub fn update_comment(replies: &Vec<Reply>, id: &str, body: &Json) -> (r: Result<Response, Step>)
    ensures
        exchange::agrees(r, comment_updated(replies.deep_view(), id@, body@)),
{
    let total: usize = replies.len();
    let (version, next) = read_current_comment(replies, id, body)?;
    let said = text_or_none(store::lift(fields::string_value(body, "body", 100_000))?);
    let thread_id = store::lift(fields::string_value(body, "threadId", 256))?;
    let timestamp = store::db_now(replies, next)?;
    let mut values: Vec<SqlValue> = json::none();
    store::bind_text(&mut values, &said);
    json::put(&mut values, store::sql_optional(thread_id));
    store::bind_text(&mut values, &timestamp);
    store::bind_text(&mut values, id);
    json::put(&mut values, SqlValue::Integer(version));
    let _ = exchange::changed(replies, next + 1, store::statement(UPDATE_COMMENT, values))?;
    show_comment(replies, next + 2, id, 200)
}

/// How the deletion of a comment goes.
pub open spec fn comment_deleted(replies: Seq<ReplyView>, id: Seq<char>, body: JsonView) -> Result<
    ResponseView,
    StepView,
> {
    match current_comment(replies, id, body) {
        Err(s) => Err(s),
        Ok((version, next)) => match exchange::rows_at(
            replies,
            next,
            store::stated(COMMENT_ATTACHMENT_IDS@, store::params().push(store::text_param(id))),
        ) {
            Err(s) => Err(s),
            Ok(found) => match store::first_texts(found) {
                Err(m) => Err(StepView::Fail(m)),
                Ok(attachments) => match exchange::changed_at(
                    replies,
                    next + 1,
                    store::stated(
                        DELETE_COMMENT@,
                        store::params().push(store::text_param(id)).push(
                            SqlView::Integer(version),
                        ),
                    ),
                ) {
                    Err(s) => Err(s),
                    Ok(_) => match exchange::done_at(
                        replies,
                        next + 2,
                        ActionView::RemoveAttachments(attachments),
                    ) {
                        Err(s) => Err(s),
                        Ok(_) => Ok(ResponseView::Empty(204)),
                    },
                },
            },
        },
    }
}

/// Deletes a comment with its attachments.
pub fn delete_comment(replies: &Vec<Reply>, id: &str, body: &Json) -> (r: Result<Response, Step>)
    ensures
        exchange::agrees(r, comment_deleted(replies.deep_view(), id@, body@)),
{
    let total: usize = replies.len();
    let (version, next) = read_current_comment(replies, id, body)?;
    let found = exchange::rows(replies, next, store::keyed(COMMENT_ATTACHMENT_IDS, id))?;
    let attachments = store::lift(store::read_first_texts(found))?;
    let mut values: Vec<SqlValue> = json::none();
    store::bind_text(&mut values, id);
    json::put(&mut values, SqlValue::Integer(version));
    let _ = exchange::changed(replies, next + 1, store::statement(DELETE_COMMENT, values))?;
    exchange::done(replies, next + 2, Action::RemoveAttachments(attachments))?;
    Ok(Response::Empty(204))
}

/// A comment in another version than the request expects is left as it is.
pub proof fn law_comment_conflict_is_refused(
    replies: Seq<ReplyView>,
    id: Seq<char>,
    body: JsonView,
    comment: JsonView,
    next: int,
    version: int,
)
    requires
        comment_at(replies, 0, id) == Ok::<(Option<JsonView>, int), StepView>(
            (Some(comment), next),
        ),
        fields::expected_version(body) == Ok::<int, Seq<char>>(version),
        json::integer_field(comment, "version"@) != Some(version),
    ensures
        comment_updated(replies, id, body) == Err::<ResponseView, StepView>(
            StepView::Answer(comment_conflict()),
        ),
        comment_deleted(replies, id, body) == Err::<ResponseView, StepView>(
            StepView::Answer(comment_conflict()),
        ),
{
}

/// Whether a character can stand in the name of a file.
pub open spec fn is_name_char(c: char) -> bool {
    !text::is_control(c) && c != '/' && c != '\\'
}

/// Whether a text is made of characters that can stand in the name of a file.
pub open spec fn is_plain_name(s: Seq<char>) -> bool {
    forall|i: int| 0 <= i < s.len() ==> is_name_char(#[trigger] s[i])
}

/// Tells whether a name can be that of an attachment.
pub fn plain_name(s: &str) -> (r: bool)
    ensures
        r == is_plain_name(s@),
{
    let chars = text::chars_of(s);
    let mut i: usize = 0;
    while i < chars.len()
        invariant
            chars@ == s@,
            i <= chars@.len(),
            forall|k: int| 0 <= k < i ==> is_name_char(#[trigger] s@[k]),
        decreases chars.len() - i,
    {
        let c = chars[i];
        if text::control(c) || c == '/' || c == '\\' {
            proof {
                assert(!is_name_char(s@[i as int]));
            }
            return false;
        }
        i = i + 1;
    }
    true
}

/// Whether a text can name an attached file.
pub open spec fn is_filename(s: Seq<char>) -> bool {
    &&& s.len() > 0
    &&& encode_utf8(s).len() <= 240
    &&& s != "."@
    &&& s != ".."@
    &&& is_plain_name(s)
}

/// The name of the file that a request attaches.
pub open spec fn filename_of(headers: Map<Seq<char>, Seq<char>>) -> Result<Seq<char>, Seq<char>> {
    match request::named(headers, "x-taskboard-filename"@) {
        None => Err("X-Taskboard-Filename is required"@),
        Some(raw) => match request::percent_decoded(raw, false) {
            Err(m) => Err(m),
            Ok(decoded) => if is_filename(text::trimmed(decoded)) {
                Ok(text::trimmed(decoded))
            } else {
                Err("attachment filename is invalid"@)
            },
        },
    }
}

/// Reads the name of the attachment that a request sends.
pub fn attachment_filename(request: &HttpRequest) -> (r: Result<String, String>)
    ensures
        exchange::says(r, filename_of(request@.headers)),
{
    let raw = match request.headers.get("x-taskboard-filename") {
        Some(raw) => raw,
        None => {
            return Err("X-Taskboard-Filename is required".to_owned());
        },
    };
    let decoded = request::percent_decode(raw, false)?;
    let filename = text::trim(&decoded);
    if filename.as_str().is_empty() || text::byte_len(&filename) > 240 || text::same(&filename, ".")
        || text::same(&filename, "..") || !plain_name(&filename) {
        return Err("attachment filename is invalid".to_owned());
    }
    Ok(filename)
}

/// What stands before the first semicolon.
pub open spec fn before_semicolon(s: Seq<char>) -> Seq<char> {
    text::split_spec(s, ';')[0]
}

/// The type of the file that a request attaches.
pub open spec fn content_type_of(headers: Map<Seq<char>, Seq<char>>) -> Seq<char> {
    match request::named(headers, "content-type"@) {
        None => "application/octet-stream"@,
        Some(raw) => {
            let kind = text::trimmed(before_semicolon(raw));
            if kind.len() == 0 {
                "application/octet-stream"@
            } else {
                kind
            }
        },
    }
}

/// Reads the type of the attachment that a request sends.
pub fn attachment_content_type(request: &HttpRequest) -> (r: String)
    ensures
        r@ == content_type_of(request@.headers),
{
    match request.headers.get("content-type") {
        None => "application/octet-stream".to_owned(),
        Some(raw) => {
            let parts = text::split(raw, ';');
            let kind = text::trim(&parts[0]);
            if kind.as_str().is_empty() {
                "application/octet-stream".to_owned()
            } else {
                kind
            }
        },
    }
}

/// The statement that adds an attachment.
pub open spec fn attachment_insert(
    id: Seq<char>,
    task_id: Seq<char>,
    comment_id: Option<Seq<char>>,
    filename: Seq<char>,
    content_type: Seq<char>,
    size: int,
    timestamp: Seq<char>,
) -> StatementView {
    store::stated(
        INSERT_ATTACHMENT@,
        store::params().push(store::text_param(id)).push(store::text_param(task_id)).push(
            store::optional_param(comment_id),
        ).push(store::text_param(filename)).push(store::text_param(content_type)).push(
            SqlView::Integer(size),
        ).push(store::text_param(timestamp)),
    )
}

/// How a file is stored as an attachment and shown. The replies start at `at`.
pub open spec fn attachment_stored(
    replies: Seq<ReplyView>,
    at: int,
    task_id: Seq<char>,
    comment_id: Option<Seq<char>>,
    filename: Seq<char>,
    content_type: Seq<char>,
    content: Seq<u8>,
) -> Result<ResponseView, StepView> {
    match store::id_at(replies, at) {
        Err(s) => Err(s),
        Ok(id) => match exchange::done_at(
            replies,
            at + 1,
            ActionView::StoreAttachment(id, content),
        ) {
            Err(s) => Err(s),
            Ok(_) => match store::now_at(replies, at + 2) {
                Err(s) => Err(s),
                Ok(timestamp) => match exchange::changed_at(
                    replies,
                    at + 3,
                    attachment_insert(
                        id,
                        task_id,
                        comment_id,
                        filename,
                        content_type,
                        content.len() as int,
                        timestamp,
                    ),
                ) {
                    Err(s) => Err(s),
                    Ok(_) => match attachment_at(replies, at + 4, id) {
                        Err(s) => Err(s),
                        Ok(attachment) => Ok(
                            ResponseView::Json(
                                201,
                                JsonView::Object(
                                    json::members().push(
                                        ("attachment"@, json::or_null(attachment)),
                                    ),
                                ),
                            ),
                        ),
                    },
                },
            },
        },
    }
}

/// How the attaching of a file goes: to a task, or to a comment on it. The replies start at `at`.
pub open spec fn attachment_created(
    replies: Seq<ReplyView>,
    at: int,
    task_id: Seq<char>,
    comment_id: Option<Seq<char>>,
    request: request::RequestView,
) -> Result<ResponseView, StepView> {
    match tasks::task_at(replies, at, task_id) {
        Err(s) => Err(s),
        Ok((None, _)) => Ok(task_edits::task_not_found()),
        Ok((Some(task), next)) => match fields::member_text(task, "id"@) {
            Err(m) => Err(StepView::Fail(m)),
            Ok(canonical_task_id) => match comment_checked(replies, next, comment_id) {
                Err(s) => Err(s),
                Ok(behind) => match filename_of(request.headers) {
                    Err(m) => Err(StepView::Fail(m)),
                    Ok(filename) => attachment_stored(
                        replies,
                        behind,
                        canonical_task_id,
                        comment_id,
                        filename,
                        content_type_of(request.headers),
                        request.body,
                    ),
                },
            },
        },
    }
}

/// That the comment which a file is attached to is there, where it is attached to one. The replies
/// start at `at`; the result is the place of the next one.
pub open spec fn comment_checked(
    replies: Seq<ReplyView>,
    at: int,
    comment_id: Option<Seq<char>>,
) -> Result<int, StepView> {
    match comment_id {
        None => Ok(at),
        Some(id) => match comment_at(replies, at, id) {
            Err(s) => Err(s),
            Ok((None, _)) => Err(StepView::Answer(comment_not_found())),
            Ok((Some(_), next)) => Ok(next),
        },
    }
}

fn check_comment(replies: &Vec<Reply>, at: usize, comment_id: Option<&str>) -> (r: Result<
    usize,
    Step,
>)
    requires
        at <= replies@.len(),
    ensures
        match r {
            Ok(next) => comment_checked(
                replies.deep_view(),
                at as int,
                comment_id.deep_view(),
            ) == Ok::<int, StepView>(next as int) && next <= replies@.len(),
            Err(s) => comment_checked(
                replies.deep_view(),
                at as int,
                comment_id.deep_view(),
            ) == Err::<int, StepView>(s@),
        },
{
    match comment_id {
        None => Ok(at),
        Some(id) => {
            let (comment, next) = get_comment(replies, at, id)?;
            if comment.is_none() {
                return Err(Step::Answer(no_comment()));
            }
            Ok(next)
        },
    }
}

/// Stores an attachment of a task or of one of its comments.
pub fn create_attachment(
    replies: &Vec<Reply>,
    at: usize,
    task_id: &str,
    comment_id: Option<&str>,
    request: &HttpRequest,
) -> (r: Result<Response, Step>)
    requires
        request.body@.len() <= i64::MAX,
    ensures
        exchange::agrees(
            r,
            attachment_created(
                replies.deep_view(),
                at as int,
                task_id@,
                comment_id.deep_view(),
                request@,
            ),
        ),
{
    let total: usize = replies.len();
    let (found, next) = tasks::get_task(replies, at, task_id)?;
    let task = match found {
        Some(task) => task,
        None => {
            return Ok(task_edits::no_task());
        },
    };
    let canonical_task_id = store::lift(fields::value_string(&task, "id"))?;
    let behind: usize = check_comment(replies, next, comment_id)?;
    let filename = store::lift(attachment_filename(request))?;
    let content_type = attachment_content_type(request);
    let id = store::new_id_from(replies, behind)?;
    exchange::done(
        replies,
        behind + 1,
        Action::StoreAttachment(id.clone(), copy_bytes(&request.body)),
    )?;
    let timestamp = store::db_now(replies, behind + 2)?;
    let mut values: Vec<SqlValue> = json::none();
    store::bind_text(&mut values, id);
    store::bind_text(&mut values, &canonical_task_id);
    match comment_id {
        Some(comment_id) => {
            store::bind_text(&mut values, comment_id);
        },
        None => {
            json::put(&mut values, SqlValue::Null);
        },
    }
    store::bind_text(&mut values, &filename);
    store::bind_text(&mut values, &content_type);
    json::put(&mut values, SqlValue::Integer(request.body.len() as i64));
    store::bind_text(&mut values, &timestamp);
    let _ = exchange::changed(replies, behind + 3, store::statement(INSERT_ATTACHMENT, values))?;
    let attachment = get_attachment(replies, behind + 4, id)?;
    Ok(Response::Json(201, json::single("attachment", json::null_if_none(attachment))))
}

/// The same bytes.
pub fn copy_bytes(bytes: &Vec<u8>) -> (r: Vec<u8>)
    ensures
        r@ == bytes@,
{
    let mut out: Vec<u8> = Vec::new();
    out.extend_from_slice(bytes);
    proof {
        assert(out@ =~= bytes@);
    }
    out
}

/// That there is no such attachment.
pub open spec fn attachment_not_found() -> ResponseView {
    exchange::refusal(404, "ATTACHMENT_NOT_FOUND"@, "Attachment not found"@)
}

fn no_attachment() -> (r: Response)
    ensures
        r@ == attachment_not_found(),
{
    exchange::api_error(404, "ATTACHMENT_NOT_FOUND", "Attachment not found")
}

/// How the deletion of an attachment goes.
pub open spec fn attachment_deleted(replies: Seq<ReplyView>, id: Seq<char>) -> Result<
    ResponseView,
    StepView,
> {
    match attachment_at(replies, 0, id) {
        Err(s) => Err(s),
        Ok(None) => Ok(attachment_not_found()),
        Ok(Some(_)) => match exchange::changed_at(
            replies,
            1,
            store::stated(DELETE_ATTACHMENT@, store::params().push(store::text_param(id))),
        ) {
            Err(s) => Err(s),
            Ok(_) => match exchange::done_at(
                replies,
                2,
                ActionView::RemoveAttachments(Seq::empty().push(id)),
            ) {
                Err(s) => Err(s),
                Ok(_) => Ok(ResponseView::Empty(204)),
            },
        },
    }
}

/// Deletes an attachment.
pub fn delete_attachment(replies: &Vec<Reply>, id: &str) -> (r: Result<Response, Step>)
    ensures
        exchange::agrees(r, attachment_deleted(replies.deep_view(), id@)),
{
    if get_attachment(replies, 0, id)?.is_none() {
        return Ok(no_attachment());
    }
    let _ = exchange::changed(replies, 1, store::keyed(DELETE_ATTACHMENT, id))?;
    let mut ids: Vec<String> = json::none();
    json::put(&mut ids, id.to_owned());
    exchange::done(replies, 2, Action::RemoveAttachments(ids))?;
    Ok(Response::Empty(204))
}

/// The headers under which a file is sent.
pub open spec fn file_headers(cache: Seq<char>, content_type: Seq<char>, length: nat) -> Seq<
    (Seq<char>, Seq<char>),
> {
    Seq::empty().push(("cache-control"@, cache)).push(("content-type"@, content_type)).push(
        ("content-length"@, text::decimal(length)),
    )
}

/// Makes the headers of a file.
pub fn make_file_headers(cache: &str, content_type: &str, length: usize) -> (r: Vec<
    (String, String),
>)
    ensures
        r.deep_view() == file_headers(cache@, content_type@, length as nat),
{
    let mut headers: Vec<(String, String)> = json::none();
    json::put(&mut headers, ("cache-control".to_owned(), cache.to_owned()));
    json::put(&mut headers, ("content-type".to_owned(), content_type.to_owned()));
    json::put(&mut headers, ("content-length".to_owned(), text::decimal_text(length as u64)));
    headers
}

/// How the content of an attachment is sent.
pub open spec fn content_sent(replies: Seq<ReplyView>, id: Seq<char>) -> Result<
    ResponseView,
    StepView,
> {
    match attachment_at(replies, 0, id) {
        Err(s) => Err(s),
        Ok(None) => Ok(attachment_not_found()),
        Ok(Some(attachment)) => match exchange::bytes_at(
            replies,
            1,
            ActionView::ReadAttachment(id),
        ) {
            Err(s) => Err(s),
            Ok(body) => Ok(
                ResponseView::Static(
                    200,
                    file_headers(
                        "private, no-store"@,
                        task_edits::text_or(
                            json::text_field(attachment, "contentType"@),
                            "application/octet-stream"@,
                        ),
                        body.len(),
                    ),
                    body,
                ),
            ),
        },
    }
}

/// Answers with the content of an attachment.
pub fn attachment_content(replies: &Vec<Reply>, id: &str) -> (r: Result<Response, Step>)
    ensures
        exchange::agrees(r, content_sent(replies.deep_view(), id@)),
{
    let attachment = match get_attachment(replies, 0, id)? {
        Some(attachment) => attachment,
        None => {
            return Ok(no_attachment());
        },
    };
    let body = exchange::bytes(replies, 1, Action::ReadAttachment(id.to_owned()))?;
    let content_type = match attachment.text("contentType") {
        Some(s) => s.clone(),
        None => "application/octet-stream".to_owned(),
    };
    let headers = make_file_headers("private, no-store", &content_type, body.len());
    Ok(Response::Static(200, headers, copy_bytes(body)))
}

} // verus!
