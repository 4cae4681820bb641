//! That the content of an attachment is what was sent.
use crate::board;
use crate::board::Board;
use crate::comments;
use crate::exchange::{ActionView, ReplyView, ResponseView, SqlView, StatementView, StepView};
use crate::fields;
use crate::history;
use crate::json;
use crate::json::JsonView;
use crate::request::RequestView;
use crate::rows;
use crate::showing;
use crate::store;
use crate::task_edits;
use crate::tasks;
use vstd::prelude::*;

verus! {

/// The rows of attachments and the contents of their files, by the identifier of the attachment.
pub struct Shelf {
    pub rows: Map<Seq<char>, Seq<(Seq<char>, SqlView)>>,
    pub files: Map<Seq<char>, Seq<u8>>,
}

/// The row that a statement with these parameters adds to the attachments.
pub open spec fn attachment_row(p: Seq<SqlView>) -> Seq<(Seq<char>, SqlView)> {
    seq![
        ("id"@, p[0]),
        ("task_id"@, p[1]),
        ("comment_id"@, p[2]),
        ("filename"@, p[3]),
        ("content_type"@, p[4]),
        ("size"@, p[5]),
        ("created_at"@, p[6]),
    ]
}

/// What an action makes of the attachments and their files.
pub open spec fn shelf_after(shelf: Shelf, action: ActionView) -> Shelf {
    match action {
        ActionView::Write(w) => if w.sql == comments::INSERT_ATTACHMENT@ && w.params.len() == 7
            && w.params[0] is Text {
            Shelf {
                rows: shelf.rows.insert(w.params[0]->Text_0, attachment_row(w.params)),
                ..shelf
            }
        } else if w.sql == comments::DELETE_ATTACHMENT@ && w.params.len() == 1 && w.params[0]
            is Text {
            Shelf { rows: shelf.rows.remove(w.params[0]->Text_0), ..shelf }
        } else {
            shelf
        },
        ActionView::StoreAttachment(id, content) => Shelf {
            files: shelf.files.insert(id, content),
            ..shelf
        },
        ActionView::RemoveAttachments(ids) => Shelf {
            files: shelf.files.remove_keys(ids.to_set()),
            ..shelf
        },
        _ => shelf,
    }
}

/// The effect of an action on the attachments and their files.
pub open spec fn shelf_effect() -> spec_fn(Shelf, ActionView) -> Shelf {
    |shelf: Shelf, action: ActionView| shelf_after(shelf, action)
}

/// The query for an attachment.
pub open spec fn attachment_asked(id: Seq<char>) -> StatementView {
    store::stated(comments::ATTACHMENT_BY_ID@, store::params().push(store::text_param(id)))
}

/// Whether a reply is one that the store can give to an action: the row of an attachment where it is
/// there, the content of its file where it is there, and identifiers that are not taken.
pub open spec fn shelf_tells() -> spec_fn(Shelf, ActionView, ReplyView) -> bool {
    |shelf: Shelf, action: ActionView, reply: ReplyView| tells(shelf, action, reply)
}

/// What the replies tell of the attachments and their files.
pub open spec fn tells(shelf: Shelf, action: ActionView, reply: ReplyView) -> bool {
    let query = board::single_query(action);
    let p = query->0.params;
    &&& action is NewId ==> reply is Text && !shelf.rows.contains_key(reply->Text_0)
        && !shelf.files.contains_key(reply->Text_0)
    &&& query is Some && query->0.sql == comments::ATTACHMENT_BY_ID@ && p.len() == 1 && p[0] is Text
        ==> board::is_table(
        reply,
        if shelf.rows.contains_key(p[0]->Text_0) {
            seq![shelf.rows[p[0]->Text_0]]
        } else {
            Seq::empty()
        },
    )
    &&& action is ReadAttachment && shelf.files.contains_key(action->ReadAttachment_0) ==> reply
        == ReplyView::Bytes(shelf.files[action->ReadAttachment_0])
}

proof fn lemma_tells_attachment(shelf: Shelf, id: Seq<char>, reply: ReplyView)
    requires
        tells(shelf, ActionView::Read(seq![attachment_asked(id)]), reply),
    ensures
        board::is_table(
            reply,
            if shelf.rows.contains_key(id) {
                seq![shelf.rows[id]]
            } else {
                Seq::empty()
            },
        ),
{
    let asked = seq![attachment_asked(id)];
    assert(asked[0] == attachment_asked(id));
}

/// The attaching of a file.
pub open spec fn attaching(
    task_id: Seq<char>,
    comment_id: Option<Seq<char>>,
    request: RequestView,
) -> spec_fn(Seq<ReplyView>) -> Result<ResponseView, StepView> {
    |replies: Seq<ReplyView>| comments::attachment_created(replies, 0, task_id, comment_id, request)
}

proof fn lemma_names()
    ensures
        "id"@.len() == 2,
        "task_id"@.len() == 7,
        "comment_id"@.len() == 10,
        "filename"@.len() == 8,
        "content_type"@.len() == 12,
        "size"@.len() == 4,
        "created_at"@.len() == 10,
        "comment_id"@[1] == 'o',
        "created_at"@[1] == 'r',
        "taskId"@.len() == 6,
        "commentId"@.len() == 9,
        "contentType"@.len() == 11,
        "createdAt"@.len() == 9,
        "commentId"@[1] == 'o',
        "createdAt"@[1] == 'r',
{
    reveal_strlit("id");
    reveal_strlit("task_id");
    reveal_strlit("comment_id");
    reveal_strlit("filename");
    reveal_strlit("content_type");
    reveal_strlit("size");
    reveal_strlit("created_at");
    reveal_strlit("taskId");
    reveal_strlit("commentId");
    reveal_strlit("contentType");
    reveal_strlit("createdAt");
}

/// An attachment as it is shown.
pub open spec fn shown_attachment(
    id: Seq<char>,
    task_id: Seq<char>,
    comment_id: Option<Seq<char>>,
    filename: Seq<char>,
    content_type: Seq<char>,
    size: int,
    timestamp: Seq<char>,
) -> JsonView {
    JsonView::Object(
        seq![
            ("id"@, JsonView::Text(id)),
            ("taskId"@, JsonView::Text(task_id)),
            ("commentId"@, rows::shown_text(comment_id)),
            ("filename"@, JsonView::Text(filename)),
            ("contentType"@, JsonView::Text(content_type)),
            ("size"@, JsonView::Integer(size)),
            ("createdAt"@, JsonView::Text(timestamp)),
        ],
    )
}

/// The row that the insertion of an attachment adds shows what was inserted.
pub proof fn law_inserted_attachment_is_shown(
    id: Seq<char>,
    task_id: Seq<char>,
    comment_id: Option<Seq<char>>,
    filename: Seq<char>,
    content_type: Seq<char>,
    size: int,
    timestamp: Seq<char>,
)
    ensures
        comments::attachment_of_row(
            attachment_row(
                comments::attachment_insert(
                    id,
                    task_id,
                    comment_id,
                    filename,
                    content_type,
                    size,
                    timestamp,
                ).params,
            ),
        ) == Ok::<JsonView, Seq<char>>(
            shown_attachment(id, task_id, comment_id, filename, content_type, size, timestamp),
        ),
{
    let p = comments::attachment_insert(
        id,
        task_id,
        comment_id,
        filename,
        content_type,
        size,
        timestamp,
    ).params;
    let row = attachment_row(p);
    let plan = comments::attachment_plan();
    lemma_names();
    let values = seq![
        JsonView::Text(id),
        JsonView::Text(task_id),
        rows::shown_text(comment_id),
        JsonView::Text(filename),
        JsonView::Text(content_type),
        JsonView::Integer(size),
        JsonView::Text(timestamp),
    ];
    assert forall|i: int| 0 <= i < plan.len() implies rows::column_value(
        row,
        (#[trigger] plan[i]).1,
        plan[i].2,
    ) == Ok::<JsonView, Seq<char>>(values[i]) by {
        assert(row[i].0 == plan[i].1);
        rows::lemma_cell_index(row, plan[i].1, i);
    }
    rows::lemma_planned_values(row, plan, values);
    assert(Seq::new(plan.len(), |i: int| (plan[i].0, values[i])) =~= shown_attachment(
        id,
        task_id,
        comment_id,
        filename,
        content_type,
        size,
        timestamp,
    )->Object_0);
}

/// The identifier that the task has to which a file is attached, and the place of the reply that
/// tells the identifier of the attachment.
pub open spec fn attached_to(
    replies: Seq<ReplyView>,
    task_id: Seq<char>,
    comment_id: Option<Seq<char>>,
) -> (Seq<char>, int) {
    let (task, next) = tasks::task_at(replies, 0, task_id)->Ok_0;
    (
        fields::member_text(task->0, "id"@)->Ok_0,
        comments::comment_checked(replies, next, comment_id)->Ok_0,
    )
}

/// The statement that adds the attachment which a request sends.
pub open spec fn insertion(
    replies: Seq<ReplyView>,
    task_id: Seq<char>,
    comment_id: Option<Seq<char>>,
    request: RequestView,
) -> StatementView {
    let (owner, at) = attached_to(replies, task_id, comment_id);
    comments::attachment_insert(
        store::id_at(replies, at)->Ok_0,
        owner,
        comment_id,
        comments::filename_of(request.headers)->Ok_0,
        comments::content_type_of(request.headers),
        request.body.len() as int,
        store::now_at(replies, at + 2)->Ok_0,
    )
}

/// Whether a file was attached: the attachment is there and is shown.
pub open spec fn is_attached(
    replies: Seq<ReplyView>,
    task_id: Seq<char>,
    comment_id: Option<Seq<char>>,
    request: RequestView,
) -> bool {
    match comments::attachment_created(replies, 0, task_id, comment_id, request) {
        Ok(ResponseView::Json(status, _)) => status == 201,
        _ => false,
    }
}

proof fn lemma_attaching_does(
    replies: Seq<ReplyView>,
    task_id: Seq<char>,
    comment_id: Option<Seq<char>>,
    request: RequestView,
    i: int,
)
    requires
        is_attached(replies, task_id, comment_id, request),
        0 <= i < replies.len(),
    ensures
        ({
            let done = history::done_by(
                attaching(task_id, comment_id, request),
                replies,
                i,
            );
            let (_, at) = attached_to(replies, task_id, comment_id);
            &&& 0 <= at && at + 4 < replies.len()
            &&& i != at + 1 && i != at + 3 ==> done is None
            &&& i == at + 1 ==> done == Some(
                ActionView::StoreAttachment(store::id_at(replies, at)->Ok_0, request.body),
            )
            &&& i == at + 3 ==> done == Some(
                ActionView::Write(insertion(replies, task_id, comment_id, request)),
            )
        }),
{
}

proof fn lemma_attaching_becomes(
    shelf: Shelf,
    replies: Seq<ReplyView>,
    task_id: Seq<char>,
    comment_id: Option<Seq<char>>,
    request: RequestView,
)
    requires
        is_attached(replies, task_id, comment_id, request),
    ensures
        ({
            let (_, at) = attached_to(replies, task_id, comment_id);
            let id = store::id_at(replies, at)->Ok_0;
            let p = insertion(replies, task_id, comment_id, request).params;
            history::became(
                attaching(task_id, comment_id, request),
                shelf_effect(),
                shelf,
                replies,
            ) == (Shelf {
                rows: shelf.rows.insert(id, attachment_row(p)),
                files: shelf.files.insert(id, request.body),
            })
        }),
{
    let h = attaching(task_id, comment_id, request);
    let e = shelf_effect();
    let n = replies.len() as int;
    let (_, at) = attached_to(replies, task_id, comment_id);
    history::lemma_start(h, e, shelf, replies);
    if n > 0 {
        lemma_attaching_does(replies, task_id, comment_id, request, 0);
        lemma_attaching_does(replies, task_id, comment_id, request, at + 1);
        lemma_attaching_does(replies, task_id, comment_id, request, at + 3);
        assert forall|i: int|
            0 <= i < n && i != at + 1 && i != at + 3 implies #[trigger] history::is_quiet(
            h,
            e,
            replies,
            i,
        ) by {
            lemma_attaching_does(replies, task_id, comment_id, request, i);
        }
        history::lemma_quiet(h, e, shelf, replies, 0, at + 1);
        history::lemma_step(h, e, shelf, replies, at + 1);
        history::lemma_quiet(h, e, shelf, replies, at + 2, at + 3);
        history::lemma_step(h, e, shelf, replies, at + 3);
        history::lemma_quiet(h, e, shelf, replies, at + 4, n);
    }
}

/// Whether these are the replies of the store to the attaching of a file, which is attached.
pub open spec fn is_attaching(
    before: Shelf,
    task_id: Seq<char>,
    comment_id: Option<Seq<char>>,
    request: RequestView,
    replies: Seq<ReplyView>,
) -> bool {
    &&& history::is_course(
        attaching(task_id, comment_id, request),
        shelf_effect(),
        shelf_tells(),
        before,
        replies,
    )
    &&& is_attached(replies, task_id, comment_id, request)
}

proof fn lemma_attaching_asks(
    replies: Seq<ReplyView>,
    task_id: Seq<char>,
    comment_id: Option<Seq<char>>,
    request: RequestView,
)
    requires
        is_attached(replies, task_id, comment_id, request),
    ensures
        ({
            let (_, at) = attached_to(replies, task_id, comment_id);
            let id = store::id_at(replies, at)->Ok_0;
            let h = attaching(task_id, comment_id, request);
            &&& 0 <= at && at + 4 < replies.len()
            &&& replies[at] == ReplyView::Text(id)
            &&& h(replies.take(at)) == Err::<ResponseView, StepView>(
                StepView::Ask(ActionView::NewId),
            )
            &&& h(replies.take(at + 4)) == Err::<ResponseView, StepView>(
                StepView::Ask(ActionView::Read(seq![attachment_asked(id)])),
            )
        }),
{
}

/// A file that is attached is stored under a fresh identifier, and shown with its name, its type and
/// its length. Every other attachment and its file stay as they are.
#[verifier::spinoff_prover]
#[verifier::rlimit(30)]
pub proof fn law_attached_file_is_shown(
    before: Shelf,
    task_id: Seq<char>,
    comment_id: Option<Seq<char>>,
    request: RequestView,
    replies: Seq<ReplyView>,
)
    requires
        is_attaching(before, task_id, comment_id, request, replies),
    ensures
        ({
            let (owner, at) = attached_to(replies, task_id, comment_id);
            let id = store::id_at(replies, at)->Ok_0;
            let after = history::became(
                attaching(task_id, comment_id, request),
                shelf_effect(),
                before,
                replies,
            );
            let shown = shown_attachment(
                id,
                owner,
                comment_id,
                comments::filename_of(request.headers)->Ok_0,
                comments::content_type_of(request.headers),
                request.body.len() as int,
                store::now_at(replies, at + 2)->Ok_0,
            );
            &&& !before.rows.contains_key(id) && !before.files.contains_key(id)
            &&& after == (Shelf {
                rows: before.rows.insert(
                    id,
                    attachment_row(insertion(replies, task_id, comment_id, request).params),
                ),
                files: before.files.insert(id, request.body),
            })
            &&& comments::attachment_of_row(after.rows[id]) == Ok::<JsonView, Seq<char>>(shown)
            &&& comments::attachment_created(replies, 0, task_id, comment_id, request) == Ok::<
                ResponseView,
                StepView,
            >(
                ResponseView::Json(
                    201,
                    JsonView::Object(json::members().push(("attachment"@, shown))),
                ),
            )
        }),
{
    let h = attaching(task_id, comment_id, request);
    let e = shelf_effect();
    let t = shelf_tells();
    let n = replies.len() as int;
    let (owner, at) = attached_to(replies, task_id, comment_id);
    let id = store::id_at(replies, at)->Ok_0;
    let p = insertion(replies, task_id, comment_id, request).params;
    let filename = comments::filename_of(request.headers)->Ok_0;
    let content_type = comments::content_type_of(request.headers);
    let size = request.body.len() as int;
    let timestamp = store::now_at(replies, at + 2)->Ok_0;
    lemma_attaching_asks(replies, task_id, comment_id, request);
    lemma_attaching_becomes(before, replies, task_id, comment_id, request);
    history::lemma_start(h, e, before, replies);
    assert forall|i: int| 0 <= i < n && i != at + 1 && i != at + 3 implies #[trigger] history::is_quiet(
        h,
        e,
        replies,
        i,
    ) by {
        lemma_attaching_does(replies, task_id, comment_id, request, i);
    }
    history::lemma_quiet(h, e, before, replies, 0, at);
    history::lemma_told(h, e, t, before, replies, at);
    history::lemma_quiet(h, e, before, replies, at + 4, n);
    let after = history::became(h, e, before, replies);
    assert(history::became(h, e, before, replies.take(at + 4)) == after);
    history::lemma_told(h, e, t, before, replies, at + 4);
    lemma_tells_attachment(after, id, replies[at + 4]);
    law_inserted_attachment_is_shown(
        id,
        owner,
        comment_id,
        filename,
        content_type,
        size,
        timestamp,
    );
    let shown = shown_attachment(
        id,
        owner,
        comment_id,
        filename,
        content_type,
        size,
        timestamp,
    );
    assert(after.rows.contains_key(id));
    lemma_found_row(replies, at + 4, id, attachment_row(p), shown);
    lemma_attaching_shows(replies, task_id, comment_id, request);
}

proof fn lemma_attaching_shows(
    replies: Seq<ReplyView>,
    task_id: Seq<char>,
    comment_id: Option<Seq<char>>,
    request: RequestView,
)
    requires
        is_attached(replies, task_id, comment_id, request),
    ensures
        ({
            let (_, at) = attached_to(replies, task_id, comment_id);
            let id = store::id_at(replies, at)->Ok_0;
            let read = comments::attachment_at(replies, at + 4, id);
            &&& read is Ok
            &&& comments::attachment_created(replies, 0, task_id, comment_id, request) == Ok::<
                ResponseView,
                StepView,
            >(
                ResponseView::Json(
                    201,
                    JsonView::Object(
                        json::members().push(("attachment"@, json::or_null(read->Ok_0))),
                    ),
                ),
            )
        }),
{
}

proof fn lemma_found_row(
    replies: Seq<ReplyView>,
    at: int,
    id: Seq<char>,
    row: Seq<(Seq<char>, SqlView)>,
    shown: JsonView,
)
    requires
        0 <= at < replies.len(),
        board::is_table(replies[at], seq![row]),
        comments::attachment_of_row(row) == Ok::<JsonView, Seq<char>>(shown),
        row.len() > 0,
        row[0].1 is Text,
    ensures
        comments::attachment_at(replies, at, id) == Ok::<Option<JsonView>, StepView>(Some(shown)),
{
    let rows = seq![row];
    assert(rows[0] == row);
    let tables = seq![rows];
    assert(tables[0] == rows);
}

/// The request for the content of an attachment.
pub open spec fn reading(id: Seq<char>) -> spec_fn(Seq<ReplyView>) -> Result<
    ResponseView,
    StepView,
> {
    |replies: Seq<ReplyView>| comments::content_sent(replies, id)
}

/// Whether these are the replies of the store to the request for the content of an attachment.
pub open spec fn is_reading(shelf: Shelf, id: Seq<char>, replies: Seq<ReplyView>) -> bool {
    history::is_course(reading(id), shelf_effect(), shelf_tells(), shelf, replies)
}

/// The content of an attachment is what was sent: once a file is attached, as long as its row and
/// its file are there as they were stored, the request for its content is answered with the body that
/// was sent, in its length and with the content type that the request named.
pub proof fn law_content_is_what_was_sent(
    before: Shelf,
    task_id: Seq<char>,
    comment_id: Option<Seq<char>>,
    request: RequestView,
    replies: Seq<ReplyView>,
    shelf: Shelf,
    later: Seq<ReplyView>,
)
    requires
        is_attaching(before, task_id, comment_id, request, replies),
        ({
            let (_, at) = attached_to(replies, task_id, comment_id);
            let id = store::id_at(replies, at)->Ok_0;
            let after = history::became(
                attaching(task_id, comment_id, request),
                shelf_effect(),
                before,
                replies,
            );
            &&& shelf.rows.contains_key(id) && shelf.rows[id] == after.rows[id]
            &&& shelf.files.contains_key(id) && shelf.files[id] == after.files[id]
            &&& is_reading(shelf, id, later)
        }),
    ensures
        ({
            let (_, at) = attached_to(replies, task_id, comment_id);
            let id = store::id_at(replies, at)->Ok_0;
            comments::content_sent(later, id) == Ok::<ResponseView, StepView>(
                ResponseView::Static(
                    200,
                    comments::file_headers(
                        "private, no-store"@,
                        comments::content_type_of(request.headers),
                        request.body.len(),
                    ),
                    request.body,
                ),
            )
        }),
{
    let (owner, at) = attached_to(replies, task_id, comment_id);
    let id = store::id_at(replies, at)->Ok_0;
    law_attached_file_is_shown(before, task_id, comment_id, request, replies);
    let shown = shown_attachment(
        id,
        owner,
        comment_id,
        comments::filename_of(request.headers)->Ok_0,
        comments::content_type_of(request.headers),
        request.body.len() as int,
        store::now_at(replies, at + 2)->Ok_0,
    );
    lemma_names();
    json::lemma_lookup(shown->Object_0, "contentType"@, 4);
    lemma_content_is_read(
        shelf,
        id,
        shown,
        comments::content_type_of(request.headers),
        later,
    );
}

proof fn lemma_content_is_read(
    shelf: Shelf,
    id: Seq<char>,
    shown: JsonView,
    content_type: Seq<char>,
    replies: Seq<ReplyView>,
)
    requires
        is_reading(shelf, id, replies),
        shelf.rows.contains_key(id),
        shelf.files.contains_key(id),
        comments::attachment_of_row(shelf.rows[id]) == Ok::<JsonView, Seq<char>>(shown),
        shelf.rows[id].len() > 0,
        shelf.rows[id][0].1 is Text,
        json::text_field(shown, "contentType"@) == Some(content_type),
    ensures
        comments::content_sent(replies, id) == Ok::<ResponseView, StepView>(
            ResponseView::Static(
                200,
                comments::file_headers(
                    "private, no-store"@,
                    content_type,
                    shelf.files[id].len(),
                ),
                shelf.files[id],
            ),
        ),
{
    let h = reading(id);
    let e = shelf_effect();
    let t = shelf_tells();
    history::lemma_start(h, e, shelf, replies);
    assert(h(replies.take(0)) == Err::<ResponseView, StepView>(
        StepView::Ask(ActionView::Read(seq![attachment_asked(id)])),
    ));
    history::lemma_told(h, e, t, shelf, replies, 0);
    lemma_tells_attachment(shelf, id, replies[0]);
    history::lemma_step(h, e, shelf, replies, 0);
    assert(replies.take(1)[0] == replies[0]);
    lemma_found_row(replies.take(1), 0, id, shelf.rows[id], shown);
    assert(h(replies.take(1)) == Err::<ResponseView, StepView>(
        StepView::Ask(ActionView::ReadAttachment(id)),
    ));
    history::lemma_told(h, e, t, shelf, replies, 1);
    lemma_found_row(replies, 0, id, shelf.rows[id], shown);
}

/// The content of an attachment that is not there is not found.
pub proof fn law_unknown_attachment_is_not_found(
    shelf: Shelf,
    id: Seq<char>,
    replies: Seq<ReplyView>,
)
    requires
        !shelf.rows.contains_key(id),
        is_reading(shelf, id, replies),
    ensures
        comments::content_sent(replies, id) == Ok::<ResponseView, StepView>(
            comments::attachment_not_found(),
        ),
{
    let h = reading(id);
    let e = shelf_effect();
    history::lemma_start(h, e, shelf, replies);
    assert(h(replies.take(0)) == Err::<ResponseView, StepView>(
        StepView::Ask(ActionView::Read(seq![attachment_asked(id)])),
    ));
    history::lemma_told(h, e, shelf_tells(), shelf, replies, 0);
    lemma_tells_attachment(shelf, id, replies[0]);
    let tables = seq![Seq::<Seq<(Seq<char>, SqlView)>>::empty()];
    assert(tables[0].len() == 0);
}

/// The effect of an action on a board and a shelf.
pub open spec fn store_effect() -> spec_fn((Board, Shelf), ActionView) -> (Board, Shelf) {
    |s: (Board, Shelf), action: ActionView|
        (board::board_effect()(s.0, action), shelf_effect()(s.1, action))
}

/// Whether a reply is one that the store can give to an action, where it holds a board and a shelf.
pub open spec fn store_tells() -> spec_fn((Board, Shelf), ActionView, ReplyView) -> bool {
    |s: (Board, Shelf), action: ActionView, reply: ReplyView|
        {
            &&& board::board_tells()(s.0, action, reply)
            &&& shelf_tells()(s.1, action, reply)
            &&& action is StoreAttachment ==> reply is Done
        }
}

proof fn lemma_insertion_is_no_task()
    ensures
        comments::INSERT_ATTACHMENT@ != task_edits::INSERT_TASK@,
{
    assert(comments::INSERT_ATTACHMENT@[0] == 'I') by {
        reveal_strlit(
            "INSERT INTO attachments (id, task_id, comment_id, filename, content_type, size, created_at)
         VALUES (?1, ?2, ?3, ?4, ?5, ?6, ?7)",
        );
    }
    assert(task_edits::INSERT_TASK@[0] == '\n') by {
        reveal_strlit(
            "
        INSERT INTO tasks (
          id, identifier, project_id, title, description, status, priority, labels,
          sort_order, thread_id, creator_type, creator_id, creator_name, creator_avatar_url,
          assignee_type, assignee_id, assignee_name, assignee_avatar_url,
          workflow_id, git_branch, worktree_path, worktree_branch,
          due_date, recurrence_interval, recurrence_unit,
          archived_at, version, created_at, updated_at
        ) VALUES (?1, ?2, ?3, ?4, ?5, ?6, ?7, ?8, ?9, ?10, ?11, ?12, ?13, ?14,
          ?15, ?16, ?17, ?18, ?19, ?20, ?21, ?22, ?23, ?24, ?25, NULL, 1, ?26, ?26)
        ",
        );
    }
}

/// What is left of the attaching of a file to a task once the task is read.
pub open spec fn attaching_goes_on(
    replies: Seq<ReplyView>,
    id: Seq<char>,
    request: RequestView,
) -> Result<ResponseView, StepView> {
    comments::attachment_stored(
        replies,
        2,
        id,
        None,
        comments::filename_of(request.headers)->Ok_0,
        comments::content_type_of(request.headers),
        request.body,
    )
}

proof fn lemma_attaching_goes_on(
    replies: Seq<ReplyView>,
    key: Seq<char>,
    id: Seq<char>,
    request: RequestView,
    values: Seq<SqlView>,
    related: JsonView,
)
    requires
        showing::is_stored_task(values),
        values[0] == SqlView::Text(id),
        comments::filename_of(request.headers) is Ok,
        tasks::task_at(replies, 0, key) == Ok::<(Option<JsonView>, int), StepView>(
            (
                Some(tasks::extended(showing::shown_task(values), "relations"@, related)),
                2,
            ),
        ),
    ensures
        comments::attachment_created(replies, 0, key, None, request) == attaching_goes_on(
            replies,
            id,
            request,
        ),
{
    showing::lemma_shown_members(values, "relations"@, related);
}

/// A file that is sent under a proper name to a task of the board is attached: the request is answered
/// with the attachment.
pub proof fn law_file_is_attached(
    before: (Board, Shelf),
    key: Seq<char>,
    id: Seq<char>,
    request: RequestView,
    replies: Seq<ReplyView>,
)
    requires
        before.0.is_sound(),
        before.0.names(key, id),
        comments::filename_of(request.headers) is Ok,
        history::is_course(
            attaching(key, None, request),
            store_effect(),
            store_tells(),
            before,
            replies,
        ),
    ensures
        is_attaching(before.1, key, None, request, replies),
        attached_to(replies, key, None) == (id, 2int),
{
    let h = attaching(key, None, request);
    let n = replies.len() as int;
    let be = board::board_effect();
    let bt = board::board_tells();
    let se = shelf_effect();
    let st = shelf_tells();
    let first = |s: (Board, Shelf)| s.0;
    let second = |s: (Board, Shelf)| s.1;
    history::lemma_course_of_a_part(
        h,
        store_effect(),
        store_tells(),
        first,
        be,
        bt,
        before,
        replies,
    );
    history::lemma_course_of_a_part(
        h,
        store_effect(),
        store_tells(),
        second,
        se,
        st,
        before,
        replies,
    );
    let values = before.0.tasks[id];
    history::lemma_start(h, be, before.0, replies);
    assert(h(replies.take(0)) is Err);
    if n >= 1 && tasks::task_at(replies.take(1), 0, key) is Err {
        assert(h(replies.take(1)) is Err);
    }
    board::lemma_task_is_read(h, before.0, replies, 0, key, id);
    assert(before.0.is_named(key, id));
    assert forall|m: int| 2 <= m <= n implies h(#[trigger] replies.take(m)) == attaching_goes_on(
        replies.take(m),
        id,
        request,
    ) by {
        assert(tasks::task_at(replies.take(m), 0, key) is Ok);
        lemma_attaching_goes_on(
            replies.take(m),
            key,
            id,
            request,
            values,
            board::related_at(replies, 1),
        );
    }
    lemma_attaching_ends(h, before, id, request, replies);
    assert(h(replies.take(n)) == attaching_goes_on(replies.take(n), id, request));
    assert(tasks::task_at(replies.take(n), 0, key) is Ok);
    showing::lemma_shown_members(values, "relations"@, board::related_at(replies, 1));
}

proof fn lemma_attaching_ends(
    h: spec_fn(Seq<ReplyView>) -> Result<ResponseView, StepView>,
    before: (Board, Shelf),
    id: Seq<char>,
    request: RequestView,
    replies: Seq<ReplyView>,
)
    requires
        history::is_course(h, store_effect(), store_tells(), before, replies),
        history::is_course(
            h,
            board::board_effect(),
            board::board_tells(),
            before.0,
            replies,
        ),
        history::is_course(h, shelf_effect(), shelf_tells(), before.1, replies),
        replies.len() >= 2,
        forall|m: int|
            2 <= m <= replies.len() ==> h(#[trigger] replies.take(m)) == attaching_goes_on(
                replies.take(m),
                id,
                request,
            ),
    ensures
        match h(replies) {
            Ok(ResponseView::Json(status, _)) => status == 201,
            _ => false,
        },
{
    let be = board::board_effect();
    let bt = board::board_tells();
    let se = shelf_effect();
    let st = shelf_tells();
    let e = store_effect();
    let n = replies.len() as int;
    let filename = comments::filename_of(request.headers)->Ok_0;
    let content_type = comments::content_type_of(request.headers);
    history::lemma_start(h, se, before.1, replies);
    assert(h(replies.take(2)) == attaching_goes_on(replies.take(2), id, request));
    history::lemma_told(h, se, st, before.1, replies, 2);
    let file = replies[2]->Text_0;
    assert(h(replies.take(3)) == Err::<ResponseView, StepView>(
        StepView::Ask(ActionView::StoreAttachment(file, request.body)),
    )) by {
        assert(replies.take(3)[2] == replies[2]);
    }
    history::lemma_told(h, e, store_tells(), before, replies, 3);
    assert(h(replies.take(4)) == Err::<ResponseView, StepView>(
        StepView::Ask(board::time_query()),
    )) by {
        assert(replies.take(4)[2] == replies[2]);
        assert(replies.take(4)[3] == replies[3]);
    }
    history::lemma_told(h, be, bt, before.0, replies, 4);
    board::lemma_tells_time(history::became(h, be, before.0, replies.take(4)), replies[4]);
    let time = board::time_at(replies, 4);
    let w = comments::attachment_insert(
        file,
        id,
        None,
        filename,
        content_type,
        request.body.len() as int,
        time,
    );
    assert(h(replies.take(5)) == Err::<ResponseView, StepView>(
        StepView::Ask(ActionView::Write(w)),
    )) by {
        assert(replies.take(5)[2] == replies[2]);
        assert(replies.take(5)[3] == replies[3]);
        assert(replies.take(5)[4] == replies[4]);
        board::lemma_time_is_read(replies.take(5), 4);
    }
    history::lemma_told(h, be, bt, before.0, replies, 5);
    lemma_insertion_is_no_task();
    board::lemma_tells_write(history::became(h, be, before.0, replies.take(5)), w, replies[5]);
    history::lemma_step(h, se, before.1, replies, 5);
    let shelf = history::became(h, se, before.1, replies.take(6));
    assert(w.params.len() == 7);
    assert(w.params[0] == SqlView::Text(file));
    assert(shelf.rows.contains_key(file) && shelf.rows[file] == attachment_row(w.params));
    assert forall|m: int| 6 <= m <= n implies h(#[trigger] replies.take(m)) == attached_shown(
        replies.take(m),
        file,
    ) by {
        assert(replies.take(m)[2] == replies[2]);
        assert(replies.take(m)[3] == replies[3]);
        assert(replies.take(m)[4] == replies[4]);
        assert(replies.take(m)[5] == replies[5]);
        board::lemma_time_is_read(replies.take(m), 4);
    }
    assert(h(replies.take(6)) == Err::<ResponseView, StepView>(
        StepView::Ask(ActionView::Read(seq![attachment_asked(file)])),
    ));
    history::lemma_told(h, se, st, before.1, replies, 6);
    lemma_tells_attachment(shelf, file, replies[6]);
    law_inserted_attachment_is_shown(
        file,
        id,
        None,
        filename,
        content_type,
        request.body.len() as int,
        time,
    );
    lemma_found_row(
        replies,
        6,
        file,
        attachment_row(w.params),
        comments::attachment_of_row(attachment_row(w.params))->Ok_0,
    );
    assert(h(replies.take(n)) == attached_shown(replies.take(n), file));
    assert(replies.take(n) =~= replies);
}

/// What is left of the attaching of a file once it is stored.
pub open spec fn attached_shown(replies: Seq<ReplyView>, file: Seq<char>) -> Result<
    ResponseView,
    StepView,
> {
    match comments::attachment_at(replies, 6, file) {
        Err(s) => Err(s),
        Ok(attachment) => Ok(
            ResponseView::Json(
                201,
                JsonView::Object(
                    json::members().push(("attachment"@, json::or_null(attachment))),
                ),
            ),
        ),
    }
}

} // verus!
