//! That files are attached as they are sent.
use crate::comments;
use crate::exchange::{ActionView, ReplyView, ResponseView, SqlView, StatementView, StepView};
use crate::json;
use crate::request;
use crate::request::RequestView;
use crate::sending;
use crate::store;
use crate::tasks;
use crate::text;
use vstd::prelude::*;
use vstd::utf8::*;

verus! {

/// Whether a text can be the name of a file: it has between one character and 240 bytes, no
/// separator and no control character, and is not one of the two names of directories.
pub open spec fn can_name_a_file(s: Seq<char>) -> bool {
    &&& s.len() > 0
    &&& encode_utf8(s).len() <= 240
    &&& s != "."@ && s != ".."@
    &&& forall|i: int|
        0 <= i < s.len() ==> (#[trigger] s[i]) != '/' && s[i] != '\\' && !((s[i] as u32) < 0x20) && !(
        0x7f <= (s[i] as u32) <= 0x9f)
}

/// The name of an attached file is the one in its header, without the white space around it; it is
/// refused exactly where it cannot be the name of a file.
pub proof fn law_filename_is_the_one_sent(headers: Map<Seq<char>, Seq<char>>)
    ensures
        comments::filename_of(headers) is Ok ==> headers.dom().contains("x-taskboard-filename"@)
            && request::percent_decoded(headers["x-taskboard-filename"@], false) is Ok
            && sending::is_inner(
            comments::filename_of(headers)->Ok_0,
            request::percent_decoded(headers["x-taskboard-filename"@], false)->Ok_0,
        ) && can_name_a_file(comments::filename_of(headers)->Ok_0),
        headers.dom().contains("x-taskboard-filename"@) && request::percent_decoded(
            headers["x-taskboard-filename"@],
            false,
        ) is Ok && can_name_a_file(
            text::trimmed(
                request::percent_decoded(headers["x-taskboard-filename"@], false)->Ok_0,
            ),
        ) ==> comments::filename_of(headers) is Ok,
{
    if headers.dom().contains("x-taskboard-filename"@) {
        let raw = headers["x-taskboard-filename"@];
        if request::percent_decoded(raw, false) is Ok {
            let decoded = request::percent_decoded(raw, false)->Ok_0;
            sending::law_trimmed_text_is_what_stands_inside(decoded);
            let name = text::trimmed(decoded);
            if comments::is_filename(name) {
                assert forall|i: int| 0 <= i < name.len() implies (#[trigger] name[i]) != '/'
                    && name[i] != '\\' && !((name[i] as u32) < 0x20) && !(0x7f <= (
                name[i] as u32) <= 0x9f) by {
                    assert(comments::is_name_char(name[i]));
                }
            }
            if can_name_a_file(name) {
                assert forall|i: int| 0 <= i < name.len() implies comments::is_name_char(
                    #[trigger] name[i],
                ) by {}
            }
        }
    }
}

/// The type of an attached file is what its header says before any semicolon, without the white space
/// around it, and that of plain bytes where it says nothing.
pub proof fn law_content_type_is_the_one_sent(
    headers: Map<Seq<char>, Seq<char>>,
    kind: Seq<char>,
    rest: Seq<char>,
)
    requires
        !kind.contains(';'),
        rest.len() == 0 || rest[0] == ';',
        headers.dom().contains("content-type"@) ==> headers["content-type"@] == kind + rest,
    ensures
        !headers.dom().contains("content-type"@) ==> comments::content_type_of(headers)
            == "application/octet-stream"@,
        headers.dom().contains("content-type"@) && text::trimmed(kind).len() == 0
            ==> comments::content_type_of(headers) == "application/octet-stream"@,
        headers.dom().contains("content-type"@) && text::trimmed(kind).len() > 0
            ==> sending::is_inner(comments::content_type_of(headers), kind),
{
    text::lemma_split_plain(kind, ';');
    sending::law_trimmed_text_is_what_stands_inside(kind);
    if rest.len() == 0 {
        assert(kind + rest =~= kind);
    } else {
        let x = kind.push(';');
        let y = rest.skip(1);
        assert(kind + rest =~= x + y);
        text::lemma_split_joins(x, y, ';');
        assert(x.drop_last() =~= kind);
        assert(text::split_spec(x, ';') == text::split_spec(kind, ';').push(Seq::empty()));
        assert(text::split_spec(kind, ';')[0] == kind);
        assert(text::split_spec(x, ';').drop_last() =~= seq![kind]);
        assert(text::split_spec(kind + rest, ';')[0] == kind);
    }
}

/// What is stored of an attached file is the body of the request, under a fresh identifier.
pub proof fn law_attached_content_is_the_one_sent(
    replies: Seq<ReplyView>,
    at: int,
    task_id: Seq<char>,
    comment_id: Option<Seq<char>>,
    request: RequestView,
    id: Seq<char>,
    content: Seq<u8>,
)
    requires
        0 <= at,
        comments::attachment_created(replies, at, task_id, comment_id, request) == Err::<
            ResponseView,
            StepView,
        >(StepView::Ask(ActionView::StoreAttachment(id, content))),
    ensures
        content == request.body,
        replies.len() > 0,
        replies.last() == ReplyView::Text(id),
{
}

/// An attached file is noted under the same identifier as its content, in the task that is named and
/// in the comment where one is named, with its name, its type, and the number of its bytes.
pub proof fn law_attachment_is_written_as_sent(
    replies: Seq<ReplyView>,
    at: int,
    task_id: Seq<char>,
    comment_id: Option<Seq<char>>,
    request: RequestView,
    w: StatementView,
)
    requires
        0 <= at,
        comments::attachment_created(replies, at, task_id, comment_id, request) == Err::<
            ResponseView,
            StepView,
        >(StepView::Ask(ActionView::Write(w))),
    ensures
        ({
            let task = tasks::task_at(replies, at, task_id);
            let n = replies.len() as int;
            &&& task is Ok && (task->Ok_0).0 is Some
            &&& w.sql
                == "INSERT INTO attachments (id, task_id, comment_id, filename, content_type, size, created_at)
         VALUES (?1, ?2, ?3, ?4, ?5, ?6, ?7)"@
            &&& w.params.len() == 7
            &&& n >= 3 && replies[n - 3] is Text && w.params[0] == SqlView::Text(
                replies[n - 3]->Text_0,
            )
            &&& json::text_field((task->Ok_0).0->0, "id"@) is Some && w.params[1] == SqlView::Text(
                json::text_field((task->Ok_0).0->0, "id"@)->0,
            )
            &&& w.params[2] == sending::cell(comment_id)
            &&& comments::filename_of(request.headers) is Ok && w.params[3] == SqlView::Text(
                comments::filename_of(request.headers)->Ok_0,
            )
            &&& w.params[4] == SqlView::Text(comments::content_type_of(request.headers))
            &&& w.params[5] == SqlView::Integer(request.body.len() as int)
            &&& w.params[6] is Text
        }),
{
}

/// An attachment is deleted by its identifier, first where it is noted, then its file.
pub proof fn law_attachment_is_deleted_by_its_identifier(
    replies: Seq<ReplyView>,
    id: Seq<char>,
    action: ActionView,
)
    requires
        comments::attachment_deleted(replies, id) == Err::<ResponseView, StepView>(
            StepView::Ask(action),
        ),
    ensures
        replies.len() == 1 ==> action == ActionView::Write(
            StatementView {
                sql: "DELETE FROM attachments WHERE id = ?1"@,
                params: seq![SqlView::Text(id)],
            },
        ),
        replies.len() == 2 ==> action == ActionView::RemoveAttachments(seq![id]),
        replies.len() <= 2,
{
    assert(store::params().push(store::text_param(id)) =~= seq![SqlView::Text(id)]);
    assert(Seq::<Seq<char>>::empty().push(id) =~= seq![id]);
}

/// The content of an attachment is sent as it is read, with the type that is noted of it and its
/// length, and is kept nowhere.
pub proof fn law_content_is_sent_as_it_is(replies: Seq<ReplyView>, id: Seq<char>)
    requires
        comments::content_sent(replies, id) is Ok,
        comments::attachment_at(replies, 0, id) is Ok,
        comments::attachment_at(replies, 0, id)->Ok_0 is Some,
    ensures
        replies.len() >= 2,
        replies[1] is Bytes,
        ({
            let noted = comments::attachment_at(replies, 0, id)->Ok_0->0;
            let kind = match json::text_field(noted, "contentType"@) {
                Some(s) => s,
                None => "application/octet-stream"@,
            };
            comments::content_sent(replies, id)->Ok_0 == ResponseView::Static(
                200,
                seq![
                    ("cache-control"@, "private, no-store"@),
                    ("content-type"@, kind),
                    ("content-length"@, text::decimal(replies[1]->Bytes_0.len())),
                ],
                replies[1]->Bytes_0,
            )
        }),
{
    let noted = comments::attachment_at(replies, 0, id)->Ok_0->0;
    let kind = match json::text_field(noted, "contentType"@) {
        Some(s) => s,
        None => "application/octet-stream"@,
    };
    let body = replies[1]->Bytes_0;
    assert(comments::file_headers("private, no-store"@, kind, body.len()) =~= seq![
        ("cache-control"@, "private, no-store"@),
        ("content-type"@, kind),
        ("content-length"@, text::decimal(body.len())),
    ]);
}

} // verus!
